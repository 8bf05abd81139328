//! The failure reasons a property access can report.

use vstd::prelude::*;

use crate::value::ValueKind;

verus! {

/// Why a property access failed.
///
/// Every accessor failure is local to the single access that reported it:
/// a failed read never mutates the object.
#[derive(Debug, PartialEq, Eq)]
pub enum PropertyError {
    /// The slot was absent (or held the undefined sentinel) when a value
    /// was required. Carries the property name.
    MissingProperty(String),
    /// The slot was present but its value's kind was not the one the
    /// accessor requires. Carries the property name, the expected kind and
    /// the actual kind.
    TypeMismatch(String, ValueKind, ValueKind),
    /// The slot was present but its content could not produce the requested
    /// type. Carries the property name and a conversion diagnostic.
    CoercionFailed(String, String),
}

} // verus!
