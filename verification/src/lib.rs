//! Typed property access over a dynamic key-value object.
//!
//! A [`DynamicObject`] is a string-keyed store of dynamically typed
//! [`DynamicValue`]s. The accessor methods retrieve, coerce, or store a
//! property value, reporting a precise [`PropertyError`] when a property is
//! absent or its value cannot produce the requested type.

pub mod accessors;
pub mod coerce;
pub mod error;
pub mod hex;
pub mod object;
pub mod value;

pub use error::PropertyError;
pub use object::DynamicObject;
pub use value::DynamicValue;
pub use value::ValueKind;
