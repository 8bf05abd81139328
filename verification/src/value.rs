//! The dynamically typed values a [`crate::object::DynamicObject`] can hold.

use vstd::prelude::*;

use crate::object::DynamicObject;

verus! {

/// The kind tag of a [`DynamicValue`], used in error reports to say which
/// kind was expected and which was found.
#[derive(Clone, Copy, Debug, PartialEq, Eq, Structural)]
pub enum ValueKind {
    Null,
    Undefined,
    Bool,
    Number,
    Str,
    Array,
    Object,
    Handle,
}

/// A dynamically typed value: the tagged union stored in the slots of a
/// [`DynamicObject`].
///
/// `Null` (an explicit null value) and `Undefined` (the sentinel that also
/// stands for an absent slot) are distinct: coercions treat an `Undefined`
/// slot as missing, while a `Null` slot is a present value that simply fails
/// most coercions. Numbers carry an integer value; an opaque host handle or
/// function is carried as `Handle` with an identifier the accessors never
/// interpret.
#[derive(Debug, PartialEq)]
pub enum DynamicValue {
    Null,
    Undefined,
    Bool(bool),
    Number(i64),
    Str(String),
    Array(Vec<DynamicValue>),
    Object(DynamicObject),
    Handle(u64),
}

/// `n` clamped to the range of `u8`: out-of-range numbers saturate at the
/// nearest bound instead of wrapping.
pub open spec fn clamp_u8(n: int) -> u8 {
    if n < 0 {
        0
    } else if n > 0xff {
        0xff
    } else {
        n as u8
    }
}

/// `n` clamped to the range of `u16`.
pub open spec fn clamp_u16(n: int) -> u16 {
    if n < 0 {
        0
    } else if n > 0xffff {
        0xffff
    } else {
        n as u16
    }
}

/// `n` clamped to the range of `u32`.
pub open spec fn clamp_u32(n: int) -> u32 {
    if n < 0 {
        0
    } else if n > 0xffff_ffff {
        0xffff_ffff
    } else {
        n as u32
    }
}

/// `n` clamped to the range of `u64` (only negative numbers are out of it).
pub open spec fn clamp_u64(n: int) -> u64 {
    if n < 0 {
        0
    } else {
        n as u64
    }
}

impl DynamicValue {
    /// The kind tag of this value.
    pub open spec fn kind_spec(self) -> ValueKind {
        match self {
            DynamicValue::Null => ValueKind::Null,
            DynamicValue::Undefined => ValueKind::Undefined,
            DynamicValue::Bool(_) => ValueKind::Bool,
            DynamicValue::Number(_) => ValueKind::Number,
            DynamicValue::Str(_) => ValueKind::Str,
            DynamicValue::Array(_) => ValueKind::Array,
            DynamicValue::Object(_) => ValueKind::Object,
            DynamicValue::Handle(_) => ValueKind::Handle,
        }
    }

    /// Report the kind tag of this value.
    pub fn kind(&self) -> (k: ValueKind)
        ensures
            k == self.kind_spec(),
    {
        match self {
            DynamicValue::Null => ValueKind::Null,
            DynamicValue::Undefined => ValueKind::Undefined,
            DynamicValue::Bool(_) => ValueKind::Bool,
            DynamicValue::Number(_) => ValueKind::Number,
            DynamicValue::Str(_) => ValueKind::Str,
            DynamicValue::Array(_) => ValueKind::Array,
            DynamicValue::Object(_) => ValueKind::Object,
            DynamicValue::Handle(_) => ValueKind::Handle,
        }
    }
}

} // verus!
