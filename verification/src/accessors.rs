//! Typed read access to the slots of a [`DynamicObject`].

use vstd::prelude::*;

use crate::error::PropertyError;
use crate::hex::hex_decode;
use crate::hex::hex_str_ok;
use crate::hex::decode_hex;
use crate::object::DynamicObject;
use crate::value::clamp_u8;
use crate::value::clamp_u16;
use crate::value::clamp_u32;
use crate::value::clamp_u64;
use crate::value::DynamicValue;
use crate::value::ValueKind;

verus! {

/// Every element of `a` is of number kind.
pub open spec fn all_numbers(a: Seq<DynamicValue>) -> bool {
    forall|i: int| 0 <= i < a.len() ==> (#[trigger] a[i]) is Number
}

/// The byte sequence described by a sequence of number values, each
/// clamped to the range of a byte.
pub open spec fn bytes_of_numbers(a: Seq<DynamicValue>) -> Seq<u8> {
    Seq::new(a.len(), |i: int| clamp_u8(a[i]->Number_0 as int))
}

/// Whether `v` is one of the two accepted byte-sequence representations:
/// a well-formed hex string or an array of numbers.
pub open spec fn vec_u8_convertible(v: DynamicValue) -> bool {
    ||| (v matches DynamicValue::Str(s) && hex_str_ok(s@))
    ||| (v matches DynamicValue::Array(a) && all_numbers(a@))
}

/// The byte sequence both representations normalize to.
pub open spec fn vec_u8_converted(v: DynamicValue) -> Seq<u8> {
    match v {
        DynamicValue::Str(s) => hex_decode(s@),
        DynamicValue::Array(a) => bytes_of_numbers(a@),
        _ => Seq::empty(),
    }
}

/// Clamp every number of `a` to a byte, or report the first element that
/// is not a number.
fn bytes_from_numbers(a: &Vec<DynamicValue>) -> (r: Option<Vec<u8>>)
    ensures
        match r {
            Some(v) => all_numbers(a@) && v@ == bytes_of_numbers(a@),
            None => !all_numbers(a@),
        },
{
    let mut out: Vec<u8> = Vec::new();
    let mut i: usize = 0;
    while i < a.len()
        invariant
            i <= a@.len(),
            out@.len() == i,
            forall|j: int| 0 <= j < i ==> (#[trigger] a@[j]) is Number,
            forall|j: int| 0 <= j < i ==> out@[j] == clamp_u8(a@[j]->Number_0 as int),
        decreases a@.len() - i,
    {
        match &a[i] {
            DynamicValue::Number(n) => {
                let n = *n;
                let b: u8 = if n < 0 {
                    0
                } else if n > 0xff {
                    0xff
                } else {
                    n as u8
                };
                out.push(b);
            },
            _ => {
                return None;
            },
        }
        i = i + 1;
    }
    proof {
        assert(out@ =~= bytes_of_numbers(a@));
    }
    Some(out)
}

impl DynamicObject {
    /// Borrow the raw value at `prop`.
    ///
    /// Fails with [`PropertyError::MissingProperty`] when the slot is
    /// absent or holds the undefined sentinel; any other stored value,
    /// explicit null included, is returned as it stands.
    pub fn get_value(&self, prop: &str) -> (r: Result<&DynamicValue, PropertyError>)
        ensures
            match r {
                Ok(v) => self.spec_present(prop@) && *v == self@[prop@],
                Err(e) => !self.spec_present(prop@) && (e matches PropertyError::MissingProperty(n)
                    && n@ == prop@),
            },
    {
        match self.lookup(prop) {
            Some(v) => match v {
                DynamicValue::Undefined => Err(PropertyError::MissingProperty(prop.to_owned())),
                _ => Ok(v),
            },
            None => Err(PropertyError::MissingProperty(prop.to_owned())),
        }
    }

    /// Borrow the raw value at `prop`, or report an absent slot as `None`.
    ///
    /// A slot holding the undefined sentinel counts as absent; the call
    /// itself cannot fail.
    pub fn try_get_value(&self, prop: &str) -> (r: Result<
        Option<&DynamicValue>,
        PropertyError,
    >)
        ensures
            match r {
                Ok(Some(v)) => self.spec_present(prop@) && *v == self@[prop@],
                Ok(None) => !self.spec_present(prop@),
                Err(_) => false,
            },
    {
        match self.lookup(prop) {
            Some(v) => match v {
                DynamicValue::Undefined => Ok(None),
                _ => Ok(Some(v)),
            },
            None => Ok(None),
        }
    }

    /// Read the string value at `prop`.
    ///
    /// The value must be exactly of string kind: there is no implicit
    /// stringification of numbers or booleans.
    pub fn get_string(&self, prop: &str) -> (r: Result<String, PropertyError>)
        ensures
            match r {
                Ok(s) => self.spec_present(prop@) && (self@[prop@] matches DynamicValue::Str(t)
                    && s@ == t@),
                Err(e) => {
                    ||| (!self.spec_present(prop@) && (e matches PropertyError::MissingProperty(n)
                        && n@ == prop@))
                    ||| (self.spec_present(prop@) && !(self@[prop@] is Str) && (
                    e matches PropertyError::TypeMismatch(n, expected, actual) && n@ == prop@
                        && expected == ValueKind::Str && actual == self@[prop@].kind_spec()))
                },
            },
    {
        match self.lookup(prop) {
            Some(v) => match v {
                DynamicValue::Str(s) => Ok(s.clone()),
                DynamicValue::Undefined => Err(PropertyError::MissingProperty(prop.to_owned())),
                other => Err(
                    PropertyError::TypeMismatch(prop.to_owned(), ValueKind::Str, other.kind()),
                ),
            },
            None => Err(PropertyError::MissingProperty(prop.to_owned())),
        }
    }

    /// Read the string value at `prop`, or `None` when the slot is absent
    /// (or holds the undefined sentinel).
    ///
    /// Only absence yields `None`: a present value of any other kind is a
    /// conversion failure and reports a type error.
    pub fn try_get_string(&self, prop: &str) -> (r: Result<Option<String>, PropertyError>)
        ensures
            match r {
                Ok(Some(s)) => self.spec_present(prop@) && (self@[prop@]
                    matches DynamicValue::Str(t) && s@ == t@),
                Ok(None) => !self.spec_present(prop@),
                Err(e) => self.spec_present(prop@) && !(self@[prop@] is Str) && (
                e matches PropertyError::TypeMismatch(n, expected, actual) && n@ == prop@
                    && expected == ValueKind::Str && actual == self@[prop@].kind_spec()),
            },
    {
        match self.lookup(prop) {
            Some(v) => match v {
                DynamicValue::Str(s) => Ok(Some(s.clone())),
                DynamicValue::Undefined => Ok(None),
                other => Err(
                    PropertyError::TypeMismatch(prop.to_owned(), ValueKind::Str, other.kind()),
                ),
            },
            None => Ok(None),
        }
    }

    /// Read the boolean value at `prop`.
    ///
    /// The value must be exactly of boolean kind; a value of any other
    /// kind fails with a type error, never with a silent default.
    pub fn get_bool(&self, prop: &str) -> (r: Result<bool, PropertyError>)
        ensures
            match r {
                Ok(b) => self.spec_present(prop@) && (self@[prop@] matches DynamicValue::Bool(x)
                    && b == x),
                Err(e) => {
                    ||| (!self.spec_present(prop@) && (e matches PropertyError::MissingProperty(n)
                        && n@ == prop@))
                    ||| (self.spec_present(prop@) && !(self@[prop@] is Bool) && (
                    e matches PropertyError::TypeMismatch(n, expected, actual) && n@ == prop@
                        && expected == ValueKind::Bool && actual == self@[prop@].kind_spec()))
                },
            },
    {
        match self.lookup(prop) {
            Some(v) => match v {
                DynamicValue::Bool(b) => Ok(*b),
                DynamicValue::Undefined => Err(PropertyError::MissingProperty(prop.to_owned())),
                other => Err(
                    PropertyError::TypeMismatch(prop.to_owned(), ValueKind::Bool, other.kind()),
                ),
            },
            None => Err(PropertyError::MissingProperty(prop.to_owned())),
        }
    }

    /// Read the boolean value at `prop`, or `None` when the slot is absent
    /// (or holds the undefined sentinel).
    ///
    /// Only absence yields `None`: a present value of any other kind is a
    /// conversion failure and reports a type error.
    pub fn try_get_bool(&self, prop: &str) -> (r: Result<Option<bool>, PropertyError>)
        ensures
            match r {
                Ok(Some(b)) => self.spec_present(prop@) && (self@[prop@]
                    matches DynamicValue::Bool(x) && b == x),
                Ok(None) => !self.spec_present(prop@),
                Err(e) => self.spec_present(prop@) && !(self@[prop@] is Bool) && (
                e matches PropertyError::TypeMismatch(n, expected, actual) && n@ == prop@
                    && expected == ValueKind::Bool && actual == self@[prop@].kind_spec()),
            },
    {
        match self.lookup(prop) {
            Some(v) => match v {
                DynamicValue::Bool(b) => Ok(Some(*b)),
                DynamicValue::Undefined => Ok(None),
                other => Err(
                    PropertyError::TypeMismatch(prop.to_owned(), ValueKind::Bool, other.kind()),
                ),
            },
            None => Ok(None),
        }
    }

    /// Read the number at `prop` as a `u8`.
    ///
    /// Accepts any value of number kind; a number outside the range of the
    /// target width saturates at the nearest bound. A value of any other
    /// kind fails with a coercion error.
    pub fn get_u8(&self, prop: &str) -> (r: Result<u8, PropertyError>)
        ensures
            match r {
                Ok(x) => self.spec_present(prop@) && (self@[prop@] matches DynamicValue::Number(n)
                    && x == clamp_u8(n as int)),
                Err(e) => {
                    ||| (!self.spec_present(prop@) && (e matches PropertyError::MissingProperty(n)
                        && n@ == prop@))
                    ||| (self.spec_present(prop@) && !(self@[prop@] is Number) && (
                    e matches PropertyError::CoercionFailed(n, _) && n@ == prop@))
                },
            },
    {
        match self.lookup(prop) {
            Some(v) => match v {
                DynamicValue::Number(n) => {
                    let n = *n;
                    Ok(
                        if n < 0 {
                            0
                        } else if n > 0xff {
                            0xff
                        } else {
                            n as u8
                        },
                    )
                },
                DynamicValue::Undefined => Err(PropertyError::MissingProperty(prop.to_owned())),
                _ => Err(
                    PropertyError::CoercionFailed(
                        prop.to_owned(),
                        "value is not of number kind".to_owned(),
                    ),
                ),
            },
            None => Err(PropertyError::MissingProperty(prop.to_owned())),
        }
    }

    /// Read the number at `prop` as a `u16`, saturating as [`Self::get_u8`]
    /// does.
    pub fn get_u16(&self, prop: &str) -> (r: Result<u16, PropertyError>)
        ensures
            match r {
                Ok(x) => self.spec_present(prop@) && (self@[prop@] matches DynamicValue::Number(n)
                    && x == clamp_u16(n as int)),
                Err(e) => {
                    ||| (!self.spec_present(prop@) && (e matches PropertyError::MissingProperty(n)
                        && n@ == prop@))
                    ||| (self.spec_present(prop@) && !(self@[prop@] is Number) && (
                    e matches PropertyError::CoercionFailed(n, _) && n@ == prop@))
                },
            },
    {
        match self.lookup(prop) {
            Some(v) => match v {
                DynamicValue::Number(n) => {
                    let n = *n;
                    Ok(
                        if n < 0 {
                            0
                        } else if n > 0xffff {
                            0xffff
                        } else {
                            n as u16
                        },
                    )
                },
                DynamicValue::Undefined => Err(PropertyError::MissingProperty(prop.to_owned())),
                _ => Err(
                    PropertyError::CoercionFailed(
                        prop.to_owned(),
                        "value is not of number kind".to_owned(),
                    ),
                ),
            },
            None => Err(PropertyError::MissingProperty(prop.to_owned())),
        }
    }

    /// Read the number at `prop` as a `u32`, saturating as [`Self::get_u8`]
    /// does.
    pub fn get_u32(&self, prop: &str) -> (r: Result<u32, PropertyError>)
        ensures
            match r {
                Ok(x) => self.spec_present(prop@) && (self@[prop@] matches DynamicValue::Number(n)
                    && x == clamp_u32(n as int)),
                Err(e) => {
                    ||| (!self.spec_present(prop@) && (e matches PropertyError::MissingProperty(n)
                        && n@ == prop@))
                    ||| (self.spec_present(prop@) && !(self@[prop@] is Number) && (
                    e matches PropertyError::CoercionFailed(n, _) && n@ == prop@))
                },
            },
    {
        match self.lookup(prop) {
            Some(v) => match v {
                DynamicValue::Number(n) => {
                    let n = *n;
                    Ok(
                        if n < 0 {
                            0
                        } else if n > 0xffff_ffff {
                            0xffff_ffff
                        } else {
                            n as u32
                        },
                    )
                },
                DynamicValue::Undefined => Err(PropertyError::MissingProperty(prop.to_owned())),
                _ => Err(
                    PropertyError::CoercionFailed(
                        prop.to_owned(),
                        "value is not of number kind".to_owned(),
                    ),
                ),
            },
            None => Err(PropertyError::MissingProperty(prop.to_owned())),
        }
    }

    /// Read the number at `prop` as a `u64`; only a negative number is out
    /// of range and saturates to zero.
    pub fn get_u64(&self, prop: &str) -> (r: Result<u64, PropertyError>)
        ensures
            match r {
                Ok(x) => self.spec_present(prop@) && (self@[prop@] matches DynamicValue::Number(n)
                    && x == clamp_u64(n as int)),
                Err(e) => {
                    ||| (!self.spec_present(prop@) && (e matches PropertyError::MissingProperty(n)
                        && n@ == prop@))
                    ||| (self.spec_present(prop@) && !(self@[prop@] is Number) && (
                    e matches PropertyError::CoercionFailed(n, _) && n@ == prop@))
                },
            },
    {
        match self.lookup(prop) {
            Some(v) => match v {
                DynamicValue::Number(n) => {
                    let n = *n;
                    Ok(
                        if n < 0 {
                            0
                        } else {
                            n as u64
                        },
                    )
                },
                DynamicValue::Undefined => Err(PropertyError::MissingProperty(prop.to_owned())),
                _ => Err(
                    PropertyError::CoercionFailed(
                        prop.to_owned(),
                        "value is not of number kind".to_owned(),
                    ),
                ),
            },
            None => Err(PropertyError::MissingProperty(prop.to_owned())),
        }
    }

    /// Borrow the array value at `prop`.
    pub fn get_vec(&self, prop: &str) -> (r: Result<&Vec<DynamicValue>, PropertyError>)
        ensures
            match r {
                Ok(v) => self.spec_present(prop@) && (self@[prop@] matches DynamicValue::Array(a)
                    && *v == a),
                Err(e) => {
                    ||| (!self.spec_present(prop@) && (e matches PropertyError::MissingProperty(n)
                        && n@ == prop@))
                    ||| (self.spec_present(prop@) && !(self@[prop@] is Array) && (
                    e matches PropertyError::TypeMismatch(n, expected, actual) && n@ == prop@
                        && expected == ValueKind::Array && actual == self@[prop@].kind_spec()))
                },
            },
    {
        match self.lookup(prop) {
            Some(v) => match v {
                DynamicValue::Array(a) => Ok(a),
                DynamicValue::Undefined => Err(PropertyError::MissingProperty(prop.to_owned())),
                other => Err(
                    PropertyError::TypeMismatch(prop.to_owned(), ValueKind::Array, other.kind()),
                ),
            },
            None => Err(PropertyError::MissingProperty(prop.to_owned())),
        }
    }

    /// Borrow the nested object at `prop`.
    ///
    /// Reports [`PropertyError::MissingProperty`] both when the slot is
    /// absent and when it holds a value of any other kind: a deliberate
    /// simplification the two cases share.
    pub fn get_object(&self, prop: &str) -> (r: Result<&DynamicObject, PropertyError>)
        ensures
            match r {
                Ok(o) => self.spec_present(prop@) && (self@[prop@] matches DynamicValue::Object(
                    inner,
                ) && *o == inner),
                Err(e) => (!self.spec_present(prop@) || !(self@[prop@] is Object)) && (
                e matches PropertyError::MissingProperty(n) && n@ == prop@),
            },
    {
        match self.lookup(prop) {
            Some(v) => match v {
                DynamicValue::Object(o) => Ok(o),
                _ => Err(PropertyError::MissingProperty(prop.to_owned())),
            },
            None => Err(PropertyError::MissingProperty(prop.to_owned())),
        }
    }

    /// Borrow the nested object at `prop`, or `None` when the slot is
    /// absent or holds a value of any other kind.
    pub fn try_get_object(&self, prop: &str) -> (r: Result<
        Option<&DynamicObject>,
        PropertyError,
    >)
        ensures
            match r {
                Ok(Some(o)) => self.spec_present(prop@) && (self@[prop@]
                    matches DynamicValue::Object(inner) && *o == inner),
                Ok(None) => !self.spec_present(prop@) || !(self@[prop@] is Object),
                Err(_) => false,
            },
    {
        match self.lookup(prop) {
            Some(v) => match v {
                DynamicValue::Object(o) => Ok(Some(o)),
                _ => Ok(None),
            },
            None => Ok(None),
        }
    }

    /// Read the byte sequence at `prop` from either of its two accepted
    /// representations: a hex-encoded string or an array of numbers. Both
    /// normalize to the same bytes; a value that is neither fails with a
    /// coercion error.
    pub fn get_vec_u8(&self, prop: &str) -> (r: Result<Vec<u8>, PropertyError>)
        ensures
            match r {
                Ok(bytes) => self.spec_present(prop@) && vec_u8_convertible(self@[prop@])
                    && bytes@ == vec_u8_converted(self@[prop@]),
                Err(e) => {
                    ||| (!self.spec_present(prop@) && (e matches PropertyError::MissingProperty(n)
                        && n@ == prop@))
                    ||| (self.spec_present(prop@) && !vec_u8_convertible(self@[prop@]) && (
                    e matches PropertyError::CoercionFailed(n, _) && n@ == prop@))
                },
            },
    {
        match self.lookup(prop) {
            Some(v) => match v {
                DynamicValue::Str(s) => match decode_hex(s.as_str()) {
                    Some(bytes) => Ok(bytes),
                    None => Err(
                        PropertyError::CoercionFailed(
                            prop.to_owned(),
                            "string is not a well-formed hex encoding".to_owned(),
                        ),
                    ),
                },
                DynamicValue::Array(a) => match bytes_from_numbers(a) {
                    Some(bytes) => Ok(bytes),
                    None => Err(
                        PropertyError::CoercionFailed(
                            prop.to_owned(),
                            "array element is not of number kind".to_owned(),
                        ),
                    ),
                },
                DynamicValue::Undefined => Err(PropertyError::MissingProperty(prop.to_owned())),
                _ => Err(
                    PropertyError::CoercionFailed(
                        prop.to_owned(),
                        "value is neither a hex string nor an array of numbers".to_owned(),
                    ),
                ),
            },
            None => Err(PropertyError::MissingProperty(prop.to_owned())),
        }
    }

    /// Read the byte sequence at `prop` from an array of numbers alone.
    pub fn get_vec_u8_from_number_array(&self, prop: &str) -> (r: Result<Vec<u8>, PropertyError>)
        ensures
            match r {
                Ok(bytes) => self.spec_present(prop@) && (self@[prop@]
                    matches DynamicValue::Array(a) && all_numbers(a@) && bytes@ == bytes_of_numbers(
                    a@,
                )),
                Err(e) => {
                    ||| (!self.spec_present(prop@) && (e matches PropertyError::MissingProperty(n)
                        && n@ == prop@))
                    ||| (self.spec_present(prop@) && !(self@[prop@] is Array) && (
                    e matches PropertyError::TypeMismatch(n, expected, actual) && n@ == prop@
                        && expected == ValueKind::Array && actual == self@[prop@].kind_spec()))
                    ||| (self.spec_present(prop@) && (self@[prop@] matches DynamicValue::Array(a)
                        && !all_numbers(a@)) && (e matches PropertyError::CoercionFailed(n, _)
                        && n@ == prop@))
                },
            },
    {
        match self.lookup(prop) {
            Some(v) => match v {
                DynamicValue::Array(a) => match bytes_from_numbers(a) {
                    Some(bytes) => Ok(bytes),
                    None => Err(
                        PropertyError::CoercionFailed(
                            prop.to_owned(),
                            "array element is not of number kind".to_owned(),
                        ),
                    ),
                },
                DynamicValue::Undefined => Err(PropertyError::MissingProperty(prop.to_owned())),
                other => Err(
                    PropertyError::TypeMismatch(prop.to_owned(), ValueKind::Array, other.kind()),
                ),
            },
            None => Err(PropertyError::MissingProperty(prop.to_owned())),
        }
    }
}

} // verus!
