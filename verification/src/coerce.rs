//! Coercion of dynamic values into typed ones, and the generic accessors
//! built on it.

use vstd::prelude::*;

use crate::error::PropertyError;
use crate::object::slot_present;
use crate::object::DynamicObject;
use crate::value::clamp_u16;
use crate::value::clamp_u32;
use crate::value::clamp_u64;
use crate::value::clamp_u8;
use crate::value::DynamicValue;

verus! {

/// A type a dynamic value can be coerced into, with the dynamic form its
/// values are stored as.
///
/// Each implementation fixes one coercion rule: `coercible` says which
/// values the rule accepts, `coerced` what they produce, and `embed` the
/// dynamic form a typed value takes on its way into the store.
pub trait FromDynamic: Sized {
    /// Whether `v` can produce a value of this type.
    spec fn coercible(v: DynamicValue) -> bool;

    /// The value `v` produces when it can.
    spec fn coerced(v: DynamicValue) -> Self;

    /// The dynamic form `x` is stored as.
    spec fn embed(x: Self) -> DynamicValue;

    /// Whether `embed` represents `x` faithfully. It fails to only where
    /// the number kind's width forces it to approximate.
    spec fn embeddable(x: Self) -> bool;

    /// Coerce `v`, or report a conversion diagnostic.
    fn from_dynamic(v: &DynamicValue) -> (r: Result<Self, String>)
        ensures
            Self::coercible(*v) <==> r is Ok,
            r matches Ok(x) ==> x == Self::coerced(*v),
    ;

    /// Build the dynamic form of `self`.
    fn to_dynamic(self) -> (r: DynamicValue)
        ensures
            r == Self::embed(self),
    ;

    /// Law: coercion inverts embedding. A faithfully embeddable value
    /// stored in its dynamic form is coercible and coerces back to exactly
    /// itself, and the embedded form is never the undefined sentinel.
    proof fn lemma_embed_round_trip(x: Self)
        requires
            Self::embeddable(x),
        ensures
            Self::coercible(Self::embed(x)),
            Self::coerced(Self::embed(x)) == x,
            !(Self::embed(x) is Undefined),
    ;
}

impl FromDynamic for bool {
    open spec fn coercible(v: DynamicValue) -> bool {
        v is Bool
    }

    open spec fn coerced(v: DynamicValue) -> bool {
        v->Bool_0
    }

    open spec fn embed(x: bool) -> DynamicValue {
        DynamicValue::Bool(x)
    }

    open spec fn embeddable(x: bool) -> bool {
        true
    }

    fn from_dynamic(v: &DynamicValue) -> (r: Result<bool, String>) {
        match v {
            DynamicValue::Bool(b) => Ok(*b),
            _ => Err("value is not of boolean kind".to_owned()),
        }
    }

    fn to_dynamic(self) -> (r: DynamicValue) {
        DynamicValue::Bool(self)
    }

    proof fn lemma_embed_round_trip(x: bool) {
    }
}

impl FromDynamic for String {
    open spec fn coercible(v: DynamicValue) -> bool {
        v is Str
    }

    open spec fn coerced(v: DynamicValue) -> String {
        v->Str_0
    }

    open spec fn embed(x: String) -> DynamicValue {
        DynamicValue::Str(x)
    }

    open spec fn embeddable(x: String) -> bool {
        true
    }

    fn from_dynamic(v: &DynamicValue) -> (r: Result<String, String>) {
        match v {
            DynamicValue::Str(s) => Ok(s.clone()),
            _ => Err("value is not of string kind".to_owned()),
        }
    }

    fn to_dynamic(self) -> (r: DynamicValue) {
        DynamicValue::Str(self)
    }

    proof fn lemma_embed_round_trip(x: String) {
    }
}

impl FromDynamic for i64 {
    open spec fn coercible(v: DynamicValue) -> bool {
        v is Number
    }

    open spec fn coerced(v: DynamicValue) -> i64 {
        v->Number_0
    }

    open spec fn embed(x: i64) -> DynamicValue {
        DynamicValue::Number(x)
    }

    open spec fn embeddable(x: i64) -> bool {
        true
    }

    fn from_dynamic(v: &DynamicValue) -> (r: Result<i64, String>) {
        match v {
            DynamicValue::Number(n) => Ok(*n),
            _ => Err("value is not of number kind".to_owned()),
        }
    }

    fn to_dynamic(self) -> (r: DynamicValue) {
        DynamicValue::Number(self)
    }

    proof fn lemma_embed_round_trip(x: i64) {
    }
}

impl FromDynamic for u8 {
    open spec fn coercible(v: DynamicValue) -> bool {
        v is Number
    }

    open spec fn coerced(v: DynamicValue) -> u8 {
        clamp_u8(v->Number_0 as int)
    }

    open spec fn embed(x: u8) -> DynamicValue {
        DynamicValue::Number(x as i64)
    }

    open spec fn embeddable(x: u8) -> bool {
        true
    }

    fn from_dynamic(v: &DynamicValue) -> (r: Result<u8, String>) {
        match v {
            DynamicValue::Number(n) => {
                let n = *n;
                Ok(
                    if n < 0 {
                        0
                    } else if n > 0xff {
                        0xff
                    } else {
                        n as u8
                    },
                )
            },
            _ => Err("value is not of number kind".to_owned()),
        }
    }

    fn to_dynamic(self) -> (r: DynamicValue) {
        DynamicValue::Number(self as i64)
    }

    proof fn lemma_embed_round_trip(x: u8) {
    }
}

impl FromDynamic for u16 {
    open spec fn coercible(v: DynamicValue) -> bool {
        v is Number
    }

    open spec fn coerced(v: DynamicValue) -> u16 {
        clamp_u16(v->Number_0 as int)
    }

    open spec fn embed(x: u16) -> DynamicValue {
        DynamicValue::Number(x as i64)
    }

    open spec fn embeddable(x: u16) -> bool {
        true
    }

    fn from_dynamic(v: &DynamicValue) -> (r: Result<u16, String>) {
        match v {
            DynamicValue::Number(n) => {
                let n = *n;
                Ok(
                    if n < 0 {
                        0
                    } else if n > 0xffff {
                        0xffff
                    } else {
                        n as u16
                    },
                )
            },
            _ => Err("value is not of number kind".to_owned()),
        }
    }

    fn to_dynamic(self) -> (r: DynamicValue) {
        DynamicValue::Number(self as i64)
    }

    proof fn lemma_embed_round_trip(x: u16) {
    }
}

impl FromDynamic for u32 {
    open spec fn coercible(v: DynamicValue) -> bool {
        v is Number
    }

    open spec fn coerced(v: DynamicValue) -> u32 {
        clamp_u32(v->Number_0 as int)
    }

    open spec fn embed(x: u32) -> DynamicValue {
        DynamicValue::Number(x as i64)
    }

    open spec fn embeddable(x: u32) -> bool {
        true
    }

    fn from_dynamic(v: &DynamicValue) -> (r: Result<u32, String>) {
        match v {
            DynamicValue::Number(n) => {
                let n = *n;
                Ok(
                    if n < 0 {
                        0
                    } else if n > 0xffff_ffff {
                        0xffff_ffff
                    } else {
                        n as u32
                    },
                )
            },
            _ => Err("value is not of number kind".to_owned()),
        }
    }

    fn to_dynamic(self) -> (r: DynamicValue) {
        DynamicValue::Number(self as i64)
    }

    proof fn lemma_embed_round_trip(x: u32) {
    }
}

impl FromDynamic for u64 {
    open spec fn coercible(v: DynamicValue) -> bool {
        v is Number
    }

    open spec fn coerced(v: DynamicValue) -> u64 {
        clamp_u64(v->Number_0 as int)
    }

    open spec fn embed(x: u64) -> DynamicValue {
        if x > 0x7fff_ffff_ffff_ffff {
            DynamicValue::Number(0x7fff_ffff_ffff_ffff)
        } else {
            DynamicValue::Number(x as i64)
        }
    }

    open spec fn embeddable(x: u64) -> bool {
        x <= 0x7fff_ffff_ffff_ffff
    }

    fn from_dynamic(v: &DynamicValue) -> (r: Result<u64, String>) {
        match v {
            DynamicValue::Number(n) => {
                let n = *n;
                Ok(
                    if n < 0 {
                        0
                    } else {
                        n as u64
                    },
                )
            },
            _ => Err("value is not of number kind".to_owned()),
        }
    }

    fn to_dynamic(self) -> (r: DynamicValue) {
        if self > 0x7fff_ffff_ffff_ffff {
            DynamicValue::Number(0x7fff_ffff_ffff_ffff)
        } else {
            DynamicValue::Number(self as i64)
        }
    }

    proof fn lemma_embed_round_trip(x: u64) {
    }
}

/// Law: for every supported kind, writing a value's dynamic form and then
/// reading that slot back through the same kind's coercion yields exactly
/// the value written (the set followed by get round trip).
pub proof fn lemma_set_get_round_trip<T: FromDynamic>(
    m: Map<Seq<char>, DynamicValue>,
    key: Seq<char>,
    x: T,
)
    requires
        T::embeddable(x),
    ensures
        ({
            let stored = m.insert(key, T::embed(x));
            &&& slot_present(stored, key)
            &&& T::coercible(stored[key])
            &&& T::coerced(stored[key]) == x
        }),
{
    T::lemma_embed_round_trip(x);
}

impl DynamicObject {
    /// Read the value at `prop` coerced into `T`.
    ///
    /// An absent slot (or one holding the undefined sentinel) fails with
    /// [`PropertyError::MissingProperty`]; a present value the kind's rule
    /// does not accept fails with [`PropertyError::CoercionFailed`]
    /// carrying the conversion diagnostic.
    pub fn get<T: FromDynamic>(&self, prop: &str) -> (r: Result<T, PropertyError>)
        ensures
            match r {
                Ok(x) => self.spec_present(prop@) && T::coercible(self@[prop@]) && x == T::coerced(
                    self@[prop@],
                ),
                Err(e) => {
                    ||| (!self.spec_present(prop@) && (e matches PropertyError::MissingProperty(n)
                        && n@ == prop@))
                    ||| (self.spec_present(prop@) && !T::coercible(self@[prop@]) && (
                    e matches PropertyError::CoercionFailed(n, _) && n@ == prop@))
                },
            },
    {
        match self.lookup(prop) {
            Some(v) => match v {
                DynamicValue::Undefined => Err(PropertyError::MissingProperty(prop.to_owned())),
                other => match T::from_dynamic(other) {
                    Ok(x) => Ok(x),
                    Err(detail) => Err(PropertyError::CoercionFailed(prop.to_owned(), detail)),
                },
            },
            None => Err(PropertyError::MissingProperty(prop.to_owned())),
        }
    }

    /// Read the value at `prop` coerced into `T`, or `None` when the slot
    /// is absent (or holds the undefined sentinel).
    ///
    /// Only a conversion failure on a present value is an error.
    pub fn try_get<T: FromDynamic>(&self, prop: &str) -> (r: Result<Option<T>, PropertyError>)
        ensures
            match r {
                Ok(Some(x)) => self.spec_present(prop@) && T::coercible(self@[prop@]) && x
                    == T::coerced(self@[prop@]),
                Ok(None) => !self.spec_present(prop@),
                Err(e) => self.spec_present(prop@) && !T::coercible(self@[prop@]) && (
                e matches PropertyError::CoercionFailed(n, _) && n@ == prop@),
            },
    {
        match self.lookup(prop) {
            Some(v) => match v {
                DynamicValue::Undefined => Ok(None),
                other => match T::from_dynamic(other) {
                    Ok(x) => Ok(Some(x)),
                    Err(detail) => Err(PropertyError::CoercionFailed(prop.to_owned(), detail)),
                },
            },
            None => Ok(None),
        }
    }
}

} // verus!
