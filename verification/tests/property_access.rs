//! Scenario tests for the typed property accessors.

use dynprop::coerce::FromDynamic;
use dynprop::DynamicObject;
use dynprop::DynamicValue;
use dynprop::PropertyError;
use dynprop::ValueKind;

#[test]
fn round_trip_bool() {
    let mut obj = DynamicObject::new();
    assert_eq!(obj.set("p", DynamicValue::Bool(true)), Ok(true));
    assert_eq!(obj.get::<bool>("p"), Ok(true));
    assert_eq!(obj.get_bool("p"), Ok(true));
    assert_eq!(obj.set("p", DynamicValue::Bool(false)), Ok(false));
    assert_eq!(obj.get::<bool>("p"), Ok(false));
}

#[test]
fn round_trip_string() {
    let mut obj = DynamicObject::new();
    let v = String::from("hello");
    assert_eq!(obj.set("p", v.to_dynamic()), Ok(true));
    assert_eq!(obj.get::<String>("p"), Ok(String::from("hello")));
    assert_eq!(obj.get_string("p"), Ok(String::from("hello")));
}

#[test]
fn round_trip_numbers() {
    let mut obj = DynamicObject::new();
    assert_eq!(obj.set("a", 7u8.to_dynamic()), Ok(true));
    assert_eq!(obj.get::<u8>("a"), Ok(7));
    assert_eq!(obj.set("b", 40_000u16.to_dynamic()), Ok(true));
    assert_eq!(obj.get::<u16>("b"), Ok(40_000));
    assert_eq!(obj.set("c", 3_000_000_000u32.to_dynamic()), Ok(true));
    assert_eq!(obj.get::<u32>("c"), Ok(3_000_000_000));
    assert_eq!(obj.set("d", 5_000_000_000u64.to_dynamic()), Ok(true));
    assert_eq!(obj.get::<u64>("d"), Ok(5_000_000_000));
    assert_eq!(obj.set("e", (-12i64).to_dynamic()), Ok(true));
    assert_eq!(obj.get::<i64>("e"), Ok(-12));
    assert_eq!(obj.get_u64("d"), Ok(5_000_000_000));
    assert_eq!(obj.get_u32("c"), Ok(3_000_000_000));
    assert_eq!(obj.get_u16("b"), Ok(40_000));
    assert_eq!(obj.get_u8("a"), Ok(7));
}

#[test]
fn missing_property_every_typed_getter() {
    let obj = DynamicObject::new();
    let missing = || PropertyError::MissingProperty(String::from("missing"));
    assert_eq!(obj.get::<bool>("missing"), Err(missing()));
    assert_eq!(obj.get::<String>("missing"), Err(missing()));
    assert_eq!(obj.get::<i64>("missing"), Err(missing()));
    assert_eq!(obj.get_string("missing"), Err(missing()));
    assert_eq!(obj.get_bool("missing"), Err(missing()));
    assert_eq!(obj.get_u8("missing"), Err(missing()));
    assert_eq!(obj.get_u16("missing"), Err(missing()));
    assert_eq!(obj.get_u32("missing"), Err(missing()));
    assert_eq!(obj.get_u64("missing"), Err(missing()));
    assert_eq!(obj.get_vec("missing"), Err(missing()));
    assert_eq!(obj.get_vec_u8("missing"), Err(missing()));
    assert_eq!(obj.get_vec_u8_from_number_array("missing"), Err(missing()));
    assert_eq!(obj.get_object("missing"), Err(missing()));
    assert_eq!(obj.get_value("missing"), Err(missing()));
}

#[test]
fn try_get_absent_and_present() {
    let mut obj = DynamicObject::new();
    assert_eq!(obj.try_get::<i64>("missing"), Ok(None));
    assert_eq!(obj.try_get_value("missing"), Ok(None));
    assert_eq!(obj.try_get_string("missing"), Ok(None));
    assert_eq!(obj.try_get_bool("missing"), Ok(None));
    assert_eq!(obj.try_get_object("missing"), Ok(None));
    assert_eq!(obj.set("p", DynamicValue::Number(41)), Ok(true));
    assert_eq!(obj.try_get::<i64>("p"), Ok(Some(41)));
    assert_eq!(
        obj.try_get_value("p"),
        Ok(Some(&DynamicValue::Number(41)))
    );
}

#[test]
fn vec_u8_hex_and_array_agree() {
    let mut obj = DynamicObject::new();
    assert_eq!(
        obj.set("hex", DynamicValue::Str(String::from("0a1b"))),
        Ok(true)
    );
    assert_eq!(
        obj.set(
            "arr",
            DynamicValue::Array(vec![DynamicValue::Number(10), DynamicValue::Number(27)])
        ),
        Ok(true)
    );
    assert_eq!(obj.get_vec_u8("hex"), Ok(vec![0x0a, 0x1b]));
    assert_eq!(obj.get_vec_u8("arr"), Ok(vec![0x0a, 0x1b]));
    assert_eq!(obj.get_vec_u8("hex"), obj.get_vec_u8("arr"));
}

#[test]
fn vec_u8_hex_edge_cases() {
    let mut obj = DynamicObject::new();
    assert_eq!(obj.set("empty", DynamicValue::Str(String::new())), Ok(true));
    assert_eq!(obj.get_vec_u8("empty"), Ok(Vec::new()));
    assert_eq!(
        obj.set("upper", DynamicValue::Str(String::from("FF00"))),
        Ok(true)
    );
    assert_eq!(obj.get_vec_u8("upper"), Ok(vec![0xff, 0x00]));
    assert_eq!(
        obj.set("odd", DynamicValue::Str(String::from("abc"))),
        Ok(true)
    );
    assert!(matches!(
        obj.get_vec_u8("odd"),
        Err(PropertyError::CoercionFailed(n, _)) if n == "odd"
    ));
    assert_eq!(
        obj.set("bad", DynamicValue::Str(String::from("zz"))),
        Ok(true)
    );
    assert!(matches!(
        obj.get_vec_u8("bad"),
        Err(PropertyError::CoercionFailed(_, _))
    ));
    assert_eq!(obj.set("neither", DynamicValue::Bool(true)), Ok(true));
    assert!(matches!(
        obj.get_vec_u8("neither"),
        Err(PropertyError::CoercionFailed(_, _))
    ));
}

#[test]
fn vec_u8_from_number_array_only() {
    let mut obj = DynamicObject::new();
    assert_eq!(
        obj.set(
            "arr",
            DynamicValue::Array(vec![
                DynamicValue::Number(1),
                DynamicValue::Number(300),
                DynamicValue::Number(-4),
            ])
        ),
        Ok(true)
    );
    // out-of-range elements saturate at the nearest bound of a byte
    assert_eq!(obj.get_vec_u8_from_number_array("arr"), Ok(vec![1, 255, 0]));
    assert_eq!(
        obj.set("str", DynamicValue::Str(String::from("0a1b"))),
        Ok(true)
    );
    assert_eq!(
        obj.get_vec_u8_from_number_array("str"),
        Err(PropertyError::TypeMismatch(
            String::from("str"),
            ValueKind::Array,
            ValueKind::Str
        ))
    );
    assert_eq!(
        obj.set(
            "mixed",
            DynamicValue::Array(vec![DynamicValue::Number(1), DynamicValue::Bool(false)])
        ),
        Ok(true)
    );
    assert!(matches!(
        obj.get_vec_u8_from_number_array("mixed"),
        Err(PropertyError::CoercionFailed(_, _))
    ));
}

#[test]
fn delete_removes_slot() {
    let mut obj = DynamicObject::new();
    assert_eq!(obj.set("p", DynamicValue::Number(5)), Ok(true));
    assert_eq!(obj.delete("p"), Ok(true));
    assert_eq!(
        obj.get_value("p"),
        Err(PropertyError::MissingProperty(String::from("p")))
    );
    assert_eq!(obj.delete("p"), Ok(false));
    assert_eq!(obj.delete("never-set"), Ok(false));
}

#[test]
fn set_properties_lands_every_slot() {
    let mut obj = DynamicObject::new();
    let props = vec![
        (String::from("a"), DynamicValue::Number(1)),
        (String::from("b"), DynamicValue::Bool(true)),
        (String::from("c"), DynamicValue::Str(String::from("x"))),
    ];
    assert_eq!(obj.set_properties(props), Ok(()));
    assert_eq!(obj.get::<i64>("a"), Ok(1));
    assert_eq!(obj.get::<bool>("b"), Ok(true));
    assert_eq!(obj.get::<String>("c"), Ok(String::from("x")));
}

#[test]
fn set_properties_later_pair_wins() {
    let mut obj = DynamicObject::new();
    let props = vec![
        (String::from("a"), DynamicValue::Number(1)),
        (String::from("a"), DynamicValue::Number(2)),
    ];
    assert_eq!(obj.set_properties(props), Ok(()));
    assert_eq!(obj.get::<i64>("a"), Ok(2));
}

#[test]
fn coercion_mismatch_is_an_error_not_a_default() {
    let mut obj = DynamicObject::new();
    assert_eq!(
        obj.set("p", DynamicValue::Str(String::from("true"))),
        Ok(true)
    );
    assert_eq!(
        obj.get_bool("p"),
        Err(PropertyError::TypeMismatch(
            String::from("p"),
            ValueKind::Bool,
            ValueKind::Str
        ))
    );
    assert!(matches!(
        obj.get::<bool>("p"),
        Err(PropertyError::CoercionFailed(n, _)) if n == "p"
    ));
    assert!(matches!(
        obj.try_get::<bool>("p"),
        Err(PropertyError::CoercionFailed(_, _))
    ));
    // a present wrong-kind value is a conversion failure even for the
    // try variant: only absence yields None
    assert_eq!(
        obj.try_get_bool("p"),
        Err(PropertyError::TypeMismatch(
            String::from("p"),
            ValueKind::Bool,
            ValueKind::Str
        ))
    );
    assert_eq!(obj.try_get_bool("not-there"), Ok(None));
}

#[test]
fn numeric_getters_saturate() {
    let mut obj = DynamicObject::new();
    assert_eq!(obj.set("big", DynamicValue::Number(300)), Ok(true));
    assert_eq!(obj.get_u8("big"), Ok(255));
    assert_eq!(obj.set("neg", DynamicValue::Number(-5)), Ok(true));
    assert_eq!(obj.get_u8("neg"), Ok(0));
    assert_eq!(obj.get_u16("neg"), Ok(0));
    assert_eq!(obj.get_u32("neg"), Ok(0));
    assert_eq!(obj.get_u64("neg"), Ok(0));
    assert_eq!(obj.set("wide", DynamicValue::Number(70_000)), Ok(true));
    assert_eq!(obj.get_u16("wide"), Ok(65_535));
    assert_eq!(obj.get_u8("wide"), Ok(255));
    assert_eq!(
        obj.set("wider", DynamicValue::Number(1 << 40)),
        Ok(true)
    );
    assert_eq!(obj.get_u32("wider"), Ok(u32::MAX));
    assert_eq!(obj.get_u64("wider"), Ok(1 << 40));
}

#[test]
fn numeric_getter_rejects_non_number() {
    let mut obj = DynamicObject::new();
    assert_eq!(
        obj.set("p", DynamicValue::Str(String::from("7"))),
        Ok(true)
    );
    assert!(matches!(
        obj.get_u32("p"),
        Err(PropertyError::CoercionFailed(n, _)) if n == "p"
    ));
}

#[test]
fn set_reports_new_versus_overwritten() {
    let mut obj = DynamicObject::new();
    assert_eq!(obj.set("p", DynamicValue::Number(1)), Ok(true));
    assert_eq!(obj.set("p", DynamicValue::Number(2)), Ok(false));
    assert_eq!(obj.get::<i64>("p"), Ok(2));
    assert_eq!(obj.delete("p"), Ok(true));
    assert_eq!(obj.set("p", DynamicValue::Number(3)), Ok(true));
}

#[test]
fn set_vec_stores_an_array() {
    let mut obj = DynamicObject::new();
    assert_eq!(
        obj.set_vec(
            "v",
            vec![DynamicValue::Number(1), DynamicValue::Str(String::from("two"))]
        ),
        Ok(true)
    );
    let got = obj.get_vec("v").unwrap();
    assert_eq!(got.len(), 2);
    assert_eq!(got[0], DynamicValue::Number(1));
    assert_eq!(got[1], DynamicValue::Str(String::from("two")));
}

#[test]
fn get_vec_requires_array_kind() {
    let mut obj = DynamicObject::new();
    assert_eq!(obj.set("p", DynamicValue::Number(1)), Ok(true));
    assert_eq!(
        obj.get_vec("p"),
        Err(PropertyError::TypeMismatch(
            String::from("p"),
            ValueKind::Array,
            ValueKind::Number
        ))
    );
}

#[test]
fn nested_object_access() {
    let mut inner = DynamicObject::new();
    assert_eq!(inner.set("x", DynamicValue::Number(9)), Ok(true));
    let mut obj = DynamicObject::new();
    assert_eq!(obj.set("child", DynamicValue::Object(inner)), Ok(true));
    let child = obj.get_object("child").unwrap();
    assert_eq!(child.get::<i64>("x"), Ok(9));
    assert!(matches!(obj.try_get_object("child"), Ok(Some(_))));
}

#[test]
fn get_object_conflates_missing_and_wrong_kind() {
    let mut obj = DynamicObject::new();
    assert_eq!(obj.set("p", DynamicValue::Number(1)), Ok(true));
    assert_eq!(
        obj.get_object("p"),
        Err(PropertyError::MissingProperty(String::from("p")))
    );
    assert_eq!(obj.try_get_object("p"), Ok(None));
}

#[test]
fn null_is_present_but_undefined_is_not() {
    let mut obj = DynamicObject::new();
    assert_eq!(obj.set("n", DynamicValue::Null), Ok(true));
    assert_eq!(obj.try_get_value("n"), Ok(Some(&DynamicValue::Null)));
    assert_eq!(
        obj.get_bool("n"),
        Err(PropertyError::TypeMismatch(
            String::from("n"),
            ValueKind::Bool,
            ValueKind::Null
        ))
    );
    assert_eq!(obj.set("u", DynamicValue::Undefined), Ok(true));
    assert_eq!(obj.try_get_value("u"), Ok(None));
    assert_eq!(
        obj.get_value("u"),
        Err(PropertyError::MissingProperty(String::from("u")))
    );
    // the undefined slot still exists in the store, so deleting it reports
    // that a property was removed
    assert_eq!(obj.delete("u"), Ok(true));
}

#[test]
fn handle_values_pass_through() {
    let mut obj = DynamicObject::new();
    assert_eq!(obj.set("h", DynamicValue::Handle(42)), Ok(true));
    assert_eq!(obj.get_value("h"), Ok(&DynamicValue::Handle(42)));
    assert!(matches!(
        obj.get::<u64>("h"),
        Err(PropertyError::CoercionFailed(_, _))
    ));
}

#[test]
fn string_getter_requires_string_kind() {
    let mut obj = DynamicObject::new();
    assert_eq!(obj.set("p", DynamicValue::Number(7)), Ok(true));
    assert_eq!(
        obj.get_string("p"),
        Err(PropertyError::TypeMismatch(
            String::from("p"),
            ValueKind::Str,
            ValueKind::Number
        ))
    );
    assert_eq!(
        obj.try_get_string("p"),
        Err(PropertyError::TypeMismatch(
            String::from("p"),
            ValueKind::Str,
            ValueKind::Number
        ))
    );
    assert_eq!(obj.try_get_string("not-there"), Ok(None));
}

#[test]
fn u64_embedding_saturates_at_number_width() {
    // a u64 beyond the number kind's width cannot be embedded faithfully:
    // its dynamic form saturates at the widest representable number
    assert_eq!(u64::MAX.to_dynamic(), DynamicValue::Number(i64::MAX));
    let mut obj = DynamicObject::new();
    assert_eq!(obj.set("p", u64::MAX.to_dynamic()), Ok(true));
    assert_eq!(obj.get::<u64>("p"), Ok(i64::MAX as u64));
    // within the width the round trip is exact
    assert_eq!(
        obj.set("q", (i64::MAX as u64).to_dynamic()),
        Ok(true)
    );
    assert_eq!(obj.get::<u64>("q"), Ok(i64::MAX as u64));
}

#[test]
fn i64_extremes_round_trip() {
    let mut obj = DynamicObject::new();
    assert_eq!(obj.set("min", i64::MIN.to_dynamic()), Ok(true));
    assert_eq!(obj.get::<i64>("min"), Ok(i64::MIN));
    assert_eq!(obj.set("max", i64::MAX.to_dynamic()), Ok(true));
    assert_eq!(obj.get::<i64>("max"), Ok(i64::MAX));
    assert_eq!(obj.get_u64("min"), Ok(0));
}

#[test]
fn failed_get_does_not_mutate() {
    let mut obj = DynamicObject::new();
    assert_eq!(obj.set("p", DynamicValue::Number(7)), Ok(true));
    let _ = obj.get_bool("p");
    let _ = obj.get_string("q");
    assert_eq!(obj.get::<i64>("p"), Ok(7));
    assert_eq!(obj.delete("q"), Ok(false));
}
