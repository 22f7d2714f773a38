use mecp::jsonval::{Json, JsonField, JsonNum};
use mecp::shape::{StructuralType, FieldDecl, CaseDecl};
use mecp::value::ComponentValue;
use mecp::marshal::{to_component, to_json};

fn jstr(s: &str) -> Json {
    Json::Str(s.to_string())
}

fn jint(i: i64) -> Json {
    Json::Num(JsonNum::Int(i))
}

fn jobj(fields: Vec<(&str, Json)>) -> Json {
    let mut out = Vec::new();
    for (name, value) in fields {
        out.push(JsonField { name: name.to_string(), value });
    }
    Json::Obj(out)
}

fn json_eq(a: &Json, b: &Json) -> bool {
    match (a, b) {
        (Json::Null, Json::Null) => true,
        (Json::Bool(x), Json::Bool(y)) => x == y,
        (Json::Num(x), Json::Num(y)) => x == y,
        (Json::Str(x), Json::Str(y)) => x == y,
        (Json::Arr(x), Json::Arr(y)) => {
            x.len() == y.len() && x.iter().zip(y.iter()).all(|(u, v)| json_eq(u, v))
        }
        (Json::Obj(x), Json::Obj(y)) => {
            x.len() == y.len()
                && x.iter()
                    .zip(y.iter())
                    .all(|(u, v)| u.name == v.name && json_eq(&u.value, &v.value))
        }
        _ => false,
    }
}

#[test]
fn bool_accepts_native_numeric_and_words() {
    assert!(matches!(to_component(&Json::Bool(true), &StructuralType::Bool), Ok(ComponentValue::Bool(true))));
    assert!(matches!(to_component(&jint(1), &StructuralType::Bool), Ok(ComponentValue::Bool(true))));
    assert!(matches!(to_component(&jint(0), &StructuralType::Bool), Ok(ComponentValue::Bool(false))));
    assert!(matches!(to_component(&jstr("TRUE"), &StructuralType::Bool), Ok(ComponentValue::Bool(true))));
    assert!(matches!(to_component(&jstr("no"), &StructuralType::Bool), Ok(ComponentValue::Bool(false))));
    assert!(matches!(to_component(&jstr(""), &StructuralType::Bool), Ok(ComponentValue::Bool(false))));
    assert!(to_component(&jstr("maybe"), &StructuralType::Bool).is_err());
}

#[test]
fn integers_are_range_checked() {
    assert!(matches!(to_component(&jint(255), &StructuralType::U8), Ok(ComponentValue::U8(255))));
    assert!(to_component(&jint(256), &StructuralType::U8).is_err());
    assert!(to_component(&jint(-1), &StructuralType::U8).is_err());
    assert!(matches!(to_component(&jint(-128), &StructuralType::S8), Ok(ComponentValue::S8(-128))));
    assert!(to_component(&jint(128), &StructuralType::S8).is_err());
}

#[test]
fn numeric_strings_parse_for_integers() {
    assert!(matches!(to_component(&jstr("42"), &StructuralType::U32), Ok(ComponentValue::U32(42))));
    assert!(matches!(to_component(&jstr("-7"), &StructuralType::S16), Ok(ComponentValue::S16(-7))));
    assert!(matches!(to_component(&jstr("+9"), &StructuralType::U64), Ok(ComponentValue::U64(9))));
    assert!(to_component(&jstr("4x"), &StructuralType::U32).is_err());
    assert!(to_component(&jstr("18446744073709551616"), &StructuralType::U64).is_err());
}

#[test]
fn char_takes_first_character_and_rejects_empty() {
    assert!(matches!(to_component(&jstr("abc"), &StructuralType::Char), Ok(ComponentValue::Char('a'))));
    assert!(to_component(&jstr(""), &StructuralType::Char).is_err());
    assert!(to_component(&jint(3), &StructuralType::Char).is_err());
}

#[test]
fn strings_stringify_loose_values() {
    match to_component(&jint(-12), &StructuralType::Text) {
        Ok(ComponentValue::Text(s)) => assert_eq!(s, "-12"),
        other => panic!("unexpected: {:?}", other),
    }
    match to_component(&Json::Bool(true), &StructuralType::Text) {
        Ok(ComponentValue::Text(s)) => assert_eq!(s, "true"),
        other => panic!("unexpected: {:?}", other),
    }
    match to_component(&Json::Null, &StructuralType::Text) {
        Ok(ComponentValue::Text(s)) => assert_eq!(s, ""),
        other => panic!("unexpected: {:?}", other),
    }
}

#[test]
fn option_reads_null_and_empty_string_as_none() {
    let t = StructuralType::OptionOf(Box::new(StructuralType::U8));
    assert!(matches!(to_component(&Json::Null, &t), Ok(ComponentValue::OptionVal(None))));
    let ts = StructuralType::OptionOf(Box::new(StructuralType::Text));
    assert!(matches!(to_component(&jstr(""), &ts), Ok(ComponentValue::OptionVal(None))));
    match to_component(&jint(7), &t) {
        Ok(ComponentValue::OptionVal(Some(inner))) => {
            assert!(matches!(*inner, ComponentValue::U8(7)))
        }
        other => panic!("unexpected: {:?}", other),
    }
}

#[test]
fn result_reads_ok_err_keys_and_implicit_ok() {
    let t = StructuralType::ResultOf(
        Some(Box::new(StructuralType::U8)),
        Some(Box::new(StructuralType::Text)),
    );
    match to_component(&jobj(vec![("ok", jint(3))]), &t) {
        Ok(ComponentValue::ResultVal(Ok(Some(inner)))) => {
            assert!(matches!(*inner, ComponentValue::U8(3)))
        }
        other => panic!("unexpected: {:?}", other),
    }
    match to_component(&jobj(vec![("err", jstr("boom"))]), &t) {
        Ok(ComponentValue::ResultVal(Err(Some(inner)))) => match *inner {
            ComponentValue::Text(ref s) => assert_eq!(s, "boom"),
            ref other => panic!("unexpected: {:?}", other),
        },
        other => panic!("unexpected: {:?}", other),
    }
    match to_component(&jint(9), &t) {
        Ok(ComponentValue::ResultVal(Ok(Some(inner)))) => {
            assert!(matches!(*inner, ComponentValue::U8(9)))
        }
        other => panic!("unexpected: {:?}", other),
    }
}

#[test]
fn list_and_tuple_require_arrays() {
    let lt = StructuralType::ListOf(Box::new(StructuralType::U8));
    match to_component(&Json::Arr(vec![jint(1), jint(2)]), &lt) {
        Ok(ComponentValue::List(items)) => assert_eq!(items.len(), 2),
        other => panic!("unexpected: {:?}", other),
    }
    assert!(to_component(&jint(1), &lt).is_err());
    let tt = StructuralType::TupleOf(vec![StructuralType::U8, StructuralType::Text]);
    assert!(to_component(&Json::Arr(vec![jint(1)]), &tt).is_err());
    assert!(to_component(&Json::Arr(vec![jint(1), jstr("x")]), &tt).is_ok());
}

#[test]
fn record_requires_every_field_and_ignores_extras() {
    let rt = StructuralType::Record(vec![
        FieldDecl { name: "x".to_string(), shape: StructuralType::U8 },
        FieldDecl { name: "y".to_string(), shape: StructuralType::Text },
    ]);
    let ok = jobj(vec![("x", jint(1)), ("y", jstr("hi")), ("extra", jint(9))]);
    assert!(to_component(&ok, &rt).is_ok());
    let missing = jobj(vec![("x", jint(1))]);
    let err = to_component(&missing, &rt).unwrap_err();
    assert!(err.message.contains("y"));
}

#[test]
fn variant_reads_object_and_bare_string() {
    let vt = StructuralType::Variant(vec![
        CaseDecl { name: "some-case".to_string(), payload: Some(Box::new(StructuralType::U8)) },
        CaseDecl { name: "bare".to_string(), payload: None },
    ]);
    match to_component(&jobj(vec![("some-case", jint(4))]), &vt) {
        Ok(ComponentValue::Variant(name, Some(_))) => assert_eq!(name, "some-case"),
        other => panic!("unexpected: {:?}", other),
    }
    match to_component(&jstr("bare"), &vt) {
        Ok(ComponentValue::Variant(name, None)) => assert_eq!(name, "bare"),
        other => panic!("unexpected: {:?}", other),
    }
    let err = to_component(&jstr("nope"), &vt).unwrap_err();
    assert!(err.message.contains("nope"));
}

#[test]
fn enum_matches_exactly() {
    let et = StructuralType::Enum(vec!["red".to_string(), "green".to_string()]);
    assert!(matches!(to_component(&jstr("red"), &et), Ok(ComponentValue::Enum(_))));
    assert!(to_component(&jstr("RED"), &et).is_err());
}

#[test]
fn flags_accept_arrays_and_comma_strings() {
    let ft = StructuralType::Flags(vec!["a".to_string(), "b".to_string()]);
    match to_component(&Json::Arr(vec![jstr("a"), jstr("b")]), &ft) {
        Ok(ComponentValue::Flags(names)) => assert_eq!(names, vec!["a", "b"]),
        other => panic!("unexpected: {:?}", other),
    }
    match to_component(&jstr(" a , b "), &ft) {
        Ok(ComponentValue::Flags(names)) => assert_eq!(names, vec!["a", "b"]),
        other => panic!("unexpected: {:?}", other),
    }
    let err = to_component(&jstr("a,c"), &ft).unwrap_err();
    assert!(err.message.contains("c"));
}

#[test]
fn resource_is_a_defined_failure() {
    assert!(to_component(&jint(1), &StructuralType::Resource).is_err());
    assert!(to_component(&Json::Null, &StructuralType::Resource).is_err());
}

#[test]
fn floats_pass_bits_through_exactly() {
    let bits = (2.5f64).to_bits();
    let v = Json::Num(JsonNum::FloatBits(bits));
    match to_component(&v, &StructuralType::Float64) {
        Ok(ComponentValue::Float64(b)) => assert_eq!(b, bits),
        other => panic!("unexpected: {:?}", other),
    }
    match to_component(&v, &StructuralType::Float32) {
        Ok(ComponentValue::Float32(b32)) => assert_eq!(b32, (2.5f32).to_bits()),
        other => panic!("unexpected: {:?}", other),
    }
    let inexact = Json::Num(JsonNum::FloatBits((0.1f64).to_bits()));
    assert!(to_component(&inexact, &StructuralType::Float32).is_err());
    match to_component(&jint(3), &StructuralType::Float64) {
        Ok(ComponentValue::Float64(b)) => assert_eq!(b, (3.0f64).to_bits()),
        other => panic!("unexpected: {:?}", other),
    }
}

#[test]
fn to_json_inverts_canonical_values() {
    let rt = StructuralType::Record(vec![
        FieldDecl { name: "x".to_string(), shape: StructuralType::U8 },
        FieldDecl {
            name: "items".to_string(),
            shape: StructuralType::ListOf(Box::new(StructuralType::Text)),
        },
    ]);
    let v = jobj(vec![
        ("x", jint(7)),
        ("items", Json::Arr(vec![jstr("a"), jstr("b")])),
    ]);
    let cv = to_component(&v, &rt).unwrap();
    let back = to_json(&cv);
    assert!(json_eq(&back, &v));
}

#[test]
fn to_json_normalizes_coerced_values() {
    let cv = to_component(&jstr("2"), &StructuralType::U32).unwrap();
    let back = to_json(&cv);
    assert!(json_eq(&back, &jint(2)));
}

#[test]
fn to_json_writes_variant_and_result_shapes() {
    let back = to_json(&ComponentValue::Variant("tag".to_string(), None));
    assert!(json_eq(&back, &jstr("tag")));
    let res = ComponentValue::ResultVal(Err(None));
    let back2 = to_json(&res);
    assert!(json_eq(&back2, &jobj(vec![("err", Json::Null)])));
    let back3 = to_json(&ComponentValue::OptionVal(None));
    assert!(json_eq(&back3, &Json::Null));
}

#[test]
fn to_json_renames_kebab_record_fields() {
    let cv = ComponentValue::Record(vec![mecp::value::NamedVal {
        name: "kebab-name".to_string(),
        value: ComponentValue::U8(1),
    }]);
    let back = to_json(&cv);
    assert!(json_eq(&back, &jobj(vec![("kebab_name", jint(1))])));
}

#[test]
fn to_json_marks_resources_opaque() {
    let back = to_json(&ComponentValue::Resource);
    assert!(json_eq(&back, &jobj(vec![("resource", jstr("opaque"))])));
}

#[test]
fn nonfinite_floats_read_back_null() {
    let back = to_json(&ComponentValue::Float64(f64::NAN.to_bits()));
    assert!(json_eq(&back, &Json::Null));
    let fin = to_json(&ComponentValue::Float32((1.5f32).to_bits()));
    assert!(json_eq(&fin, &Json::Num(JsonNum::FloatBits((1.5f64).to_bits()))));
}

#[test]
fn bool_numbers_read_through_signed_range() {
    assert!(matches!(to_component(&jint(7), &StructuralType::Bool), Ok(ComponentValue::Bool(true))));
    assert!(matches!(to_component(&jint(-3), &StructuralType::Bool), Ok(ComponentValue::Bool(true))));
    let huge = Json::Num(JsonNum::UInt(u64::MAX));
    assert!(matches!(to_component(&huge, &StructuralType::Bool), Ok(ComponentValue::Bool(false))));
    let frac = Json::Num(JsonNum::FloatBits((1.5f64).to_bits()));
    assert!(matches!(to_component(&frac, &StructuralType::Bool), Ok(ComponentValue::Bool(false))));
}

#[test]
fn bare_variant_string_needs_payloadless_case() {
    let vt = StructuralType::Variant(vec![
        CaseDecl { name: "loaded".to_string(), payload: Some(Box::new(StructuralType::U8)) },
        CaseDecl { name: "empty".to_string(), payload: None },
    ]);
    assert!(matches!(
        to_component(&jstr("empty"), &vt),
        Ok(ComponentValue::Variant(_, None))
    ));
    let err = to_component(&jstr("loaded"), &vt).unwrap_err();
    assert!(err.message.contains("loaded"));
}

#[test]
fn err_results_round_trip_through_err_key() {
    let t = StructuralType::ResultOf(
        Some(Box::new(StructuralType::U8)),
        Some(Box::new(StructuralType::Text)),
    );
    let v = jobj(vec![("err", jstr("boom"))]);
    let cv = to_component(&v, &t).unwrap();
    let back = to_json(&cv);
    assert!(json_eq(&back, &v));
    let carried = to_json(&ComponentValue::ResultVal(Err(Some(Box::new(
        ComponentValue::U8(4),
    )))));
    assert!(json_eq(&carried, &jobj(vec![("err", jint(4))])));
}
