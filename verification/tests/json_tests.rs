use purp_value::json::parse_json;
use purp_value::{Array, DateTime, Number, Object, StringB, Value};

#[test]
fn scalars_render_their_canonical_text() {
    assert_eq!(Value::Null.to_json(), "null");
    assert_eq!(Value::Boolean(true).to_json(), "true");
    assert_eq!(Value::Boolean(false).to_json(), "false");
    assert_eq!(Value::from(-42i32).to_json(), "-42");
    assert_eq!(
        Value::String(StringB::from_str("hi")).to_json(),
        "\"hi\""
    );
}

#[test]
fn containers_render_compactly() {
    let mut obj = Object::default();
    obj.insert("a", Value::from(1));
    obj.insert("b", Value::Array(Array::from_vec(vec![Value::from(2), Value::Null])));
    let value = Value::Object(obj);
    assert_eq!(value.to_json(), r#"{"a":1,"b":[2,null]}"#);
}

#[test]
fn datetimes_render_quoted_iso_text() {
    let dt = Value::DateTime(DateTime::with_ymd_and_hms(2023, 4, 5, 6, 7, 8).unwrap());
    assert_eq!(dt.to_json(), "\"2023-04-05T06:07:08\"");
}

#[test]
fn render_distinguishes_undefined_from_null() {
    assert_eq!(Value::Null.render(), "null");
    assert_eq!(Value::Undefined.render(), "undefined");
    assert_eq!(Value::Boolean(true).render(), "true");
    assert_eq!(Value::from(7u8).render(), "7");
    assert_eq!(
        Value::DateTime(DateTime::from_ymd_opt(2023, 4, 5).unwrap()).render(),
        "2023-04-05"
    );
}

#[test]
fn parse_reads_scalars() {
    assert_eq!(parse_json("null"), Some(Value::Null));
    assert_eq!(parse_json(" true "), Some(Value::Boolean(true)));
    assert_eq!(parse_json("false"), Some(Value::Boolean(false)));
    assert_eq!(parse_json("42"), Some(Value::Number(Number::U64(42))));
    assert_eq!(parse_json("-7"), Some(Value::Number(Number::I64(-7))));
    assert_eq!(parse_json("\"hi\""), Some(Value::String(StringB::from_str("hi"))));
    assert_eq!(parse_json("3.5"), None);
    assert_eq!(parse_json("nope"), None);
    assert_eq!(parse_json("42 trailing"), None);
}

#[test]
fn parse_reads_containers() {
    let parsed = parse_json(r#"[1, "two", [true]]"#).unwrap();
    match &parsed {
        Value::Array(a) => {
            assert_eq!(a.len(), 3);
            assert_eq!(a.get(0), Some(&Value::from(1)));
            assert_eq!(a.get(1), Some(&Value::String(StringB::from_str("two"))));
        }
        other => panic!("expected an array, got {:?}", other),
    }

    let parsed = parse_json(r#"{"x": 1, "y": {"z": null}}"#).unwrap();
    assert_eq!(parsed.get("x"), Some(&Value::from(1)));
    match parsed.get("y") {
        Some(inner) => assert_eq!(inner.get("z"), Some(&Value::Null)),
        None => panic!("missing key"),
    }
}

// An object rendered to text and read back holds the same pairs.

#[test]
fn object_round_trips_through_text() {
    let mut obj = Object::default();
    obj.insert("a", Value::from(1));
    obj.insert("b", Value::from(2));
    let value = Value::Object(obj);

    let text = value.to_json();
    let back = parse_json(text.as_str()).unwrap();

    assert_eq!(back.len(), 2);
    assert_eq!(back.get("a"), Some(&Value::from(1)));
    assert_eq!(back.get("b"), Some(&Value::from(2)));
}

#[test]
fn ordered_object_round_trips_in_key_order() {
    let mut obj = Object::new_ordered();
    obj.insert("b", Value::from(2));
    obj.insert("a", Value::from(1));
    let value = Value::Object(obj);

    assert_eq!(value.to_json(), r#"{"a":1,"b":2}"#);

    let back = parse_json(value.to_json().as_str()).unwrap();
    assert_eq!(back.get("a"), Some(&Value::from(1)));
    assert_eq!(back.get("b"), Some(&Value::from(2)));
}

#[test]
fn nested_tree_round_trips() {
    let mut inner = Object::default();
    inner.insert("deep", Value::Boolean(false));
    let mut obj = Object::default();
    obj.insert("list", Value::Array(Array::from_vec(vec![
        Value::from(10),
        Value::String(StringB::from_str("s")),
    ])));
    obj.insert("inner", Value::Object(inner));
    let value = Value::Object(obj);

    let back = parse_json(value.to_json().as_str()).unwrap();
    match back.get("list") {
        Some(Value::Array(a)) => {
            assert_eq!(a.get(0), Some(&Value::from(10)));
        }
        other => panic!("expected an array, got {:?}", other),
    }
    match back.get("inner") {
        Some(inner_back) => {
            assert_eq!(inner_back.get("deep"), Some(&Value::Boolean(false)));
        }
        None => panic!("missing key"),
    }
}
