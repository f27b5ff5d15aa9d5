use purp_value::{Array, DateTime, Number, Object, StringB, Value};

// Construction and equality for each variant of `Value`.

#[test]
fn test_value_string() {
    let string = StringB::new("hello".to_string());
    let value = Value::String(string.clone());
    assert_eq!(value, Value::String(string));
}

#[test]
fn test_value_number() {
    let number = Number::from(42);
    let value = Value::Number(number);
    assert_eq!(value, Value::Number(Number::from(42)));
}

#[test]
fn test_value_boolean() {
    let value = Value::Boolean(true);
    assert_eq!(value, Value::Boolean(true));
}

#[test]
fn test_value_array() {
    let mut array = Array::new();
    array.push(Value::Number(Number::from(1)));
    array.push(Value::Number(Number::from(2)));
    let value = Value::Array(array.clone());
    assert_eq!(value, Value::Array(array));
}

#[test]
fn test_value_object() {
    let mut object = Object::default();
    object.insert("key", Value::String(StringB::new("value".to_string())));
    let value = Value::Object(object.clone());
    assert_eq!(value, Value::Object(object));
}

#[test]
fn test_value_null() {
    let value = Value::Null;
    assert_eq!(value, Value::Null);
}

#[test]
fn test_value_undefined() {
    let value = Value::Undefined;
    assert_eq!(value, Value::Undefined);
}

#[test]
fn test_value_datetime() {
    let datetime = DateTime::parse("2023-04-05T00:00:00Z").unwrap();
    let value = Value::DateTime(datetime.clone());
    assert_eq!(value, Value::DateTime(datetime));
}

// The delegating surface.

#[test]
fn test_value_number_behavior() {
    let value = Value::Number(Number::F64Bits(3.14f64.to_bits()));
    assert_eq!(value.get_f64_bits_unsafe(), 3.14f64.to_bits());
}

#[test]
fn test_value_object_behavior() {
    let mut object = Object::default();
    object.insert("1", Value::Number(Number::F64Bits(3.14f64.to_bits())));
    let mut value = Value::Object(object);
    value.insert("2", Value::Number(Number::F64Bits(4.13f64.to_bits())));

    let replacement = Value::Number(Number::F64Bits(1.43f64.to_bits()));
    assert!(value.set("1", replacement.clone()));

    assert_eq!(value.get("1").unwrap(), &replacement);
}

#[test]
fn test_value_array_behavior() {
    let mut value = Value::Array(Array::from_vec(vec![
        Value::from(1),
        Value::from(2),
        Value::from(3),
    ]));
    value.push(Value::from(4));

    let replacement = Value::Number(Number::F64Bits(1.43f64.to_bits()));
    assert!(value.set("1", replacement.clone()));

    assert_eq!(value.get("1").unwrap(), &replacement);
    assert_eq!(value.len(), 4);
}

#[test]
fn test_value_datetime_behavior() {
    let dt_date = Value::DateTime(DateTime::from_ymd_opt(2023, 4, 5).unwrap());
    let dt_datetime =
        Value::DateTime(DateTime::with_ymd_and_hms(2023, 4, 5, 12, 34, 56).unwrap());

    assert_eq!(
        dt_date.add_duration(purp_value::datetime::Duration::days(1)),
        Some(DateTime::from_ymd_opt(2023, 4, 6).unwrap())
    );
    assert_eq!(
        dt_datetime.add_duration(purp_value::datetime::Duration::days(1)),
        Some(DateTime::with_ymd_and_hms(2023, 4, 6, 12, 34, 56).unwrap())
    );
}

// Logical equality crosses number widths but not variants.

#[test]
fn number_equality_is_logical_inside_values() {
    assert_eq!(
        Value::Number(Number::I32(3)),
        Value::Number(Number::U8(3))
    );
    assert_ne!(Value::Number(Number::I32(3)), Value::Boolean(true));
    assert_ne!(Value::Null, Value::Undefined);
}

#[test]
fn clean_narrows_numbers_throughout_the_tree() {
    let mut object = Object::default();
    object.insert("wide", Value::Number(Number::I64(7)));
    let mut arr = Array::new();
    arr.push(Value::Number(Number::I128(-5)));
    object.insert("list", Value::Array(arr));
    let mut value = Value::Object(object);

    value.clean();

    match value.get("wide").unwrap() {
        Value::Number(n) => assert_eq!(n.number_type(), purp_value::NumberType::U8),
        other => panic!("expected a number, got {:?}", other),
    }
    match value.get("list").unwrap() {
        Value::Array(a) => match a.get(0).unwrap() {
            Value::Number(n) => {
                assert_eq!(n.number_type(), purp_value::NumberType::I8);
                assert_eq!(n.get_i8(), Some(-5));
            }
            other => panic!("expected a number, got {:?}", other),
        },
        other => panic!("expected an array, got {:?}", other),
    }
}

#[test]
fn clone_is_deep_and_value_semantic() {
    let mut object = Object::default();
    object.insert("a", Value::from(1));
    let original = Value::Object(object);
    let mut copy = original.clone();
    assert_eq!(copy, original);

    copy.set("a", Value::from(2));
    assert_ne!(copy, original);
    assert_eq!(original.get("a").unwrap(), &Value::from(1));
}

#[test]
fn pop_returns_the_last_element() {
    let mut value = Value::Array(Array::from_vec(vec![Value::from(1), Value::from(2)]));
    assert_eq!(value.pop(), Some(Value::from(2)));
    assert_eq!(value.pop(), Some(Value::from(1)));
    assert_eq!(value.pop(), None);
    assert!(value.is_empty());
}

#[test]
fn push_is_a_no_op_on_non_arrays() {
    let mut value = Value::Null;
    value.push(Value::from(1));
    assert_eq!(value, Value::Null);
}
