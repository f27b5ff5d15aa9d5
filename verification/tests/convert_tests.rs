use purp_value::convert::{
    from_value_named, to_value_enum_named, to_value_enum_positional, to_value_enum_unit,
    to_value_named, to_value_positional, to_value_unit, FromValueTrait, ToJsonTrait, ToValueTrait,
};
use purp_value::{Number, Object, StringB, Value};

// The conversion code a named-field struct's derive would emit, written
// against the library's shape builders.

#[derive(Debug, PartialEq)]
struct Person {
    name: String,
    age: u32,
}

impl ToValueTrait for Person {
    fn to_value(&self) -> Value {
        to_value_named(vec![
            ("name".to_string(), self.name.to_value()),
            ("age".to_string(), self.age.to_value()),
        ])
    }
}

impl FromValueTrait for Person {
    fn from_value(value: Value) -> Option<Person> {
        let names = vec!["name".to_string(), "age".to_string()];
        let mut fields = from_value_named(&names, &value)?;
        let age_value = fields.pop()?;
        let name_value = fields.pop()?;
        Some(Person {
            name: String::from_value(name_value)?,
            age: u32::from_value(age_value)?,
        })
    }
}

impl ToJsonTrait for Person {
    fn to_json(&self) -> String {
        self.to_value().to_json()
    }
}

#[test]
fn test_to_value() {
    let person = Person { name: "John Doe".to_string(), age: 30 };

    let value = person.to_value();
    let mut expected_object = Object::default();
    expected_object.insert("name", Value::String(StringB::from_str("John Doe")));
    expected_object.insert("age", Value::Number(Number::from(30)));
    let expected = Value::Object(expected_object);

    assert_eq!(value, expected);
}

#[test]
fn test_from_value() {
    let mut object = Object::default();
    object.insert("name", Value::String(StringB::from_str("John Doe")));
    object.insert("age", Value::Number(Number::from(30)));
    let value = Value::Object(object);

    let person = Person::from_value(value).unwrap();
    let expected = Person { name: "John Doe".to_string(), age: 30 };

    assert_eq!(person, expected);
}

#[test]
fn test_to_json() {
    let person = Person { name: "John Doe".to_string(), age: 30 };

    let json = person.to_json();
    let expected = r#"{"name":"John Doe","age":30}"#;

    assert_eq!(json, expected);
}

// A struct `{ name: "John", age: 30 }` converts to an object with
// exactly the keys "name" and "age", and converts back to an equal
// instance.

#[test]
fn named_struct_round_trip() {
    let person = Person { name: "John".to_string(), age: 30 };
    let value = person.to_value();

    match &value {
        Value::Object(o) => {
            assert_eq!(o.len(), 2);
            assert!(o.contains_key("name"));
            assert!(o.contains_key("age"));
            assert!(matches!(o.get("name"), Some(Value::String(_))));
            assert!(matches!(o.get("age"), Some(Value::Number(_))));
        }
        other => panic!("expected an object, got {:?}", other),
    }

    let back = Person::from_value(value).unwrap();
    assert_eq!(back, Person { name: "John".to_string(), age: 30 });
}

#[test]
fn from_value_fails_on_shape_mismatch() {
    assert!(Person::from_value(Value::Null).is_none());
    assert!(Person::from_value(Value::from(1)).is_none());

    let mut missing_age = Object::default();
    missing_age.insert("name", Value::String(StringB::from_str("John")));
    assert!(Person::from_value(Value::Object(missing_age)).is_none());

    let mut wrong_type = Object::default();
    wrong_type.insert("name", Value::String(StringB::from_str("John")));
    wrong_type.insert("age", Value::Boolean(true));
    assert!(Person::from_value(Value::Object(wrong_type)).is_none());
}

#[test]
fn positional_shape_is_an_array_of_fields() {
    let value = to_value_positional(vec![Value::from(1), Value::from(2)]);
    match &value {
        Value::Array(a) => {
            assert_eq!(a.len(), 2);
            assert_eq!(a.get(0), Some(&Value::from(1)));
            assert_eq!(a.get(1), Some(&Value::from(2)));
        }
        other => panic!("expected an array, got {:?}", other),
    }
}

#[test]
fn unit_shape_is_null() {
    assert_eq!(to_value_unit(), Value::Null);
}

#[test]
fn enum_named_variant_carries_its_tag() {
    let value = to_value_enum_named(
        "Point",
        vec![("x".to_string(), Value::from(1)), ("y".to_string(), Value::from(2))],
    );
    match &value {
        Value::Object(o) => {
            assert_eq!(o.len(), 3);
            assert_eq!(
                o.get("type"),
                Some(&Value::String(StringB::from_str("Point")))
            );
            assert_eq!(o.get("x"), Some(&Value::from(1)));
            assert_eq!(o.get("y"), Some(&Value::from(2)));
        }
        other => panic!("expected an object, got {:?}", other),
    }
}

#[test]
fn enum_positional_variant_keeps_its_values_in_order() {
    let value = to_value_enum_positional("Pair", vec![Value::from(7), Value::from(8)]);
    match &value {
        Value::Object(o) => {
            assert_eq!(o.len(), 2);
            assert_eq!(
                o.get("type"),
                Some(&Value::String(StringB::from_str("Pair")))
            );
            match o.get("values") {
                Some(Value::Array(a)) => {
                    assert_eq!(a.get(0), Some(&Value::from(7)));
                    assert_eq!(a.get(1), Some(&Value::from(8)));
                }
                other => panic!("expected an array, got {:?}", other),
            }
        }
        other => panic!("expected an object, got {:?}", other),
    }
}

#[test]
fn enum_unit_variant_is_its_bare_name() {
    assert_eq!(
        to_value_enum_unit("Empty"),
        Value::String(StringB::from_str("Empty"))
    );
}

#[test]
fn primitive_conversions_round_trip() {
    assert_eq!(bool::from_value(true.to_value()), Some(true));
    assert_eq!(u8::from_value(200u8.to_value()), Some(200));
    assert_eq!(i64::from_value((-9i64).to_value()), Some(-9));
    assert_eq!(
        String::from_value("hi".to_string().to_value()),
        Some("hi".to_string())
    );
    assert_eq!(u8::from_value(Value::from(300i32)), None);
    assert_eq!(bool::from_value(Value::Null), None);
}
