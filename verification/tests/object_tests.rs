use purp_value::{Object, StringB, Value, ValueKey};
use purp_value::convert::ToValueTrait;
use purp_value::key::parse_index;

#[test]
fn test_object_iter() {
    let value1 = Value::Null;
    let value2 = StringB::from_str("ok").to_value();

    let mut obj = Object::new_ordered();
    obj.insert("key1", value1.clone());
    obj.insert("key2", value2.clone());

    let mut iter = obj.iter();
    let mut results: Vec<(String, Value)> = vec![];

    while let Some((key, value)) = iter.next() {
        results.push((key.as_str().to_string(), value.clone()));
    }

    assert_eq!(
        results,
        vec![("key1".to_string(), value1), ("key2".to_string(), value2)]
    );
}

#[test]
fn test_object_from_vec() {
    let vec = vec![
        (ValueKey::from_str("key1"), Value::Null),
        (ValueKey::from_str("key2"), StringB::from_str("ok").to_value()),
    ];

    let obj = Object::from_pairs(vec);
    assert_eq!(obj.get("key1"), Some(&Value::Null));
    assert_eq!(obj.get("key2"), Some(&StringB::from_str("ok").to_value()));
}

#[test]
fn from_pairs_keeps_the_last_binding() {
    let obj = Object::from_pairs(vec![
        (ValueKey::from_str("a"), Value::from(1)),
        (ValueKey::from_str("b"), Value::from(2)),
        (ValueKey::from_str("a"), Value::from(3)),
    ]);
    assert_eq!(obj.len(), 2);
    assert_eq!(obj.get("a"), Some(&Value::from(3)));
    assert_eq!(obj.get("b"), Some(&Value::from(2)));
}

#[test]
fn insert_returns_the_previous_value() {
    let mut obj = Object::new();
    assert_eq!(obj.insert("a", Value::from(1)), None);
    assert_eq!(obj.insert("a", Value::from(2)), Some(Value::from(1)));
    assert_eq!(obj.len(), 1);
    assert_eq!(obj.get("a"), Some(&Value::from(2)));
}

#[test]
fn remove_unbinds_the_key() {
    let mut obj = Object::new();
    obj.insert("a", Value::from(1));
    obj.insert("b", Value::from(2));
    assert_eq!(obj.remove("a"), Some(Value::from(1)));
    assert_eq!(obj.remove("a"), None);
    assert_eq!(obj.len(), 1);
    assert!(!obj.contains_key("a"));
    assert!(obj.contains_key("b"));
}

#[test]
fn clear_empties_but_keeps_the_backend() {
    let mut obj = Object::new_ordered();
    obj.insert("a", Value::from(1));
    obj.clear();
    assert!(obj.is_empty());
    assert!(obj.is_ordered());
}

#[test]
fn ordered_backend_iterates_sorted_by_key() {
    let mut obj = Object::new_ordered();
    obj.insert("pear", Value::from(3));
    obj.insert("apple", Value::from(1));
    obj.insert("mango", Value::from(2));

    let keys: Vec<String> = obj.keys().iter().map(|k| k.as_str().to_string()).collect();
    assert_eq!(keys, vec!["apple", "mango", "pear"]);
}

#[test]
fn hash_backend_iterates_in_insertion_order() {
    let mut obj = Object::new();
    obj.insert("pear", Value::from(3));
    obj.insert("apple", Value::from(1));

    let keys: Vec<String> = obj.keys().iter().map(|k| k.as_str().to_string()).collect();
    assert_eq!(keys, vec!["pear", "apple"]);

    let values = obj.values();
    assert_eq!(values[0], &Value::from(3));
    assert_eq!(values[1], &Value::from(1));
}

#[test]
fn both_backends_answer_queries_identically() {
    let mut hashed = Object::new();
    let mut ordered = Object::new_ordered();
    let script = [("b", 2i32), ("a", 1), ("c", 3), ("a", 9)];
    for (k, v) in script {
        hashed.insert(k, Value::from(v));
        ordered.insert(k, Value::from(v));
    }
    hashed.remove("c");
    ordered.remove("c");

    assert_eq!(hashed.len(), ordered.len());
    for k in ["a", "b", "c", "missing"] {
        assert_eq!(hashed.contains_key(k), ordered.contains_key(k));
        assert_eq!(hashed.get(k), ordered.get(k));
    }
    assert_eq!(hashed.get("a"), Some(&Value::from(9)));
}

#[test]
fn keys_parse_as_array_indexes() {
    assert_eq!(ValueKey::from_str("0").to_usize(), Some(0));
    assert_eq!(ValueKey::from_str("42").to_usize(), Some(42));
    assert_eq!(ValueKey::from_str("007").to_usize(), Some(7));
    assert_eq!(ValueKey::from_str("").to_usize(), None);
    assert_eq!(ValueKey::from_str("4a").to_usize(), None);
    assert_eq!(ValueKey::from_str("-1").to_usize(), None);
    assert_eq!(parse_index("12345"), Some(12345));
    assert_eq!(parse_index("99999999999999999999999999"), None);
}

#[test]
fn entry_at_walks_the_entries() {
    let mut obj = Object::new();
    obj.insert("x", Value::from(1));
    let entry = obj.entry_at(0).unwrap();
    assert_eq!(entry.0.as_str(), "x");
    assert_eq!(entry.1, &Value::from(1));
    assert!(obj.entry_at(1).is_none());
}

#[test]
fn iteration_restarts_from_the_front() {
    let mut obj = Object::new();
    obj.insert("a", Value::from(1));
    obj.insert("b", Value::from(2));

    let mut first_pass = obj.iter();
    let mut count: usize = 0;
    while first_pass.next().is_some() {
        count += 1;
    }
    assert_eq!(count, 2);
    assert!(first_pass.next().is_none());

    let mut second_pass = obj.iter();
    let (key, value) = second_pass.next().unwrap();
    assert_eq!(key.as_str(), "a");
    assert_eq!(value, &Value::from(1));
}

#[test]
fn value_level_object_operations() {
    let mut value = Value::Object(Object::default());
    assert_eq!(value.insert("a", Value::from(1)), None);
    assert_eq!(value.insert("a", Value::from(2)), Some(Value::from(1)));
    assert!(value.contains_key("a"));
    assert!(!value.contains_key("b"));
    assert_eq!(value.len(), 1);

    let keys = value.keys();
    assert_eq!(keys.len(), 1);
    assert_eq!(keys[0].as_str(), "a");
    let values = value.values();
    assert_eq!(values[0], &Value::from(2));

    assert_eq!(value.remove("a"), Some(Value::from(2)));
    assert!(value.is_empty());
}

#[test]
fn array_access_parses_the_key_as_an_index() {
    let value = Value::Array(purp_value::Array::from_vec(vec![
        Value::from(10),
        Value::from(20),
    ]));
    assert_eq!(value.get("0"), Some(&Value::from(10)));
    assert_eq!(value.get("1"), Some(&Value::from(20)));
    assert_eq!(value.get("2"), None);
    assert_eq!(value.get("x"), None);
    assert_eq!(Value::Null.get("0"), None);
}

#[test]
fn object_clean_reaches_every_value() {
    let mut obj = Object::new();
    obj.insert("n", Value::Number(purp_value::Number::I64(9)));
    obj.clean();
    match obj.get("n").unwrap() {
        Value::Number(n) => assert_eq!(n.number_type(), purp_value::NumberType::U8),
        other => panic!("expected a number, got {:?}", other),
    }
}
