use purp_value::StringB;

#[test]
fn test_len() {
    let s = StringB::from_str("Hello");
    assert_eq!(s.len(), 5);
}

#[test]
fn test_is_empty() {
    let s = StringB::from_str("");
    assert!(s.is_empty());
}

#[test]
fn test_to_uppercase() {
    let s = StringB::from_str("hello");
    assert_eq!(s.to_uppercase().as_str(), "HELLO");
}

#[test]
fn test_to_lowercase() {
    let s = StringB::from_str("HELLO");
    assert_eq!(s.to_lowercase().as_str(), "hello");
}

#[test]
fn test_trim() {
    let s = StringB::from_str("  hello  ");
    assert_eq!(s.trim().as_str(), "hello");
}

#[test]
fn test_replace() {
    let s = StringB::from_str("hello world");
    assert_eq!(s.replace("world", "planet").as_str(), "hello planet");
}

#[test]
fn test_concat() {
    let s1 = StringB::from_str("hello");
    let s2 = " world";
    assert_eq!(s1.concat(s2).as_str(), "hello world");
}

#[test]
fn byte_length_counts_utf8_bytes() {
    let s = StringB::from_str("ü");
    assert_eq!(s.len(), 2);
    assert!(!s.is_empty());
    assert_eq!(s.as_bytes(), "ü".as_bytes());
}

#[test]
fn from_utf8_accepts_valid_bytes_only() {
    let ok = StringB::from_utf8(vec![104, 101, 108, 108, 111]).unwrap();
    assert_eq!(ok.as_str(), "hello");
    assert!(StringB::from_utf8(vec![0xff, 0xfe]).is_none());
}

#[test]
fn to_string_round_trips() {
    let s = StringB::new("abc".to_string());
    assert_eq!(s.to_string(), "abc".to_string());
    assert_eq!(s.to_string_lossy(), "abc".to_string());
}
