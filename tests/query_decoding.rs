use http_server::{QueryString, Value};

fn values(q: &QueryString, key: &str) -> Option<Vec<String>> {
    match q.get(key) {
        Some(Value::Single(v)) => Some(vec![v.to_string()]),
        Some(Value::Multiple(vs)) => Some(vs.iter().map(|v| v.to_string()).collect()),
        None => None,
    }
}

fn is_single(q: &QueryString, key: &str) -> bool {
    matches!(q.get(key), Some(Value::Single(_)))
}

#[test]
fn repeated_key_folds_into_multiple() {
    let q = QueryString::from("d=&e===&d=7&d=abc");
    assert!(!is_single(&q, "d"));
    assert_eq!(values(&q, "d"), Some(vec!["".to_string(), "7".to_string(), "abc".to_string()]));
    assert!(is_single(&q, "e"));
    assert_eq!(values(&q, "e"), Some(vec!["==".to_string()]));
}

#[test]
fn key_without_equals_has_empty_value() {
    let q = QueryString::from("c");
    assert!(is_single(&q, "c"));
    assert_eq!(values(&q, "c"), Some(vec!["".to_string()]));
}

#[test]
fn second_value_makes_pair_in_order() {
    let q = QueryString::from("a=1&a=2");
    assert!(!is_single(&q, "a"));
    assert_eq!(values(&q, "a"), Some(vec!["1".to_string(), "2".to_string()]));
}

#[test]
fn full_example_query() {
    let q = QueryString::from("a=1&b=2&c&d=&e===&d=7&d=abc");
    assert_eq!(values(&q, "a"), Some(vec!["1".to_string()]));
    assert_eq!(values(&q, "b"), Some(vec!["2".to_string()]));
    assert_eq!(values(&q, "c"), Some(vec!["".to_string()]));
    assert_eq!(values(&q, "d"), Some(vec!["".to_string(), "7".to_string(), "abc".to_string()]));
    assert_eq!(values(&q, "e"), Some(vec!["==".to_string()]));
    assert_eq!(values(&q, "f"), None);
}

#[test]
fn empty_key_is_a_key() {
    let q = QueryString::from("&x=1");
    assert!(is_single(&q, ""));
    assert_eq!(values(&q, ""), Some(vec!["".to_string()]));
    assert_eq!(values(&q, "x"), Some(vec!["1".to_string()]));
    let q = QueryString::from("=v");
    assert_eq!(values(&q, ""), Some(vec!["v".to_string()]));
}

#[test]
fn empty_query_is_one_empty_key() {
    let q = QueryString::from("");
    assert_eq!(values(&q, ""), Some(vec!["".to_string()]));
}

#[test]
fn lookup_is_exact_and_raw() {
    let q = QueryString::from("Name=a+b%20c");
    assert_eq!(values(&q, "Name"), Some(vec!["a+b%20c".to_string()]));
    assert_eq!(values(&q, "name"), None);
    assert_eq!(values(&q, "Nam"), None);
}
