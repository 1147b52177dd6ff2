use mocktail::{HeaderName, HeaderValue, Headers};

fn pairs(headers: &Headers) -> Vec<(String, String)> {
    headers
        .iter()
        .iter()
        .map(|(n, v)| (n.as_str().to_string(), v.as_str().to_string()))
        .collect()
}

fn own(items: &[(&str, &str)]) -> Vec<(String, String)> {
    items.iter().map(|(n, v)| (n.to_string(), v.to_string())).collect()
}

#[test]
fn new_headers_are_empty() {
    let headers = Headers::new();
    assert!(headers.is_empty());
    assert_eq!(headers.len(), 0);
    assert_eq!(Headers::default(), headers);
    assert!(headers.get("a").is_none());
}

#[test]
fn insert_keeps_the_order_and_skips_repeats() {
    let mut headers = Headers::new();
    headers.insert("b", "2");
    headers.insert("a", "1");
    headers.insert("b", "2");
    headers.insert("b", "3");
    assert_eq!(headers.len(), 3);
    assert_eq!(pairs(&headers), own(&[("b", "2"), ("a", "1"), ("b", "3")]));
    assert_eq!(headers.entry(1), ("a", "1"));
}

#[test]
fn names_compare_without_case_and_values_with() {
    let mut headers = Headers::new();
    headers.insert("Content-Type", "Application/JSON");
    assert_eq!(pairs(&headers), own(&[("content-type", "Application/JSON")]));
    assert!(headers.contains_name("content-type"));
    assert!(headers.contains_name("CONTENT-TYPE"));
    assert!(headers.contains("CoNtEnT-tYpE", "Application/JSON"));
    assert!(!headers.contains("content-type", "application/json"));
    assert_eq!(headers.get("CONTENT-type").map(|v| v.as_str()), Some("Application/JSON"));
    headers.insert("CONTENT-TYPE", "Application/JSON");
    assert_eq!(headers.len(), 1);
    headers.remove("CONTENT-TYPE");
    assert!(headers.is_empty());
}

#[test]
fn lower_case_touches_ascii_letters_only() {
    assert_eq!(HeaderName::new("X-\u{c9}T\u{c9}_AZ[@`").as_str(), "x-\u{c9}t\u{c9}_az[@`");
    assert_eq!(HeaderValue::new("MiXed").as_str(), "MiXed");
}

#[test]
fn get_returns_the_first_value() {
    let mut headers = Headers::new();
    headers.insert("a", "1");
    headers.insert("b", "2");
    headers.insert("a", "3");
    assert_eq!(headers.get("a").map(|v| v.as_str()), Some("1"));
    assert_eq!(headers.get("b").map(|v| v.as_str()), Some("2"));
    assert!(headers.get("c").is_none());
}

#[test]
fn remove_takes_out_every_header_of_the_name() {
    let mut headers = Headers::new();
    headers.insert("a", "1");
    headers.insert("b", "2");
    headers.insert("a", "3");
    headers.insert("c", "4");
    headers.remove("a");
    assert_eq!(pairs(&headers), own(&[("b", "2"), ("c", "4")]));
    headers.remove("zzz");
    assert_eq!(headers.len(), 2);
    headers.clear();
    assert!(headers.is_empty());
}

#[test]
fn subset_and_superset() {
    let mut small = Headers::new();
    small.insert("header1", "value1");
    small.insert("header2", "value2");
    let mut large = Headers::new();
    large.insert("header3", "value3");
    large.insert("header2", "value2");
    large.insert("header1", "value1");
    assert!(small.is_subset(&large));
    assert!(large.is_superset(&small));
    assert!(!large.is_subset(&small));
    assert!(!small.is_superset(&large));
    assert!(small.is_subset(&small));
    assert!(Headers::new().is_subset(&small));
    let mut other = Headers::new();
    other.insert("header1", "other");
    assert!(!other.is_subset(&large));
}

#[test]
fn equality_goes_by_order() {
    let mut a = Headers::new();
    a.insert("x", "1");
    a.insert("y", "2");
    let mut b = Headers::new();
    b.insert("y", "2");
    b.insert("x", "1");
    assert_ne!(a, b);
    assert!(!a.same_as(&b));
    assert_eq!(a, a.clone());
    assert!(a.is_subset(&b) && b.is_subset(&a));
}

#[test]
fn from_pairs_inserts_in_order() {
    let headers = Headers::from_pairs(&own(&[("B", "2"), ("a", "1"), ("b", "2")]));
    assert_eq!(pairs(&headers), own(&[("b", "2"), ("a", "1")]));
}
