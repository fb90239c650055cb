use javascript_adapter::Headers;

fn text(s: &str) -> String {
    s.to_string()
}

fn pair(name: &str, value: &str) -> (String, String) {
    (name.to_string(), value.to_string())
}

#[test]
fn new_headers_are_empty() {
    let headers = Headers::new();
    assert_eq!(headers.len(), 0);
    assert!(headers.to_vec().is_empty());
    assert_eq!(headers.get(&text("Accept")), None);
}

#[test]
fn insert_under_a_new_name_returns_none() {
    let mut headers = Headers::new();
    assert_eq!(headers.insert(text("Accept"), text("text/html")), None);
    assert_eq!(headers.len(), 1);
    assert_eq!(headers.get(&text("Accept")), Some(&text("text/html")));
}

#[test]
fn insert_under_a_held_name_returns_the_replaced_value() {
    let mut headers = Headers::new();
    headers.insert(text("Accept"), text("text/html"));
    assert_eq!(headers.insert(text("Accept"), text("*/*")), Some(text("text/html")));
    assert_eq!(headers.len(), 1);
    assert_eq!(headers.get(&text("Accept")), Some(&text("*/*")));
}

#[test]
fn insert_leaves_other_names_alone() {
    let mut headers = Headers::new();
    headers.insert(text("A"), text("1"));
    headers.insert(text("B"), text("2"));
    headers.insert(text("C"), text("3"));
    assert_eq!(headers.insert(text("B"), text("20")), Some(text("2")));
    assert_eq!(headers.len(), 3);
    assert_eq!(headers.get(&text("A")), Some(&text("1")));
    assert_eq!(headers.get(&text("B")), Some(&text("20")));
    assert_eq!(headers.get(&text("C")), Some(&text("3")));
}

#[test]
fn get_of_a_missing_name_is_none() {
    let mut headers = Headers::new();
    headers.insert(text("Accept"), text("text/html"));
    assert_eq!(headers.get(&text("accept")), None);
    assert_eq!(headers.get(&text("Accep")), None);
    assert_eq!(headers.get(&String::new()), None);
}

#[test]
fn to_vec_holds_each_name_once() {
    let mut headers = Headers::new();
    headers.insert(text("A"), text("1"));
    headers.insert(text("B"), text("2"));
    headers.insert(text("A"), text("3"));
    headers.insert(text("B"), text("4"));
    headers.insert(text("A"), text("5"));
    let mut pairs = headers.to_vec();
    pairs.sort();
    assert_eq!(pairs, vec![pair("A", "5"), pair("B", "4")]);
    assert_eq!(pairs.len(), headers.len());
}

#[test]
fn same_value_under_two_names_is_two_entries() {
    let mut headers = Headers::new();
    headers.insert(text("A"), text("same"));
    headers.insert(text("B"), text("same"));
    assert_eq!(headers.len(), 2);
    let mut pairs = headers.to_vec();
    pairs.sort();
    assert_eq!(pairs, vec![pair("A", "same"), pair("B", "same")]);
}
