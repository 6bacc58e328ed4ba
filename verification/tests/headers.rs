use http::headers::Headers;

#[test]
fn new_headers_are_empty() {
    let h = Headers::new();
    assert_eq!(h.len(), 0);
    assert_eq!(h.entry(0), None);
    assert_eq!(h.get("Content-Type"), None);
}

#[test]
fn insert_adds_a_new_name_at_the_end() {
    let mut h = Headers::new();
    assert_eq!(h.insert("A", "1"), None);
    assert_eq!(h.insert("B", "2"), None);
    assert_eq!(h.len(), 2);
    assert_eq!(h.entry(0), Some(("A", "1")));
    assert_eq!(h.entry(1), Some(("B", "2")));
    assert_eq!(h.entry(2), None);
}

#[test]
fn insert_replaces_the_value_of_a_known_name() {
    let mut h = Headers::new();
    h.insert("A", "1");
    h.insert("B", "2");
    assert_eq!(h.insert("A", "3"), Some("1"));
    assert_eq!(h.len(), 2);
    assert_eq!(h.entry(0), Some(("A", "3")));
    assert_eq!(h.entry(1), Some(("B", "2")));
    assert_eq!(h.get("A"), Some("3"));
    assert_eq!(h.get("B"), Some("2"));
}

#[test]
fn names_are_compared_exactly() {
    let mut h = Headers::new();
    h.insert("Content-Type", "text/html");
    assert_eq!(h.insert("content-type", "text/plain"), None);
    assert_eq!(h.insert("Content-Type ", "x"), None);
    assert_eq!(h.insert("Content-Typé", "y"), None);
    assert_eq!(h.len(), 4);
    assert_eq!(h.get("Content-Type"), Some("text/html"));
    assert_eq!(h.get("content-type"), Some("text/plain"));
    assert_eq!(h.get("CONTENT-TYPE"), None);
}

#[test]
fn name_given_as_another_string_is_the_same_name() {
    let name = String::from("Server");
    let mut h = Headers::new();
    h.insert(name.as_str(), "a");
    assert_eq!(h.insert("Server", "b"), Some("a"));
    assert_eq!(h.len(), 1);
}

#[test]
fn empty_name_and_value_are_entries_too() {
    let mut h = Headers::new();
    assert_eq!(h.insert("", ""), None);
    assert_eq!(h.get(""), Some(""));
    assert_eq!(h.insert("", "v"), Some(""));
    assert_eq!(h.len(), 1);
}

#[test]
fn clone_holds_the_same_entries() {
    let mut h = Headers::new();
    h.insert("A", "1");
    h.insert("B", "2");
    let copy = h.clone();
    assert_eq!(copy, h);
    assert_eq!(copy.entry(1), Some(("B", "2")));
    h.insert("C", "3");
    assert_ne!(copy, h);
    assert_eq!(copy.len(), 2);
}
