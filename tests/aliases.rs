use dbang::aliases::{add, all, find_script_name_by_alias, remove, remove_by_repo_name, save};
use dbang::error::DbangError;

fn pair(a: &str, b: &str) -> (String, String) {
    (a.to_string(), b.to_string())
}

#[test]
fn test_add() {
    let mut aliases = all(None).unwrap();
    add(&mut aliases, "hello".to_string(), "hello@linux-china".to_string());
    let script_name = find_script_name_by_alias(&aliases, "hello").unwrap();
    assert_eq!(script_name, "hello@linux-china");
}

#[test]
fn test_find_script_name() {
    let aliases = vec![pair("hello", "hello@linux-china"), pair("myip", "myip@linux-china")];
    assert_eq!(find_script_name_by_alias(&aliases, "myip").as_deref(), Some("myip@linux-china"));
    assert_eq!(find_script_name_by_alias(&aliases, "other"), None);
}

#[test]
fn add_replaces_existing_alias() {
    let mut aliases = vec![pair("hello", "hello@a")];
    add(&mut aliases, "hello".to_string(), "hello@b".to_string());
    assert_eq!(aliases, vec![pair("hello", "hello@b")]);
}

#[test]
fn remove_alias_and_absent_alias() {
    let mut aliases = vec![pair("a", "a@x"), pair("b", "b@x")];
    remove(&mut aliases, "a");
    assert_eq!(aliases, vec![pair("b", "b@x")]);
    remove(&mut aliases, "zzz");
    assert_eq!(aliases, vec![pair("b", "b@x")]);
}

#[test]
fn remove_aliases_of_repository() {
    let mut aliases = vec![pair("a", "alice/x"), pair("b", "b@bob"), pair("c", "alice/x")];
    remove_by_repo_name(&mut aliases, "alice/x");
    assert_eq!(aliases, vec![pair("b", "b@bob")]);
}

#[test]
fn alias_document_is_read() {
    let aliases = all(Some(r#"{"myip":"myip@linux-china","hello":"hello@linux-china"}"#)).unwrap();
    assert_eq!(aliases, vec![pair("hello", "hello@linux-china"), pair("myip", "myip@linux-china")]);
    assert_eq!(all(Some("{}")).unwrap(), Vec::new());
}

#[test]
fn malformed_alias_document_is_a_format_error() {
    assert_eq!(all(Some("not json")).unwrap_err(), DbangError::Format);
    assert_eq!(all(Some(r#"{"a": 1}"#)).unwrap_err(), DbangError::Format);
}

#[test]
fn alias_document_is_written() {
    let aliases = vec![pair("b", "b@x"), pair("a", "a@x")];
    let text = save(&aliases).unwrap();
    assert_eq!(text, r#"{"a":"a@x","b":"b@x"}"#);
    let mut back = all(Some(&text)).unwrap();
    back.sort();
    let mut expected = aliases.clone();
    expected.sort();
    assert_eq!(back, expected);
}
