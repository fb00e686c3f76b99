use dbang::known_catalogs::{add, is_trusted, list, remove, to_text};

#[test]
fn test_add_known_catalog() {
    let mut known = list("");
    add(&mut known, "linux-china/dbang-catalog");
    add(&mut known, "linux-china/demo");
    assert!(is_trusted(&known, "linux-china/dbang-catalog"));
    remove(&mut known, "linux-china/demo");
    assert_eq!(known.len(), 1);
}

#[test]
fn adding_twice_keeps_one_entry() {
    let mut known = list("alice/x");
    add(&mut known, "bob/y");
    add(&mut known, "bob/y");
    assert_eq!(known.iter().filter(|k| k.as_str() == "bob/y").count(), 1);
    assert_eq!(known, vec!["alice/x".to_string(), "bob/y".to_string()]);
}

#[test]
fn removing_absent_entry_changes_nothing() {
    let mut known = list("alice/x\nbob/y");
    remove(&mut known, "carol/z");
    assert_eq!(known, vec!["alice/x".to_string(), "bob/y".to_string()]);
    assert!(!is_trusted(&known, "carol/z"));
}

#[test]
fn registry_text_lines() {
    assert!(list("").is_empty());
    assert_eq!(list("a\n"), vec!["a".to_string()]);
    assert_eq!(list("a\r\nb"), vec!["a".to_string(), "b".to_string()]);
    assert_eq!(list("a\n\nb\n"), vec!["a".to_string(), "".to_string(), "b".to_string()]);
    assert_eq!(to_text(&vec!["a".to_string(), "b".to_string()]), "a\nb");
    assert_eq!(to_text(&Vec::new()), "");
}
