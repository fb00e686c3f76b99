use dbang::dbang_utils::github_auth_token;
use dbang::workflow::{
    accepts, acquisition, after_fetch, app_name_for, is_reserved_app_name, split_qualified,
    suffix_after_last, Acquisition,
};

#[test]
fn test_github_auth_token() {
    assert_eq!(github_auth_token("abc@raw.githubusercontent.com").as_deref(), Some("abc"));
    assert_eq!(
        github_auth_token("x@github.com;tok@raw.githubusercontent.com;y@raw.githubusercontent.com").as_deref(),
        Some("tok")
    );
    assert_eq!(github_auth_token("x@github.com"), None);
    assert_eq!(github_auth_token(""), None);
}

#[test]
fn untrusted_catalog_accepted_then_used_locally() {
    let first = acquisition(false, false);
    assert_eq!(first, Acquisition::FetchAndConfirm);
    assert_eq!(after_fetch(first, "y\n"), Some(Acquisition::FetchAndConfirm));
    let second = acquisition(true, false);
    assert_eq!(second, Acquisition::UseLocal);
}

#[test]
fn trusted_catalog_is_fetched_silently() {
    assert_eq!(acquisition(false, true), Acquisition::FetchTrusted);
    assert_eq!(acquisition(true, true), Acquisition::UseLocal);
    assert_eq!(after_fetch(Acquisition::FetchTrusted, ""), Some(Acquisition::FetchTrusted));
}

#[test]
fn refused_catalog_aborts() {
    assert_eq!(after_fetch(Acquisition::FetchAndConfirm, "n\n"), None);
    assert_eq!(after_fetch(Acquisition::FetchAndConfirm, ""), None);
}

#[test]
fn confirmation_answers() {
    assert!(accepts("y"));
    assert!(accepts("  yes\n"));
    assert!(accepts("\u{3000}y"));
    assert!(!accepts("Y"));
    assert!(!accepts("no"));
    assert!(!accepts(" n y"));
    assert!(!accepts(""));
}

#[test]
fn qualified_references() {
    assert_eq!(split_qualified("hello@linux-china"), Some(("hello".to_string(), "linux-china".to_string())));
    assert_eq!(split_qualified("hello@alice/x@extra"), Some(("hello".to_string(), "alice/x".to_string())));
    assert_eq!(split_qualified("hello"), None);
}

#[test]
fn installed_command_names() {
    assert_eq!(app_name_for("https://example.com/tools/fmt.ts"), "fmt.ts");
    assert_eq!(app_name_for("hello@linux-china"), "hello");
    assert_eq!(app_name_for("hello"), "hello");
    assert_eq!(suffix_after_last("/usr/local/bin/myip", '/'), "myip");
    assert_eq!(suffix_after_last("myip", '/'), "myip");
    assert!(is_reserved_app_name("dbang"));
    assert!(is_reserved_app_name("dbang-shim"));
    assert!(is_reserved_app_name("deno"));
    assert!(!is_reserved_app_name("hello"));
}
