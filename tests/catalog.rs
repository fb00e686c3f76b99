use dbang::catalog::{get_dbang_catalog_url_on_github, permission_flag, Artifact, Catalog};
use dbang::error::DbangError;

fn texts(v: &[&str]) -> Vec<String> {
    v.iter().map(|s| s.to_string()).collect()
}

fn hello_catalog() -> Catalog {
    let mut catalog = Catalog::new();
    let mut hello = Artifact::new("hello.ts");
    hello.description = Some("Hello world".to_string());
    catalog.insert("hello".to_string(), hello);
    let mut myip = Artifact::new("myip.ts");
    myip.deno = Some("1.17.1".to_string());
    myip.permissions = Some(texts(&["allow-net"]));
    catalog.insert("myip".to_string(), myip);
    catalog
}

#[test]
fn test_read_local_dbang_catalog() {
    let path = Catalog::local_file("/home/u/.dbang", "linux-china");
    assert_eq!(path, "/home/u/.dbang/catalogs/github/linux-china/dbang-catalog/dbang-catalog.json");
}

#[test]
fn test_get_artifact() {
    let catalog = hello_catalog();
    let artifact = Artifact::read_from_local(&catalog, "hello").unwrap();
    assert_eq!(artifact.script_ref, "hello.ts");
    assert_eq!(artifact.description.as_deref(), Some("Hello world"));
    assert_eq!(
        artifact.get_script_http_url("linux-china"),
        "https://raw.githubusercontent.com/linux-china/dbang-catalog/HEAD/hello.ts"
    );
}

#[test]
fn test_is_platform_compatible() {
    let mut artifact = Artifact::new("hello.ts");
    artifact.description = Some("Hello world".to_string());
    artifact.platforms = Some(texts(&["macos"]));
    assert!(artifact.is_platform_compatible("macos", "aarch64"));
    assert!(!artifact.is_platform_compatible("linux", "x86_64"));
}

#[test]
fn missing_artifact_is_not_found() {
    let catalog = hello_catalog();
    assert_eq!(Artifact::read_from_local(&catalog, "nope").unwrap_err(), DbangError::NotFound);
}

#[test]
fn insert_replaces_artifact_of_same_name() {
    let mut catalog = hello_catalog();
    catalog.insert("hello".to_string(), Artifact::new("hello2.ts"));
    assert_eq!(catalog.scripts.len(), 2);
    assert_eq!(Artifact::read_from_local(&catalog, "hello").unwrap().script_ref, "hello2.ts");
}

#[test]
fn canonical_repository_names() {
    assert_eq!(Catalog::get_full_repo_name("alice"), "alice/dbang-catalog");
    assert_eq!(Catalog::get_full_repo_name("alice/scripts"), "alice/scripts");
    let once = Catalog::get_full_repo_name("alice");
    assert_eq!(Catalog::get_full_repo_name(&once), once);
    assert_eq!(Catalog::get_full_repo_name(""), "/dbang-catalog");
}

#[test]
fn relative_script_resolves_against_repository() {
    let artifact = Artifact::new("hello.ts");
    assert_eq!(
        artifact.get_script_http_url("alice/scripts"),
        "https://raw.githubusercontent.com/alice/scripts/HEAD/hello.ts"
    );
}

#[test]
fn absolute_script_urls_are_kept() {
    let https = Artifact::new("https://example.com/a.ts");
    assert_eq!(https.get_script_http_url("alice"), "https://example.com/a.ts");
    let http = Artifact::new("http://example.com/b.ts");
    assert_eq!(http.get_script_http_url("alice"), "http://example.com/b.ts");
    let other = Artifact::new("ftp://example.com/c.ts");
    assert_eq!(
        other.get_script_http_url("alice"),
        "https://raw.githubusercontent.com/alice/dbang-catalog/HEAD/ftp://example.com/c.ts"
    );
}

#[test]
fn import_map_url_needs_an_import_map() {
    let mut artifact = Artifact::new("hello.ts");
    assert_eq!(artifact.get_import_map_http_url("alice").unwrap_err(), DbangError::Precondition);
    artifact.import_map = Some("import_map.json".to_string());
    assert_eq!(
        artifact.get_import_map_http_url("alice").unwrap(),
        "https://raw.githubusercontent.com/alice/dbang-catalog/HEAD/import_map.json"
    );
    artifact.import_map = Some("https://example.com/map.json".to_string());
    assert_eq!(artifact.get_import_map_http_url("alice").unwrap(), "https://example.com/map.json");
}

#[test]
fn permission_tokens_take_flag_form() {
    assert_eq!(permission_flag("net"), "--net");
    assert_eq!(permission_flag("-net"), "--net");
    assert_eq!(permission_flag("--net"), "--net");
    assert_eq!(permission_flag("allow-read"), "--allow-read");
    assert_eq!(permission_flag(""), "--");
    let mut artifact = Artifact::new("a.ts");
    assert!(artifact.get_deno_permissions().is_empty());
    artifact.permissions = Some(texts(&["allow-net", "-A", "--allow-env"]));
    assert_eq!(artifact.get_deno_permissions(), texts(&["--allow-net", "--A", "--allow-env"]));
}

#[test]
fn platform_tokens_match_exactly() {
    let mut linux = Artifact::new("a.ts");
    linux.platforms = Some(texts(&["linux"]));
    assert!(linux.is_platform_compatible("linux", "x86_64"));
    assert!(linux.is_platform_compatible("linux", "aarch64"));
    assert!(!linux.is_platform_compatible("macos", "x86_64"));
    assert!(!linux.is_platform_compatible("Linux", "x86_64"));
    let mut linux_x64 = Artifact::new("a.ts");
    linux_x64.platforms = Some(texts(&["linux-x86_64"]));
    assert!(linux_x64.is_platform_compatible("linux", "x86_64"));
    assert!(!linux_x64.is_platform_compatible("linux", "aarch64"));
    assert!(!linux_x64.is_platform_compatible("windows", "x86_64"));
    let anywhere = Artifact::new("a.ts");
    assert!(anywhere.is_platform_compatible("windows", "x86_64"));
    let mut nowhere = Artifact::new("a.ts");
    nowhere.platforms = Some(Vec::new());
    assert!(!nowhere.is_platform_compatible("linux", "x86_64"));
}

#[test]
fn interpreter_choice() {
    let mut artifact = Artifact::new("a.ts");
    assert_eq!(artifact.get_deno_bin_path("/d", false), "deno");
    assert_eq!(artifact.get_deno_bin_path("/d", true), "/d/bin/deno");
    artifact.deno = Some("1.17.1".to_string());
    assert_eq!(artifact.get_deno_bin_path("/d", true), "/d/deno/1.17.1/deno");
}

#[test]
fn catalog_paths() {
    assert_eq!(Catalog::local_dir("/d", "alice/x"), "/d/catalogs/github/alice/x");
    let artifact = Artifact::new("a.ts");
    assert_eq!(artifact.get_deno_config("/d", "alice"), "/d/catalogs/github/alice/dbang-catalog/deno.json");
}

#[test]
fn catalog_document_urls() {
    assert_eq!(
        get_dbang_catalog_url_on_github("alice/dbang-catalog", None),
        "https://raw.githubusercontent.com/alice/dbang-catalog/HEAD/dbang-catalog.json"
    );
    assert_eq!(
        get_dbang_catalog_url_on_github("alice/x", Some("tok")),
        "https://tok@raw.githubusercontent.com/alice/x/HEAD/dbang-catalog.json"
    );
}

#[test]
fn cache_invocations_cover_every_artifact() {
    let mut catalog = hello_catalog();
    let mut mapped = Artifact::new("https://example.com/m.ts");
    mapped.import_map = Some("map.json".to_string());
    catalog.insert("mapped".to_string(), mapped);
    let all = catalog.cache_artifacts("/d", "alice", false);
    assert_eq!(all.len(), 3);
    assert_eq!(all[0].program, "deno");
    assert_eq!(
        all[0].args,
        texts(&[
            "cache",
            "--no-check",
            "--unstable",
            "--reload",
            "--quiet",
            "https://raw.githubusercontent.com/alice/dbang-catalog/HEAD/hello.ts"
        ])
    );
    assert_eq!(all[1].program, "/d/deno/1.17.1/deno");
    assert_eq!(
        all[2].args,
        texts(&[
            "cache",
            "--no-check",
            "--unstable",
            "--reload",
            "--quiet",
            "--import-map",
            "https://raw.githubusercontent.com/alice/dbang-catalog/HEAD/map.json",
            "https://example.com/m.ts"
        ])
    );
}
