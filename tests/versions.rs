use dbang::deno_versions::{
    download_url, get_default_deno, get_deno_archive, get_deno_binary, get_deno_home, install_plan,
    normalize_version, InstallStep,
};

#[test]
fn version_paths() {
    assert_eq!(get_deno_home("/d", "1.17.1"), "/d/deno/1.17.1");
    assert_eq!(get_deno_binary("/d", "1.17.1"), "/d/deno/1.17.1/deno");
    assert_eq!(get_deno_archive("/d", "1.17.1"), "/d/deno/1.17.1/deno.zip");
    assert_eq!(get_default_deno("/d"), "/d/bin/deno");
}

#[test]
fn install_into_empty_directory_downloads_and_extracts_once() {
    let plan = install_plan(false);
    assert_eq!(plan, vec![InstallStep::Download, InstallStep::Extract, InstallStep::RemoveArchive]);
    assert_eq!(plan.iter().filter(|s| **s == InstallStep::Download).count(), 1);
    assert_eq!(plan.iter().filter(|s| **s == InstallStep::Extract).count(), 1);
    assert_eq!(get_deno_binary("/d", "1.2.3"), "/d/deno/1.2.3/deno");
    assert!(install_plan(true).is_empty());
}

#[test]
fn release_urls_per_platform() {
    let base = "https://github.com/denoland/deno/releases/download/v1.17.1/deno-";
    assert_eq!(download_url("1.17.1", "macos", "aarch64"), format!("{}aarch64-apple-darwin.zip", base));
    assert_eq!(download_url("1.17.1", "macos", "x86_64"), format!("{}x86_64-apple-darwin.zip", base));
    assert_eq!(download_url("1.17.1", "windows", "x86_64"), format!("{}x86_64-pc-windows-msvc.zip", base));
    assert_eq!(download_url("1.17.1", "linux", "x86_64"), format!("{}x86_64-unknown-linux-gnu.zip", base));
}

#[test]
fn leading_v_is_dropped() {
    assert_eq!(normalize_version("v1.17.1"), "1.17.1");
    assert_eq!(normalize_version("1.17.1"), "1.17.1");
    assert_eq!(normalize_version("v"), "");
}
