//! Layout and installation rules of the locally kept interpreter versions.

use vstd::prelude::*;
use crate::text::{concat, concat3, has_prefix, same_text, starts_with};

verus! {

/// Directory of one interpreter version.
pub open spec fn deno_home_path(dbang_dir: Seq<char>, version: Seq<char>) -> Seq<char> {
    dbang_dir + "/deno/"@ + version
}

/// Executable of one interpreter version.
pub open spec fn deno_binary_path(dbang_dir: Seq<char>, version: Seq<char>) -> Seq<char> {
    deno_home_path(dbang_dir, version) + "/deno"@
}

/// Downloaded archive of one interpreter version, kept until extracted.
pub open spec fn deno_archive_path(dbang_dir: Seq<char>, version: Seq<char>) -> Seq<char> {
    deno_home_path(dbang_dir, version) + "/deno.zip"@
}

/// Link to the executable of the default interpreter version.
pub open spec fn default_deno_path(dbang_dir: Seq<char>) -> Seq<char> {
    dbang_dir + "/bin/deno"@
}

/// Release archive name for a platform.
pub open spec fn release_target(os: Seq<char>, arch: Seq<char>) -> Seq<char> {
    if os == "macos"@ && arch == "aarch64"@ {
        "aarch64-apple-darwin"@
    } else if os == "macos"@ {
        "x86_64-apple-darwin"@
    } else if os == "windows"@ {
        "x86_64-pc-windows-msvc"@
    } else {
        "x86_64-unknown-linux-gnu"@
    }
}

/// Download URL of the release archive of a version for a platform.
pub open spec fn release_url(version: Seq<char>, os: Seq<char>, arch: Seq<char>) -> Seq<char> {
    "https://github.com/denoland/deno/releases/download/v"@ + version + "/deno-"@
        + release_target(os, arch) + ".zip"@
}

/// A version as given by a user, without a leading `v`.
pub open spec fn bare_version(v: Seq<char>) -> Seq<char> {
    if has_prefix(v, "v"@) {
        v.drop_first()
    } else {
        v
    }
}

/// One step of installing an interpreter version.
#[derive(Debug, Clone, Copy, PartialEq, Eq, Structural)]
pub enum InstallStep {
    /// Fetch the release archive into the version's directory.
    Download,
    /// Unpack the archive into the version's directory.
    Extract,
    /// Remove the archive once it is unpacked.
    RemoveArchive,
}

/// The steps that install a version: none when its executable is present.
pub open spec fn install_steps(installed: bool) -> Seq<InstallStep> {
    if installed {
        seq![]
    } else {
        seq![InstallStep::Download, InstallStep::Extract, InstallStep::RemoveArchive]
    }
}

/// Directory of one interpreter version.
pub fn get_deno_home(dbang_dir: &str, version: &str) -> (r: String)
    ensures
        r@ == deno_home_path(dbang_dir@, version@),
{
    concat3(dbang_dir, "/deno/", version)
}

/// Executable of one interpreter version. Whether it exists is for the
/// caller to check; [`install_plan`] says what brings it there.
pub fn get_deno_binary(dbang_dir: &str, version: &str) -> (r: String)
    ensures
        r@ == deno_binary_path(dbang_dir@, version@),
{
    let home = get_deno_home(dbang_dir, version);
    concat(home.as_str(), "/deno")
}

/// Archive of one interpreter version while it is being installed.
pub fn get_deno_archive(dbang_dir: &str, version: &str) -> (r: String)
    ensures
        r@ == deno_archive_path(dbang_dir@, version@),
{
    let home = get_deno_home(dbang_dir, version);
    concat(home.as_str(), "/deno.zip")
}

/// Link to the executable of the default interpreter version.
pub fn get_default_deno(dbang_dir: &str) -> (r: String)
    ensures
        r@ == default_deno_path(dbang_dir@),
{
    concat(dbang_dir, "/bin/deno")
}

/// Download URL of the release archive of `version` for the platform
/// `os` / `arch` (the names that Rust gives them).
pub fn download_url(version: &str, os: &str, arch: &str) -> (r: String)
    ensures
        r@ == release_url(version@, os@, arch@),
{
    let target = if same_text(os, "macos") && same_text(arch, "aarch64") {
        "aarch64-apple-darwin"
    } else if same_text(os, "macos") {
        "x86_64-apple-darwin"
    } else if same_text(os, "windows") {
        "x86_64-pc-windows-msvc"
    } else {
        "x86_64-unknown-linux-gnu"
    };
    let mut url = concat3("https://github.com/denoland/deno/releases/download/v", version, "/deno-");
    url.append(target);
    url.append(".zip");
    url
}

/// A version as given by a user, with a leading `v` taken off.
pub fn normalize_version(version: &str) -> (r: String)
    ensures
        r@ == bare_version(version@),
{
    if starts_with(version, "v") {
        proof {
            reveal_strlit("v");
        }
        let n = version.unicode_len();
        String::from_str(version.substring_char(1, n))
    } else {
        String::from_str(version)
    }
}

/// The steps that install a version, in order. `installed` tells whether
/// the version's executable is present. A caller stops at the first step
/// that fails, which leaves the archive in place and the version not
/// installed; a later install starts again from the download.
pub fn install_plan(installed: bool) -> (r: Vec<InstallStep>)
    ensures
        r@ == install_steps(installed),
{
    if installed {
        let r: Vec<InstallStep> = Vec::new();
        assert(r@ =~= install_steps(installed));
        r
    } else {
        let r = vec![InstallStep::Download, InstallStep::Extract, InstallStep::RemoveArchive];
        assert(r@ =~= install_steps(installed));
        r
    }
}

} // verus!
