//! Interpreter invocations: the argument vectors that run, run locally and
//! pre-fetch an artifact.

use vstd::prelude::*;
use crate::catalog::{
    catalog_dir, interpreter_path, permission_flags, resolve_ref, Artifact, ArtifactView,
};
use crate::text::{extend_texts, opt_str, opt_strs, push_text, strs};

verus! {

/// An interpreter invocation: the program and its arguments.
#[derive(Debug)]
pub struct Invocation {
    pub program: String,
    pub args: Vec<String>,
}

/// `flag` when `on` holds the value `true`, else nothing.
pub open spec fn switch(on: Option<bool>, flag: Seq<char>) -> Seq<Seq<char>> {
    if on == Some(true) {
        seq![flag]
    } else {
        seq![]
    }
}

/// `option` followed by the value, when there is one.
pub open spec fn valued(option: Seq<char>, value: Option<Seq<char>>) -> Seq<Seq<char>> {
    match value {
        Some(v) => seq![option, v],
        None => seq![],
    }
}

/// The caller's arguments, or the artifact's default ones when the caller
/// gives none.
pub open spec fn script_args(given: Seq<Seq<char>>, defaults: Option<Seq<Seq<char>>>) -> Seq<Seq<char>> {
    if given.len() > 0 {
        given
    } else {
        match defaults {
            Some(d) => d,
            None => seq![],
        }
    }
}

/// Resolved form of an optional reference.
pub open spec fn resolve_opt(r: Option<Seq<char>>, repo: Seq<char>) -> Option<Seq<char>> {
    match r {
        Some(m) => Some(resolve_ref(m, repo)),
        None => None,
    }
}

/// Flags shared by remote and local runs, after the leading mode flags:
/// unstable, permissions, import map, engine flags, compat.
pub open spec fn feature_args(a: ArtifactView, import_map: Option<Seq<char>>) -> Seq<Seq<char>> {
    switch(a.unstable, "--unstable"@) + permission_flags(a.permissions) + valued(
        "--import-map"@,
        import_map,
    ) + valued("--v8-flags"@, a.v8_flags) + switch(a.compat, "--compat"@)
}

/// Arguments that run an artifact of repository `repo` from its URL.
pub open spec fn run_args(
    a: ArtifactView,
    dbang_dir: Seq<char>,
    repo: Seq<char>,
    given: Seq<Seq<char>>,
) -> Seq<Seq<char>> {
    seq!["run"@, "--no-check"@, "--cached-only"@] + feature_args(a, resolve_opt(a.import_map, repo))
        + seq![
        "--config"@,
        catalog_dir(dbang_dir, repo) + "/deno.json"@,
        resolve_ref(a.script_ref, repo),
    ] + script_args(given, a.args)
}

/// Arguments that run an artifact of a catalog document in a local
/// directory; references are paths relative to that directory.
pub open spec fn run_local_args(a: ArtifactView, given: Seq<Seq<char>>) -> Seq<Seq<char>> {
    seq!["run"@, "--no-check"@] + feature_args(a, a.import_map) + seq![a.script_ref] + script_args(
        given,
        a.args,
    )
}

/// Arguments that refresh the interpreter's module cache for a script.
pub open spec fn cache_args(script: Seq<char>, import_map: Option<Seq<char>>) -> Seq<Seq<char>> {
    seq!["cache"@, "--no-check"@, "--unstable"@, "--reload"@, "--quiet"@] + valued(
        "--import-map"@,
        import_map,
    ) + seq![script]
}

fn push_switch(v: &mut Vec<String>, on: Option<bool>, flag: &str)
    ensures
        strs(final(v)@) == strs(old(v)@) + switch(on, flag@),
{
    if on == Some(true) {
        push_text(v, flag);
        assert(strs(old(v)@).push(flag@) =~= strs(old(v)@) + switch(on, flag@));
    } else {
        assert(strs(old(v)@) =~= strs(old(v)@) + switch(on, flag@));
    }
}

fn push_valued(v: &mut Vec<String>, option: &str, value: &Option<String>)
    ensures
        strs(final(v)@) == strs(old(v)@) + valued(
            option@,
            opt_str(*value),
        ),
{
    match value {
        Some(s) => {
            push_text(v, option);
            push_text(v, s.as_str());
            assert(strs(old(v)@).push(option@).push(s@) =~= strs(old(v)@) + seq![option@, s@]);
        },
        None => {
            assert(strs(old(v)@) =~= strs(old(v)@) + Seq::<Seq<char>>::empty());
        },
    }
}

fn push_script_args(v: &mut Vec<String>, given: &Vec<String>, defaults: &Option<Vec<String>>)
    ensures
        strs(final(v)@) == strs(old(v)@) + script_args(
            strs(given@),
            opt_strs(*defaults),
        ),
{
    if given.len() > 0 {
        extend_texts(v, given);
    } else {
        match defaults {
            Some(d) => {
                extend_texts(v, d);
            },
            None => {
                assert(strs(old(v)@) =~= strs(old(v)@) + Seq::<Seq<char>>::empty());
            },
        }
    }
}

fn push_features(v: &mut Vec<String>, artifact: &Artifact, import_map: &Option<String>)
    ensures
        strs(final(v)@) == strs(old(v)@) + feature_args(
            artifact@,
            opt_str(*import_map),
        ),
{
    let ghost v0 = strs(v@);
    push_switch(v, artifact.unstable, "--unstable");
    let flags = artifact.get_deno_permissions();
    extend_texts(v, &flags);
    push_valued(v, "--import-map", import_map);
    push_valued(v, "--v8-flags", &artifact.v8_flags);
    push_switch(v, artifact.compat, "--compat");
    let ghost im = opt_str(*import_map);
    assert(strs(v@) =~= v0 + feature_args(artifact@, im));
}

/// The invocation that runs `artifact` of repository `repo_name` from its
/// URL with the arguments `args`, or with the artifact's default arguments
/// when `args` is empty. `default_installed` tells whether a default
/// interpreter version is linked.
pub fn run_command(
    dbang_dir: &str,
    repo_name: &str,
    artifact: &Artifact,
    args: &Vec<String>,
    default_installed: bool,
) -> (r: Invocation)
    ensures
        r.program@ == interpreter_path(artifact@.deno, dbang_dir@, default_installed),
        strs(r.args@) == run_args(artifact@, dbang_dir@, repo_name@, strs(args@)),
{
    let program = artifact.get_deno_bin_path(dbang_dir, default_installed);
    let mut v: Vec<String> = Vec::new();
    push_text(&mut v, "run");
    push_text(&mut v, "--no-check");
    push_text(&mut v, "--cached-only");
    let import_map = match &artifact.import_map {
        Some(_) => artifact.get_import_map_http_url(repo_name).ok(),
        None => None,
    };
    push_features(&mut v, artifact, &import_map);
    push_text(&mut v, "--config");
    let config = artifact.get_deno_config(dbang_dir, repo_name);
    push_text(&mut v, config.as_str());
    let url = artifact.get_script_http_url(repo_name);
    push_text(&mut v, url.as_str());
    push_script_args(&mut v, args, &artifact.args);
    assert(strs(v@) =~= run_args(artifact@, dbang_dir@, repo_name@, strs(args@)));
    Invocation { program, args: v }
}

/// The invocation that runs `artifact` of a catalog document found in a
/// local directory; the caller runs it in that directory.
pub fn run_local_command(
    dbang_dir: &str,
    artifact: &Artifact,
    args: &Vec<String>,
    default_installed: bool,
) -> (r: Invocation)
    ensures
        r.program@ == interpreter_path(artifact@.deno, dbang_dir@, default_installed),
        strs(r.args@) == run_local_args(artifact@, strs(args@)),
{
    let program = artifact.get_deno_bin_path(dbang_dir, default_installed);
    let mut v: Vec<String> = Vec::new();
    push_text(&mut v, "run");
    push_text(&mut v, "--no-check");
    push_features(&mut v, artifact, &artifact.import_map);
    push_text(&mut v, artifact.script_ref.as_str());
    push_script_args(&mut v, args, &artifact.args);
    assert(strs(v@) =~= run_local_args(artifact@, strs(args@)));
    Invocation { program, args: v }
}

/// The invocation that refreshes the interpreter's module cache for
/// `script_url`, with the import map when there is one.
pub fn cache_command(deno_bin_path: &str, script_url: &str, import_map: &Option<String>) -> (r: Invocation)
    ensures
        r.program@ == deno_bin_path@,
        strs(r.args@) == cache_args(
            script_url@,
            opt_str(*import_map),
        ),
{
    let mut v: Vec<String> = Vec::new();
    push_text(&mut v, "cache");
    push_text(&mut v, "--no-check");
    push_text(&mut v, "--unstable");
    push_text(&mut v, "--reload");
    push_text(&mut v, "--quiet");
    push_valued(&mut v, "--import-map", import_map);
    push_text(&mut v, script_url);
    let ghost im = opt_str(*import_map);
    assert(strs(v@) =~= cache_args(script_url@, im));
    Invocation { program: String::from_str(deno_bin_path), args: v }
}

} // verus!
