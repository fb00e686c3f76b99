use dbang::catalog::Artifact;
use dbang::deno_cli::{cache_command, run_command, run_local_command};

fn texts(v: &[&str]) -> Vec<String> {
    v.iter().map(|s| s.to_string()).collect()
}

#[test]
fn plain_run_arguments() {
    let artifact = Artifact::new("hello.ts");
    let inv = run_command("/d", "alice/scripts", &artifact, &Vec::new(), false);
    assert_eq!(inv.program, "deno");
    assert_eq!(
        inv.args,
        texts(&[
            "run",
            "--no-check",
            "--cached-only",
            "--config",
            "/d/catalogs/github/alice/scripts/deno.json",
            "https://raw.githubusercontent.com/alice/scripts/HEAD/hello.ts"
        ])
    );
}

#[test]
fn full_run_arguments_in_order() {
    let mut artifact = Artifact::new("main.ts");
    artifact.unstable = Some(true);
    artifact.permissions = Some(texts(&["allow-net", "-A"]));
    artifact.import_map = Some("map.json".to_string());
    artifact.v8_flags = Some("--max-old-space-size=100".to_string());
    artifact.compat = Some(true);
    artifact.deno = Some("1.17.1".to_string());
    artifact.args = Some(texts(&["default"]));
    let inv = run_command("/d", "alice", &artifact, &Vec::new(), true);
    assert_eq!(inv.program, "/d/deno/1.17.1/deno");
    assert_eq!(
        inv.args,
        texts(&[
            "run",
            "--no-check",
            "--cached-only",
            "--unstable",
            "--allow-net",
            "--A",
            "--import-map",
            "https://raw.githubusercontent.com/alice/dbang-catalog/HEAD/map.json",
            "--v8-flags",
            "--max-old-space-size=100",
            "--compat",
            "--config",
            "/d/catalogs/github/alice/dbang-catalog/deno.json",
            "https://raw.githubusercontent.com/alice/dbang-catalog/HEAD/main.ts",
            "default"
        ])
    );
    let given = run_command("/d", "alice", &artifact, &texts(&["x", "y"]), true);
    assert_eq!(&given.args[given.args.len() - 2..], &texts(&["x", "y"])[..]);
    assert!(!given.args.contains(&"default".to_string()));
}

#[test]
fn false_switches_add_no_flags() {
    let mut artifact = Artifact::new("a.ts");
    artifact.unstable = Some(false);
    artifact.compat = Some(false);
    let inv = run_local_command("/d", &artifact, &Vec::new(), true);
    assert_eq!(inv.program, "/d/bin/deno");
    assert_eq!(inv.args, texts(&["run", "--no-check", "a.ts"]));
}

#[test]
fn local_run_keeps_relative_references() {
    let mut artifact = Artifact::new("scripts/a.ts");
    artifact.import_map = Some("map.json".to_string());
    let inv = run_local_command("/d", &artifact, &texts(&["-v"]), false);
    assert_eq!(inv.args, texts(&["run", "--no-check", "--import-map", "map.json", "scripts/a.ts", "-v"]));
}

#[test]
fn cache_arguments() {
    let inv = cache_command("deno", "https://e.com/a.ts", &None);
    assert_eq!(inv.program, "deno");
    assert_eq!(inv.args, texts(&["cache", "--no-check", "--unstable", "--reload", "--quiet", "https://e.com/a.ts"]));
    let with_map = cache_command("deno", "https://e.com/a.ts", &Some("https://e.com/m.json".to_string()));
    assert_eq!(
        with_map.args,
        texts(&[
            "cache",
            "--no-check",
            "--unstable",
            "--reload",
            "--quiet",
            "--import-map",
            "https://e.com/m.json",
            "https://e.com/a.ts"
        ])
    );
}
