//! Catalogs, artifacts and the rules that resolve them.

use vstd::prelude::*;
use crate::deno_cli::{cache_args, cache_command, resolve_opt, Invocation};
use crate::deno_versions::{default_deno_path, deno_binary_path, get_default_deno, get_deno_binary};
use crate::error::DbangError;
use crate::text::{
    clone_opt_text, clone_opt_texts, concat, concat3, contains_char, has_prefix, occurs_at, opt_str,
    opt_strs, same_text, starts_with, strs,
};

verus! {

/// Canonical form of a repository identifier: a bare user name stands for
/// that user's `dbang-catalog` repository.
pub open spec fn canon_repo(r: Seq<char>) -> Seq<char> {
    if r.contains('/') {
        r
    } else {
        r + "/dbang-catalog"@
    }
}

/// A bare user name gains the default repository name, an identifier with a
/// `/` is kept as it is, and canonicalising twice changes nothing.
pub proof fn lemma_canon_repo(r: Seq<char>)
    ensures
        !r.contains('/') ==> canon_repo(r) == r + "/dbang-catalog"@,
        r.contains('/') ==> canon_repo(r) == r,
        canon_repo(canon_repo(r)) == canon_repo(r),
{
    reveal_strlit("/dbang-catalog");
    if !r.contains('/') {
        assert((r + "/dbang-catalog"@)[r.len() as int] == '/');
    }
}

/// A reference that already is an absolute http(s) URL.
pub open spec fn is_absolute_url(r: Seq<char>) -> bool {
    has_prefix(r, "https://"@) || has_prefix(r, "http://"@)
}

/// URL of a file at the tip of a repository's default branch.
pub open spec fn content_url(repo: Seq<char>, path: Seq<char>) -> Seq<char> {
    "https://raw.githubusercontent.com/"@ + canon_repo(repo) + "/HEAD/"@ + path
}

/// A script or import-map reference resolved against its repository.
pub open spec fn resolve_ref(r: Seq<char>, repo: Seq<char>) -> Seq<char> {
    if is_absolute_url(r) {
        r
    } else {
        content_url(repo, r)
    }
}

/// Flag form of a permission token.
pub open spec fn normalize_permission(p: Seq<char>) -> Seq<char> {
    if has_prefix(p, "--"@) {
        p
    } else if has_prefix(p, "-"@) {
        "-"@ + p
    } else {
        "--"@ + p
    }
}

/// Flags for the declared permissions, in their declared order.
pub open spec fn permission_flags(p: Option<Seq<Seq<char>>>) -> Seq<Seq<char>> {
    match p {
        Some(ps) => ps.map_values(|x: Seq<char>| normalize_permission(x)),
        None => Seq::empty(),
    }
}

/// Whether a platform list admits the platform `os` / `arch`.
pub open spec fn platform_admits(p: Option<Seq<Seq<char>>>, os: Seq<char>, arch: Seq<char>) -> bool {
    match p {
        Some(ps) => exists|i: int| 0 <= i < ps.len() && (ps[i] == os || ps[i] == os + "-"@ + arch),
        None => true,
    }
}

/// A script reference that is an http(s) URL resolves to itself; any other
/// resolves to a URL on the content host that holds the canonical
/// repository identifier.
pub proof fn lemma_script_url(r: Seq<char>, repo: Seq<char>)
    ensures
        is_absolute_url(r) ==> resolve_ref(r, repo) == r,
        !is_absolute_url(r) ==> resolve_ref(r, repo) == content_url(repo, r) && occurs_at(
            resolve_ref(r, repo),
            canon_repo(repo),
            "https://raw.githubusercontent.com/"@.len() as int,
        ),
{
    let host = "https://raw.githubusercontent.com/"@;
    let u = content_url(repo, r);
    let k = host.len() as int;
    assert(u.subrange(k, k + canon_repo(repo).len()) =~= canon_repo(repo));
}

/// A platform token without a dash admits exactly its own system, whatever
/// the architecture; an `os-arch` token admits exactly that system and
/// architecture; no token list admits every platform. System names hold no
/// dash, as Rust's do not.
pub proof fn lemma_platform_tokens(os: Seq<char>, arch: Seq<char>, t: Seq<char>, a: Seq<char>)
    requires
        !os.contains('-'),
        !t.contains('-'),
    ensures
        platform_admits(None, os, arch),
        platform_admits(Some(seq![t]), os, arch) <==> os == t,
        platform_admits(Some(seq![t + "-"@ + a]), os, arch) <==> (os == t && arch == a),
{
    reveal_strlit("-");
    let full = os + "-"@ + arch;
    assert(full[os.len() as int] == '-');
    let one = seq![t];
    if platform_admits(Some(one), os, arch) {
        assert(one[0] == os || one[0] == full);
        if one[0] == full {
            assert(t.contains('-'));
        }
    }
    if os == t {
        assert(one[0] == os);
        lemma_platform_admits(Some(one), os, arch, 0);
    }
    let tok = t + "-"@ + a;
    let two = seq![tok];
    assert(tok[t.len() as int] == '-');
    if platform_admits(Some(two), os, arch) {
        assert(two[0] == os || two[0] == full);
        if two[0] == os {
            assert(os.contains('-'));
        } else {
            lemma_split_at_dash(os, arch, t, a);
        }
    }
    if os == t && arch == a {
        assert(two[0] == full);
        lemma_platform_admits(Some(two), os, arch, 0);
    }
}

/// `x-y == u-v` with no dash in `x` or `u` means `x == u` and `y == v`.
proof fn lemma_split_at_dash(x: Seq<char>, y: Seq<char>, u: Seq<char>, v: Seq<char>)
    requires
        !x.contains('-'),
        !u.contains('-'),
        x + "-"@ + y == u + "-"@ + v,
    ensures
        x == u,
        y == v,
{
    reveal_strlit("-");
    let l = x + "-"@ + y;
    let m = u + "-"@ + v;
    assert(l[x.len() as int] == '-');
    assert(m[u.len() as int] == '-');
    if x.len() < u.len() {
        assert(m[x.len() as int] == u[x.len() as int]);
        assert(u.contains('-'));
    }
    if u.len() < x.len() {
        assert(l[u.len() as int] == x[u.len() as int]);
        assert(x.contains('-'));
    }
    assert(x =~= l.subrange(0, x.len() as int));
    assert(u =~= m.subrange(0, u.len() as int));
    assert(y =~= l.subrange(x.len() as int + 1, l.len() as int));
    assert(v =~= m.subrange(u.len() as int + 1, m.len() as int));
}

/// Directory that holds the local copy of a repository's catalog.
pub open spec fn catalog_dir(dbang_dir: Seq<char>, repo: Seq<char>) -> Seq<char> {
    dbang_dir + "/catalogs/github/"@ + canon_repo(repo)
}

/// Interpreter that runs an artifact: its pinned version, else the default
/// version when one is installed, else `deno` from the search path.
pub open spec fn interpreter_path(
    deno: Option<Seq<char>>,
    dbang_dir: Seq<char>,
    default_installed: bool,
) -> Seq<char> {
    match deno {
        Some(v) => deno_binary_path(dbang_dir, v),
        None => if default_installed {
            default_deno_path(dbang_dir)
        } else {
            "deno"@
        },
    }
}

/// One runnable script of a catalog.
#[derive(Debug, Clone)]
pub struct Artifact {
    pub script_ref: String,
    pub description: Option<String>,
    pub compat: Option<bool>,
    pub import_map: Option<String>,
    pub deno: Option<String>,
    /// Admitted platforms, each `os` or `os-arch`.
    pub platforms: Option<Vec<String>>,
    pub unstable: Option<bool>,
    pub permissions: Option<Vec<String>>,
    pub args: Option<Vec<String>>,
    pub v8_flags: Option<String>,
}

/// What an artifact holds, as mathematical values.
pub struct ArtifactView {
    pub script_ref: Seq<char>,
    pub description: Option<Seq<char>>,
    pub compat: Option<bool>,
    pub import_map: Option<Seq<char>>,
    pub deno: Option<Seq<char>>,
    pub platforms: Option<Seq<Seq<char>>>,
    pub unstable: Option<bool>,
    pub permissions: Option<Seq<Seq<char>>>,
    pub args: Option<Seq<Seq<char>>>,
    pub v8_flags: Option<Seq<char>>,
}

impl View for Artifact {
    type V = ArtifactView;

    open spec fn view(&self) -> ArtifactView {
        ArtifactView {
            script_ref: self.script_ref@,
            description: opt_str(self.description),
            compat: self.compat,
            import_map: opt_str(self.import_map),
            deno: opt_str(self.deno),
            platforms: opt_strs(self.platforms),
            unstable: self.unstable,
            permissions: opt_strs(self.permissions),
            args: opt_strs(self.args),
            v8_flags: opt_str(self.v8_flags),
        }
    }
}

/// The artifacts that one repository publishes, by script name.
#[derive(Debug, Clone)]
pub struct Catalog {
    pub scripts: Vec<(String, Artifact)>,
}

impl Artifact {
    /// An artifact that runs `script_ref` and declares nothing else.
    pub fn new(script_ref: &str) -> (r: Artifact)
        ensures
            r@ == (ArtifactView {
                script_ref: script_ref@,
                description: None,
                compat: None,
                import_map: None,
                deno: None,
                platforms: None,
                unstable: None,
                permissions: None,
                args: None,
                v8_flags: None,
            }),
    {
        Artifact {
            script_ref: String::from_str(script_ref),
            description: None,
            compat: None,
            import_map: None,
            deno: None,
            platforms: None,
            unstable: None,
            permissions: None,
            args: None,
            v8_flags: None,
        }
    }

    /// A copy of this artifact.
    pub fn duplicate(&self) -> (r: Artifact)
        ensures
            r@ == self@,
    {
        Artifact {
            script_ref: String::from_str(self.script_ref.as_str()),
            description: clone_opt_text(&self.description),
            compat: self.compat,
            import_map: clone_opt_text(&self.import_map),
            deno: clone_opt_text(&self.deno),
            platforms: clone_opt_texts(&self.platforms),
            unstable: self.unstable,
            permissions: clone_opt_texts(&self.permissions),
            args: clone_opt_texts(&self.args),
            v8_flags: clone_opt_text(&self.v8_flags),
        }
    }

    /// The artifact named `artifact_name` in the local catalog of its
    /// repository.
    pub fn read_from_local(catalog: &Catalog, artifact_name: &str) -> (r: Result<Artifact, DbangError>)
        requires
            catalog.wf(),
        ensures
            catalog.artifact_named(artifact_name@) matches Some(a) ==> r matches Ok(x) && x@ == a,
            catalog.artifact_named(artifact_name@) is None ==> r == Err::<Artifact, DbangError>(DbangError::NotFound),
    {
        match catalog.find(artifact_name) {
            Some(i) => Ok(catalog.scripts[i].1.duplicate()),
            None => Err(DbangError::NotFound),
        }
    }

    /// URL of the script: `script_ref` itself when it is an absolute URL,
    /// else the file at the tip of the repository.
    pub fn get_script_http_url(&self, repo_name: &str) -> (r: String)
        ensures
            r@ == resolve_ref(self.script_ref@, repo_name@),
    {
        resolve_reference(self.script_ref.as_str(), repo_name)
    }

    /// URL of the import map, resolved as the script reference is.
    pub fn get_import_map_http_url(&self, repo_name: &str) -> (r: Result<String, DbangError>)
        ensures
            self@.import_map matches Some(m) ==> r matches Ok(u) && u@ == resolve_ref(m, repo_name@),
            self@.import_map is None ==> r == Err::<String, DbangError>(DbangError::Precondition),
    {
        match &self.import_map {
            Some(m) => Ok(resolve_reference(m.as_str(), repo_name)),
            None => Err(DbangError::Precondition),
        }
    }

    /// Path of the interpreter configuration file kept beside the local
    /// catalog of the repository.
    pub fn get_deno_config(&self, dbang_dir: &str, repo_name: &str) -> (r: String)
        ensures
            r@ == catalog_dir(dbang_dir@, repo_name@) + "/deno.json"@,
    {
        let dir = Catalog::local_dir(dbang_dir, repo_name);
        concat(dir.as_str(), "/deno.json")
    }

    /// The declared permissions in flag form.
    pub fn get_deno_permissions(&self) -> (r: Vec<String>)
        ensures
            strs(r@) == permission_flags(self@.permissions),
    {
        let mut out: Vec<String> = Vec::new();
        match &self.permissions {
            Some(ps) => {
                let mut i: usize = 0;
                while i < ps.len()
                    invariant
                        i <= ps@.len(),
                        strs(out@) == strs(ps@.subrange(0, i as int)).map_values(
                            |x: Seq<char>| normalize_permission(x),
                        ),
                    decreases ps@.len() - i,
                {
                    let flag = permission_flag(ps[i].as_str());
                    let ghost before = out@;
                    out.push(flag);
                    assert(strs(out@) =~= strs(before).push(flag@));
                    assert(strs(ps@.subrange(0, i + 1)).map_values(
                        |x: Seq<char>| normalize_permission(x),
                    ) =~= strs(ps@.subrange(0, i as int)).map_values(
                        |x: Seq<char>| normalize_permission(x),
                    ).push(normalize_permission(ps@[i as int]@)));
                    i += 1;
                }
                assert(ps@.subrange(0, ps@.len() as int) =~= ps@);
            },
            None => {
                assert(strs(out@) =~= Seq::<Seq<char>>::empty());
            },
        }
        out
    }

    /// Path of the interpreter that runs this artifact. `default_installed`
    /// tells whether a default interpreter version is linked.
    pub fn get_deno_bin_path(&self, dbang_dir: &str, default_installed: bool) -> (r: String)
        ensures
            r@ == interpreter_path(self@.deno, dbang_dir@, default_installed),
    {
        match &self.deno {
            Some(v) => get_deno_binary(dbang_dir, v.as_str()),
            None => {
                if default_installed {
                    get_default_deno(dbang_dir)
                } else {
                    String::from_str("deno")
                }
            },
        }
    }

    /// Whether the artifact may run on the platform `os` / `arch`: always
    /// when it declares no platforms, else when one declared token is `os`
    /// or `os-arch` exactly.
    pub fn is_platform_compatible(&self, os: &str, arch: &str) -> (r: bool)
        ensures
            r == platform_admits(self@.platforms, os@, arch@),
    {
        match &self.platforms {
            Some(ps) => {
                let full = concat3(os, "-", arch);
                let mut i: usize = 0;
                while i < ps.len()
                    invariant
                        i <= ps@.len(),
                        self@.platforms == Some(strs(ps@)),
                        full@ == os@ + "-"@ + arch@,
                        forall|j: int| 0 <= j < i ==> ps@[j]@ != os@ && ps@[j]@ != full@,
                    decreases ps@.len() - i,
                {
                    let p = ps[i].as_str();
                    if same_text(p, os) || same_text(p, full.as_str()) {
                        proof {
                            assert(strs(ps@)[i as int] == ps@[i as int]@);
                            lemma_platform_admits(self@.platforms, os@, arch@, i as int);
                        }
                        return true;
                    }
                    i += 1;
                }
                assert forall|j: int| 0 <= j < strs(ps@).len() implies
                    !(strs(ps@)[j] == os@ || strs(ps@)[j] == os@ + "-"@ + arch@) by {
                    assert(strs(ps@)[j] == ps@[j]@);
                }
                false
            },
            None => true,
        }
    }
}

proof fn lemma_platform_admits(p: Option<Seq<Seq<char>>>, os: Seq<char>, arch: Seq<char>, k: int)
    requires
        p matches Some(l) && 0 <= k < l.len() && (l[k] == os || l[k] == os + "-"@ + arch),
    ensures
        platform_admits(p, os, arch),
{
}

/// Flag form of one permission token.
pub fn permission_flag(p: &str) -> (r: String)
    ensures
        r@ == normalize_permission(p@),
{
    if starts_with(p, "--") {
        String::from_str(p)
    } else if starts_with(p, "-") {
        concat("-", p)
    } else {
        concat("--", p)
    }
}

/// A script or import-map reference resolved against its repository.
pub fn resolve_reference(r: &str, repo_name: &str) -> (u: String)
    ensures
        u@ == resolve_ref(r@, repo_name@),
{
    if starts_with(r, "https://") || starts_with(r, "http://") {
        String::from_str(r)
    } else {
        let repo = Catalog::get_full_repo_name(repo_name);
        let mut u = concat3("https://raw.githubusercontent.com/", repo.as_str(), "/HEAD/");
        u.append(r);
        u
    }
}

/// URL of a repository's catalog document, with the access token as user
/// information when there is one.
pub open spec fn catalog_document_url(catalog_full_name: Seq<char>, token: Option<Seq<char>>) -> Seq<char> {
    match token {
        Some(t) => "https://"@ + t + "@raw.githubusercontent.com/"@ + catalog_full_name
            + "/HEAD/dbang-catalog.json"@,
        None => "https://raw.githubusercontent.com/"@ + catalog_full_name + "/HEAD/dbang-catalog.json"@,
    }
}

/// URL of the catalog document of the repository `catalog_full_name`
/// (canonical form), fetched with `token` when there is one.
pub fn get_dbang_catalog_url_on_github(catalog_full_name: &str, token: Option<&str>) -> (r: String)
    ensures
        r@ == catalog_document_url(catalog_full_name@, opt_view(token)),
{
    match token {
        Some(t) => {
            let mut u = concat3("https://", t, "@raw.githubusercontent.com/");
            u.append(catalog_full_name);
            u.append("/HEAD/dbang-catalog.json");
            u
        },
        None => concat3("https://raw.githubusercontent.com/", catalog_full_name, "/HEAD/dbang-catalog.json"),
    }
}

/// The character sequence of an optional string slice.
pub open spec fn opt_view(o: Option<&str>) -> Option<Seq<char>> {
    match o {
        Some(s) => Some(s@),
        None => None,
    }
}

impl Catalog {
    /// Script names are unique.
    pub open spec fn wf(&self) -> bool {
        forall|i: int, j: int|
            0 <= i < j < self.scripts@.len() ==> self.scripts@[i].0@ != self.scripts@[j].0@
    }

    /// Whether a script of this name is in the catalog.
    pub open spec fn has_script(&self, name: Seq<char>) -> bool {
        exists|i: int| 0 <= i < self.scripts@.len() && self.scripts@[i].0@ == name
    }

    /// The artifact of a script name, if the catalog has one.
    pub open spec fn artifact_named(&self, name: Seq<char>) -> Option<ArtifactView> {
        if self.has_script(name) {
            let i = choose|i: int| 0 <= i < self.scripts@.len() && self.scripts@[i].0@ == name;
            Some(self.scripts@[i].1@)
        } else {
            None
        }
    }

    /// The invocations that pre-fetch every artifact of the catalog into the
    /// interpreter's module cache, in catalog order: each with its
    /// interpreter, its script URL and its resolved import map.
    pub fn cache_artifacts(&self, dbang_dir: &str, repo_name: &str, default_installed: bool) -> (r: Vec<
        Invocation,
    >)
        ensures
            r@.len() == self.scripts@.len(),
            forall|i: int|
                0 <= i < r@.len() ==> {
                    let a = #[trigger] self.scripts@[i].1@;
                    &&& r@[i].program@ == interpreter_path(a.deno, dbang_dir@, default_installed)
                    &&& strs(r@[i].args@) == cache_args(
                        resolve_ref(a.script_ref, repo_name@),
                        resolve_opt(a.import_map, repo_name@),
                    )
                },
    {
        let mut out: Vec<Invocation> = Vec::new();
        let mut i: usize = 0;
        while i < self.scripts.len()
            invariant
                i <= self.scripts@.len(),
                out@.len() == i,
                forall|j: int|
                    0 <= j < i ==> {
                        let a = #[trigger] self.scripts@[j].1@;
                        &&& out@[j].program@ == interpreter_path(a.deno, dbang_dir@, default_installed)
                        &&& strs(out@[j].args@) == cache_args(
                            resolve_ref(a.script_ref, repo_name@),
                            resolve_opt(a.import_map, repo_name@),
                        )
                    },
            decreases self.scripts@.len() - i,
        {
            let a = &self.scripts[i].1;
            let bin = a.get_deno_bin_path(dbang_dir, default_installed);
            let url = a.get_script_http_url(repo_name);
            let import_map = match &a.import_map {
                Some(_) => a.get_import_map_http_url(repo_name).ok(),
                None => None,
            };
            out.push(cache_command(bin.as_str(), url.as_str(), &import_map));
            i += 1;
        }
        out
    }

    /// A catalog without scripts.
    pub fn new() -> (r: Catalog)
        ensures
            r.wf(),
            r.scripts@.len() == 0,
    {
        Catalog { scripts: Vec::new() }
    }

    /// Position of the script named `name`.
    pub fn find(&self, name: &str) -> (r: Option<usize>)
        requires
            self.wf(),
        ensures
            r matches Some(i) ==> i < self.scripts@.len() && self.scripts@[i as int].0@ == name@
                && self.artifact_named(name@) == Some(self.scripts@[i as int].1@),
            r is None ==> !self.has_script(name@) && self.artifact_named(name@) is None,
    {
        let mut i: usize = 0;
        while i < self.scripts.len()
            invariant
                self.wf(),
                i <= self.scripts@.len(),
                forall|j: int| 0 <= j < i ==> self.scripts@[j].0@ != name@,
            decreases self.scripts@.len() - i,
        {
            if same_text(self.scripts[i].0.as_str(), name) {
                proof {
                    assert(self.has_script(name@));
                    let j = choose|j: int| 0 <= j < self.scripts@.len() && self.scripts@[j].0@ == name@;
                    if j < i {
                        assert(self.scripts@[j].0@ != self.scripts@[i as int].0@);
                    }
                    if j > i {
                        assert(self.scripts@[i as int].0@ != self.scripts@[j].0@);
                    }
                }
                return Some(i);
            }
            i += 1;
        }
        None
    }

    /// Adds `artifact` under `name`, in place of any artifact of that name.
    pub fn insert(&mut self, name: String, artifact: Artifact)
        requires
            old(self).wf(),
        ensures
            final(self).wf(),
            final(self).artifact_named(name@) == Some(artifact@),
            forall|k: Seq<char>| k != name@ ==> final(self).artifact_named(k) == old(self).artifact_named(k),
    {
        let ghost name_v = name@;
        let ghost art_v = artifact@;
        match self.find(name.as_str()) {
            Some(i) => {
                self.scripts.set(i, (name, artifact));
                assert(self.scripts@[i as int].0@ == name_v);
                assert forall|k: Seq<char>| k != name_v implies
                    self.artifact_named(k) == old(self).artifact_named(k) by {
                    assert forall|j: int| 0 <= j < self.scripts@.len() implies
                        (self.scripts@[j].0@ == k <==> old(self).scripts@[j].0@ == k) by {}
                }
                assert(self.has_script(name_v));
            },
            None => {
                self.scripts.push((name, artifact));
                let n = self.scripts.len() - 1;
                assert(self.scripts@[n as int].0@ == name_v);
                assert(self.has_script(name_v));
                assert forall|k: Seq<char>| k != name_v implies
                    self.artifact_named(k) == old(self).artifact_named(k) by {
                    if self.has_script(k) {
                        let j = choose|j: int| 0 <= j < self.scripts@.len() && self.scripts@[j].0@ == k;
                        assert(old(self).scripts@[j].0@ == k);
                    }
                    if old(self).has_script(k) {
                        let j = choose|j: int| 0 <= j < old(self).scripts@.len() && old(self).scripts@[j].0@ == k;
                        assert(self.scripts@[j].0@ == k);
                    }
                }
            },
        }
        assert(self.artifact_named(name_v) == Some(art_v));
    }

    /// The canonical `user/repo` form of a repository identifier.
    pub fn get_full_repo_name(repo_name: &str) -> (r: String)
        ensures
            r@ == canon_repo(repo_name@),
    {
        if !contains_char(repo_name, '/') {
            concat(repo_name, "/dbang-catalog")
        } else {
            String::from_str(repo_name)
        }
    }

    /// Directory that holds the local copy of a repository's catalog.
    pub fn local_dir(dbang_dir: &str, repo_name: &str) -> (r: String)
        ensures
            r@ == catalog_dir(dbang_dir@, repo_name@),
    {
        let repo = Catalog::get_full_repo_name(repo_name);
        concat3(dbang_dir, "/catalogs/github/", repo.as_str())
    }

    /// Path of the local copy of a repository's catalog document.
    pub fn local_file(dbang_dir: &str, repo_name: &str) -> (r: String)
        ensures
            r@ == catalog_dir(dbang_dir@, repo_name@) + "/dbang-catalog.json"@,
    {
        let dir = Catalog::local_dir(dbang_dir, repo_name);
        concat(dir.as_str(), "/dbang-catalog.json")
    }
}

} // verus!
