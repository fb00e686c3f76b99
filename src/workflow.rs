//! Decisions of the command front end: how a catalog is acquired, how a
//! confirmation answer and a qualified reference are read, and which
//! command names an installed script may take.

use vstd::prelude::*;
use crate::catalog::is_absolute_url;
use crate::dbang_utils::{before_first, prefix_before};
use crate::text::{
    contains_char, find_char, first_index_of, has_prefix, lemma_first_index_of, same_text,
    starts_with,
};

verus! {

/// How the catalog of a referenced repository is obtained.
#[derive(Debug, Clone, Copy, PartialEq, Eq, Structural)]
pub enum Acquisition {
    /// The local copy is used; nothing is fetched and nobody is asked.
    UseLocal,
    /// The repository is trusted: fetch the latest document, save it and
    /// warm the module cache, without asking.
    FetchTrusted,
    /// Fetch the document, show it and ask; save it and warm the module
    /// cache only when the answer accepts it.
    FetchAndConfirm,
}

/// How the catalog of a repository is obtained, given whether a local copy
/// exists and whether the repository is trusted.
pub open spec fn acquisition_of(local_exists: bool, trusted: bool) -> Acquisition {
    if local_exists {
        Acquisition::UseLocal
    } else if trusted {
        Acquisition::FetchTrusted
    } else {
        Acquisition::FetchAndConfirm
    }
}

/// How the catalog of a repository is obtained: a local copy is used as it
/// is, even for an untrusted repository; else a trusted repository's
/// document is fetched silently, and any other is fetched and confirmed.
pub fn acquisition(local_exists: bool, trusted: bool) -> (r: Acquisition)
    ensures
        r == acquisition_of(local_exists, trusted),
{
    if local_exists {
        Acquisition::UseLocal
    } else if trusted {
        Acquisition::FetchTrusted
    } else {
        Acquisition::FetchAndConfirm
    }
}

/// How the catalog of a repository is obtained when the document that
/// `acquisition` sends for has been shown and `answer` given (ignored
/// unless asked for): `None` when the catalog is refused.
pub fn after_fetch(step: Acquisition, answer: &str) -> (r: Option<Acquisition>)
    ensures
        step == Acquisition::FetchAndConfirm ==> (r is Some <==> accepts_answer(answer@)),
        step != Acquisition::FetchAndConfirm ==> r == Some(step),
{
    match step {
        Acquisition::FetchAndConfirm => if accepts(answer) {
            Some(step)
        } else {
            None
        },
        _ => Some(step),
    }
}

/// White space as Rust's `char::is_whitespace` defines it.
pub open spec fn is_space(c: char) -> bool {
    let u = c as u32;
    (0x9 <= u <= 0xd) || u == 0x20 || u == 0x85 || u == 0xa0 || u == 0x1680 || (0x2000 <= u
        <= 0x200a) || u == 0x2028 || u == 0x2029 || u == 0x202f || u == 0x205f || u == 0x3000
}

/// An answer accepts when, white space trimmed, it starts with `y`.
pub open spec fn accepts_answer(s: Seq<char>) -> bool {
    exists|i: int| 0 <= i < s.len() && s[i] == 'y' && forall|j: int| 0 <= j < i ==> is_space(#[trigger] s[j])
}

fn space(c: char) -> (r: bool)
    ensures
        r == is_space(c),
{
    let u = c as u32;
    (0x9 <= u && u <= 0xd) || u == 0x20 || u == 0x85 || u == 0xa0 || u == 0x1680 || (0x2000 <= u
        && u <= 0x200a) || u == 0x2028 || u == 0x2029 || u == 0x202f || u == 0x205f || u == 0x3000
}

/// Whether a confirmation answer accepts: its trimmed form starts with `y`
/// (lower case only).
pub fn accepts(answer: &str) -> (r: bool)
    ensures
        r == accepts_answer(answer@),
{
    let n = answer.unicode_len();
    let mut i: usize = 0;
    while i < n
        invariant
            n == answer@.len(),
            i <= n,
            forall|j: int| 0 <= j < i ==> is_space(#[trigger] answer@[j]),
        decreases n - i,
    {
        let c = answer.get_char(i);
        if c == 'y' {
            return true;
        }
        if !space(c) {
            proof {
                assert forall|k: int|
                    !(0 <= k < answer@.len() && answer@[k] == 'y' && forall|j: int|
                        0 <= j < k ==> is_space(#[trigger] answer@[j])) by {
                    if 0 <= k < answer@.len() && answer@[k] == 'y' {
                        if k < i {
                            assert(is_space(answer@[k]));
                            assert(!is_space('y'));
                        } else if k > i {
                            assert(!is_space(answer@[i as int]));
                        }
                    }
                }
            }
            return false;
        }
        i += 1;
    }
    proof {
        assert forall|k: int| !(0 <= k < answer@.len() && answer@[k] == 'y' && forall|j: int|
            0 <= j < k ==> is_space(#[trigger] answer@[j])) by {
            if 0 <= k < answer@.len() && answer@[k] == 'y' {
                assert(is_space(answer@[k]));
                assert(!is_space('y'));
            }
        }
    }
    false
}

/// The part of `s` after its first `c`, when it has one.
pub open spec fn after_first(s: Seq<char>, c: char) -> Option<Seq<char>> {
    match first_index_of(s, c) {
        Some(i) => Some(s.subrange(i + 1, s.len() as int)),
        None => None,
    }
}

/// The script and repository names of a qualified reference
/// `script@repository`: the parts before the first `@` and between it and
/// the next `@` (or the end).
pub open spec fn qualified_parts(s: Seq<char>) -> Option<(Seq<char>, Seq<char>)> {
    match after_first(s, '@') {
        Some(rest) => Some((before_first(s, '@'), before_first(rest, '@'))),
        None => None,
    }
}

/// Splits a qualified reference `script@repository` into the script name
/// and the repository name; `None` for a plain script name, which names a
/// script of a catalog document found locally.
pub fn split_qualified(full_name: &str) -> (r: Option<(String, String)>)
    ensures
        r matches Some(p) ==> qualified_parts(full_name@) == Some((p.0@, p.1@)),
        r is None ==> qualified_parts(full_name@) is None,
{
    proof {
        lemma_first_index_of(full_name@, '@');
    }
    match find_char(full_name, '@') {
        Some(i) => {
            let n = full_name.unicode_len();
            let script = String::from_str(full_name.substring_char(0, i));
            let repo = prefix_before(full_name.substring_char(i + 1, n), '@');
            Some((script, repo))
        },
        None => None,
    }
}

/// The part of `s` after its last `c`; all of `s` when it has none.
pub open spec fn after_last(s: Seq<char>, c: char) -> Seq<char>
    decreases s.len(),
{
    if s.len() == 0 {
        s
    } else if s.last() == c {
        Seq::empty()
    } else {
        after_last(s.drop_last(), c).push(s.last())
    }
}

proof fn lemma_after_last(s: Seq<char>, c: char, k: int)
    requires
        0 <= k <= s.len(),
        k > 0 ==> s[k - 1] == c,
        forall|j: int| k <= j < s.len() ==> s[j] != c,
    ensures
        after_last(s, c) == s.subrange(k, s.len() as int),
    decreases s.len(),
{
    if s.len() == k {
        if k > 0 {
            assert(s.last() == c);
        }
        assert(s.subrange(k, k) =~= Seq::<char>::empty());
    } else {
        lemma_after_last(s.drop_last(), c, k);
        assert(s.subrange(k, s.len() as int) =~= s.drop_last().subrange(k, s.len() - 1).push(s.last()));
    }
}

/// The part of `s` after its last `c`; all of `s` when it has none.
pub fn suffix_after_last(s: &str, c: char) -> (r: String)
    ensures
        r@ == after_last(s@, c),
{
    let n = s.unicode_len();
    let mut k: usize = n;
    while k > 0
        invariant
            n == s@.len(),
            k <= n,
            forall|j: int| k <= j < n ==> s@[j] != c,
        ensures
            n == s@.len(),
            k <= n,
            forall|j: int| k <= j < n ==> s@[j] != c,
            k > 0 ==> s@[k - 1] == c,
        decreases k,
    {
        if s.get_char(k - 1) == c {
            break;
        }
        k -= 1;
    }
    proof {
        lemma_after_last(s@, c, k as int);
    }
    String::from_str(s.substring_char(k, n))
}

/// Command name under which a script reference is installed when none is
/// given: the last path segment of a URL, else the script name of a
/// qualified reference, else the reference itself.
pub open spec fn default_app_name(full_name: Seq<char>) -> Seq<char> {
    if is_absolute_url(full_name) {
        after_last(full_name, '/')
    } else if full_name.contains('@') {
        before_first(full_name, '@')
    } else {
        full_name
    }
}

/// Command name under which a script reference is installed when none is
/// given.
pub fn app_name_for(full_name: &str) -> (r: String)
    ensures
        r@ == default_app_name(full_name@),
{
    if starts_with(full_name, "http://") || starts_with(full_name, "https://") {
        suffix_after_last(full_name, '/')
    } else if contains_char(full_name, '@') {
        prefix_before(full_name, '@')
    } else {
        String::from_str(full_name)
    }
}

/// Names kept for the launcher and the interpreter themselves.
pub open spec fn reserved_name(name: Seq<char>) -> bool {
    name == "dbang"@ || has_prefix(name, "dbang-"@) || name == "deno"@
}

/// Whether a command name is kept for the launcher or the interpreter:
/// `dbang`, `deno` and any name starting with `dbang-`.
pub fn is_reserved_app_name(name: &str) -> (r: bool)
    ensures
        r == reserved_name(name@),
{
    same_text(name, "dbang") || starts_with(name, "dbang-") || same_text(name, "deno")
}

} // verus!
