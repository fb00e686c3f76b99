//! Selection of the access token for the raw-content host.

use vstd::prelude::*;
use crate::text::{contains_str, find_char, first_index_of, lemma_first_index_of, occurs_in};

verus! {

/// The part of `s` before the first `c`, or all of `s` when it has none.
pub open spec fn before_first(s: Seq<char>, c: char) -> Seq<char> {
    match first_index_of(s, c) {
        Some(i) => s.subrange(0, i),
        None => s,
    }
}

/// The token of the first `;`-separated pair of `t` that names the
/// raw-content host: the part of that pair before its first `@`.
pub open spec fn auth_token_of(t: Seq<char>) -> Option<Seq<char>>
    decreases t.len(),
{
    match first_index_of(t, ';') {
        Some(i) => if 0 <= i < t.len() {
            if occurs_in(t.subrange(0, i), "@raw.githubusercontent.com"@) {
                Some(before_first(t.subrange(0, i), '@'))
            } else {
                auth_token_of(t.subrange(i + 1, t.len() as int))
            }
        } else {
            None
        },
        None => if occurs_in(t, "@raw.githubusercontent.com"@) {
            Some(before_first(t, '@'))
        } else {
            None
        },
    }
}

/// The part of `s` before its first `c`.
pub fn prefix_before(s: &str, c: char) -> (r: String)
    ensures
        r@ == before_first(s@, c),
{
    proof {
        lemma_first_index_of(s@, c);
    }
    match find_char(s, c) {
        Some(i) => String::from_str(s.substring_char(0, i)),
        None => String::from_str(s),
    }
}

/// The token for the raw-content host in a list of `token@host` pairs
/// separated by `;`, as the interpreter reads it from its environment.
pub fn github_auth_token(tokens: &str) -> (r: Option<String>)
    ensures
        r matches Some(t) ==> auth_token_of(tokens@) == Some(t@),
        r is None ==> auth_token_of(tokens@) is None,
{
    let n = tokens.unicode_len();
    let mut start: usize = 0;
    let mut i: usize = 0;
    assert(tokens@.subrange(0, n as int) =~= tokens@);
    while i < n
        invariant
            n == tokens@.len(),
            start <= i <= n,
            forall|k: int| start <= k < i ==> tokens@[k] != ';',
            auth_token_of(tokens@) == auth_token_of(tokens@.subrange(start as int, n as int)),
        decreases n - i,
    {
        if tokens.get_char(i) == ';' {
            let ghost rest = tokens@.subrange(start as int, n as int);
            proof {
                lemma_first_index_of(rest, ';');
                assert forall|k: int| 0 <= k < i - start implies rest[k] != ';' by {
                    assert(rest[k] == tokens@[start + k]);
                }
                assert(rest.contains(';')) by {
                    assert(rest[i - start] == ';');
                }
                let f = first_index_of(rest, ';')->Some_0;
                assert(f == i - start) by {
                    if f < i - start {
                        assert(rest[f] != ';');
                    }
                    if f > i - start {
                        assert(rest[i - start] != ';');
                    }
                }
                assert(rest.subrange(0, i - start) =~= tokens@.subrange(start as int, i as int));
                assert(rest.subrange(i - start + 1, rest.len() as int) =~= tokens@.subrange(
                    i + 1,
                    n as int,
                ));
            }
            let pair = tokens.substring_char(start, i);
            if contains_str(pair, "@raw.githubusercontent.com") {
                return Some(prefix_before(pair, '@'));
            }
            i += 1;
            start = i;
        } else {
            i += 1;
        }
    }
    let ghost rest = tokens@.subrange(start as int, n as int);
    proof {
        lemma_first_index_of(rest, ';');
        assert forall|k: int| 0 <= k < rest.len() implies rest[k] != ';' by {
            assert(rest[k] == tokens@[start + k]);
        }
    }
    let pair = tokens.substring_char(start, n);
    if contains_str(pair, "@raw.githubusercontent.com") {
        Some(prefix_before(pair, '@'))
    } else {
        None
    }
}

} // verus!
