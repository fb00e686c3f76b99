//! The alias store: installed command names, each standing for a qualified
//! script reference `script@repository`. It is kept as a JSON object.

use vstd::prelude::*;
use crate::error::DbangError;
use crate::text::same_text;

verus! {

/// An alias entry as a pair of character sequences.
pub open spec fn entry_view(p: (String, String)) -> (Seq<char>, Seq<char>) {
    (p.0@, p.1@)
}

/// The entries of a store as pairs of character sequences.
pub open spec fn entries_view(v: Seq<(String, String)>) -> Seq<(Seq<char>, Seq<char>)> {
    v.map_values(|p: (String, String)| entry_view(p))
}

/// No alias name occurs twice.
pub open spec fn unique_names(s: Seq<(Seq<char>, Seq<char>)>) -> bool {
    forall|i: int, j: int| 0 <= i < j < s.len() ==> s[i].0 != s[j].0
}

/// The store as a map from alias name to reference; a later entry of a
/// name wins over an earlier one.
pub open spec fn alias_map(s: Seq<(Seq<char>, Seq<char>)>) -> Map<Seq<char>, Seq<char>>
    decreases s.len(),
{
    if s.len() == 0 {
        Map::empty()
    } else {
        alias_map(s.drop_last()).insert(s.last().0, s.last().1)
    }
}

/// Whether the store has an entry for `name`.
pub open spec fn has_alias(s: Seq<(Seq<char>, Seq<char>)>, name: Seq<char>) -> bool {
    exists|i: int| 0 <= i < s.len() && s[i].0 == name
}

/// The reference that `name` stands for, if any.
pub open spec fn alias_lookup(s: Seq<(Seq<char>, Seq<char>)>, name: Seq<char>) -> Option<Seq<char>> {
    if has_alias(s, name) {
        let i = choose|i: int| 0 <= i < s.len() && s[i].0 == name;
        Some(s[i].1)
    } else {
        None
    }
}

/// Holds of the entries whose name (`by_name`) or reference (otherwise)
/// differs from `x`.
pub open spec fn differs(x: Seq<char>, by_name: bool) -> spec_fn((Seq<char>, Seq<char>)) -> bool {
    |e: (Seq<char>, Seq<char>)| if by_name {
        e.0 != x
    } else {
        e.1 != x
    }
}

/// What serde_json reads from a text as a JSON object of strings: its
/// entries in the order of their names, or `None` where the text is not
/// such an object.
pub uninterp spec fn alias_document_entries(text: Seq<char>) -> Option<Seq<(Seq<char>, Seq<char>)>>;

/// The JSON text that serde_json writes for a map of strings.
pub uninterp spec fn alias_document_text(m: Map<Seq<char>, Seq<char>>) -> Seq<char>;

/// Relies on `serde_json::from_str` into a `BTreeMap<String, String>`: the
/// outcome depends on the text alone, and the map holds each name once.
#[verifier::external_body]
fn parse_alias_document(text: &str) -> (r: Option<Vec<(String, String)>>)
    ensures
        r is Some <==> alias_document_entries(text@) is Some,
        r matches Some(v) ==> entries_view(v@) == alias_document_entries(text@)->Some_0
            && unique_names(entries_view(v@)),
{
    match serde_json::from_str::<std::collections::BTreeMap<String, String>>(text) {
        Ok(m) => Some(m.into_iter().collect()),
        Err(_) => None,
    }
}

/// Relies on `serde_json::to_string` of a `BTreeMap<String, String>`: the
/// text depends on the map alone.
#[verifier::external_body]
fn write_alias_document(entries: &Vec<(String, String)>) -> (r: Option<String>)
    ensures
        r matches Some(t) ==> t@ == alias_document_text(alias_map(entries_view(entries@))),
{
    let m: std::collections::BTreeMap<String, String> = entries.iter().cloned().collect();
    serde_json::to_string(&m).ok()
}

/// The store held in the alias document `text`; an absent document holds
/// no aliases.
pub fn all(text: Option<&str>) -> (r: Result<Vec<(String, String)>, DbangError>)
    ensures
        text is None ==> (r matches Ok(v) && v@.len() == 0),
        text matches Some(t) ==> match alias_document_entries(t@) {
            Some(e) => (r matches Ok(v) && entries_view(v@) == e && unique_names(e)),
            None => r == Err::<Vec<(String, String)>, DbangError>(DbangError::Format),
        },
{
    match text {
        None => Ok(Vec::new()),
        Some(t) => match parse_alias_document(t) {
            Some(v) => Ok(v),
            None => Err(DbangError::Format),
        },
    }
}

/// The alias document that holds the store.
pub fn save(aliases: &Vec<(String, String)>) -> (r: Result<String, DbangError>)
    ensures
        r matches Ok(t) ==> t@ == alias_document_text(alias_map(entries_view(aliases@))),
        r is Err ==> r == Err::<String, DbangError>(DbangError::Format),
{
    match write_alias_document(aliases) {
        Some(t) => Ok(t),
        None => Err(DbangError::Format),
    }
}

/// Position of the entry of `alias`.
fn position_of(aliases: &Vec<(String, String)>, alias: &str) -> (r: Option<usize>)
    requires
        unique_names(entries_view(aliases@)),
    ensures
        r matches Some(i) ==> i < aliases@.len() && aliases@[i as int].0@ == alias@
            && alias_lookup(entries_view(aliases@), alias@) == Some(aliases@[i as int].1@),
        r is None ==> !has_alias(entries_view(aliases@), alias@),
{
    let ghost s = entries_view(aliases@);
    let mut i: usize = 0;
    while i < aliases.len()
        invariant
            s == entries_view(aliases@),
            unique_names(s),
            i <= aliases@.len(),
            forall|j: int| 0 <= j < i ==> aliases@[j].0@ != alias@,
        decreases aliases@.len() - i,
    {
        if same_text(aliases[i].0.as_str(), alias) {
            proof {
                assert(s[i as int].0 == alias@);
                assert(has_alias(s, alias@));
                let j = choose|j: int| 0 <= j < s.len() && s[j].0 == alias@;
                if j < i {
                    assert(s[j].0 != s[i as int].0);
                }
                if j > i {
                    assert(s[i as int].0 != s[j].0);
                }
            }
            return Some(i);
        }
        i += 1;
    }
    proof {
        assert forall|j: int| 0 <= j < s.len() implies s[j].0 != alias@ by {
            assert(s[j] == entry_view(aliases@[j]));
        }
    }
    None
}

/// The reference that `alias` stands for.
pub fn find_script_name_by_alias(aliases: &Vec<(String, String)>, alias: &str) -> (r: Option<String>)
    requires
        unique_names(entries_view(aliases@)),
    ensures
        r matches Some(v) ==> alias_lookup(entries_view(aliases@), alias@) == Some(v@),
        r is None ==> alias_lookup(entries_view(aliases@), alias@) is None,
{
    match position_of(aliases, alias) {
        Some(i) => Some(String::from_str(aliases[i].1.as_str())),
        None => None,
    }
}

/// Makes `alias` stand for `script_name`, in place of what it stood for.
pub fn add(aliases: &mut Vec<(String, String)>, alias: String, script_name: String)
    requires
        unique_names(entries_view(old(aliases)@)),
    ensures
        unique_names(entries_view(final(aliases)@)),
        alias_lookup(entries_view(final(aliases)@), alias@) == Some(script_name@),
        forall|k: Seq<char>|
            k != alias@ ==> alias_lookup(entries_view(final(aliases)@), k) == alias_lookup(
                entries_view(old(aliases)@),
                k,
            ),
{
    let ghost a = alias@;
    let ghost v = script_name@;
    let ghost s0 = entries_view(aliases@);
    match position_of(aliases, alias.as_str()) {
        Some(i) => {
            aliases.set(i, (alias, script_name));
            let ghost s1 = entries_view(aliases@);
            assert(s1 =~= s0.update(i as int, (a, v)));
            assert(s1[i as int].0 == a);
            assert(has_alias(s1, a));
            assert forall|x: int, y: int| 0 <= x < y < s1.len() implies s1[x].0 != s1[y].0 by {
                assert(s1[x].0 == s0[x].0 && s1[y].0 == s0[y].0);
            }
            let ghost j = choose|j: int| 0 <= j < s1.len() && s1[j].0 == a;
            assert(j == i) by {
                if j < i {
                    assert(s1[j].0 != s1[i as int].0);
                }
                if j > i {
                    assert(s1[i as int].0 != s1[j].0);
                }
            }
            assert(alias_lookup(s1, a) == Some(v));
            assert forall|k: Seq<char>| k != a implies alias_lookup(s1, k) == alias_lookup(s0, k) by {
                assert forall|j: int| 0 <= j < s1.len() implies (s1[j].0 == k <==> s0[j].0 == k) by {}
            }
        },
        None => {
            aliases.push((alias, script_name));
            let ghost s1 = entries_view(aliases@);
            assert(s1 =~= s0.push((a, v)));
            let ghost n = s0.len() as int;
            assert(s1[n].0 == a);
            assert(has_alias(s1, a));
            assert forall|x: int, y: int| 0 <= x < y < s1.len() implies s1[x].0 != s1[y].0 by {
                if y == n {
                    assert(s0[x].0 != a);
                } else {
                    assert(s1[x].0 == s0[x].0 && s1[y].0 == s0[y].0);
                }
            }
            let ghost j = choose|j: int| 0 <= j < s1.len() && s1[j].0 == a;
            assert(j == n) by {
                if j < n {
                    assert(s0[j].0 == a);
                }
            }
            assert(alias_lookup(s1, a) == Some(v));
            assert forall|k: Seq<char>| k != a implies alias_lookup(s1, k) == alias_lookup(s0, k) by {
                if has_alias(s1, k) {
                    let j = choose|j: int| 0 <= j < s1.len() && s1[j].0 == k;
                    assert(s0[j].0 == k);
                }
                if has_alias(s0, k) {
                    let j = choose|j: int| 0 <= j < s0.len() && s0[j].0 == k;
                    assert(s1[j].0 == k);
                }
            }
        },
    }
}

/// Removes the entry of `alias`; nothing changes when there is none.
pub fn remove(aliases: &mut Vec<(String, String)>, alias: &str)
    requires
        unique_names(entries_view(old(aliases)@)),
    ensures
        unique_names(entries_view(final(aliases)@)),
        entries_view(final(aliases)@) == entries_view(old(aliases)@).filter(differs(alias@, true)),
{
    let kept = keep_where(aliases, alias, true);
    *aliases = kept;
}

/// Removes every alias that stands for `repo_name`.
pub fn remove_by_repo_name(aliases: &mut Vec<(String, String)>, repo_name: &str)
    requires
        unique_names(entries_view(old(aliases)@)),
    ensures
        unique_names(entries_view(final(aliases)@)),
        entries_view(final(aliases)@) == entries_view(old(aliases)@).filter(differs(repo_name@, false)),
{
    let kept = keep_where(aliases, repo_name, false);
    *aliases = kept;
}

/// The entries whose name (`by_name`) or reference differs from `x`.
fn keep_where(aliases: &Vec<(String, String)>, x: &str, by_name: bool) -> (kept: Vec<(String, String)>)
    requires
        unique_names(entries_view(aliases@)),
    ensures
        unique_names(entries_view(kept@)),
        entries_view(kept@) == entries_view(aliases@).filter(differs(x@, by_name)),
{
    let ghost s = entries_view(aliases@);
    let ghost p = differs(x@, by_name);
    let mut kept: Vec<(String, String)> = Vec::new();
    let mut i: usize = 0;
    proof {
        reveal(Seq::filter);
        assert(s.subrange(0, 0) =~= Seq::<(Seq<char>, Seq<char>)>::empty());
        assert(entries_view(kept@) =~= s.subrange(0, 0).filter(p));
    }
    while i < aliases.len()
        invariant
            s == entries_view(aliases@),
            p == differs(x@, by_name),
            unique_names(s),
            i <= aliases@.len(),
            entries_view(kept@) == s.subrange(0, i as int).filter(p),
            unique_names(entries_view(kept@)),
            forall|a: int|
                0 <= a < kept@.len() ==> exists|j: int| 0 <= j < i && #[trigger] s[j] == entry_view(
                    #[trigger] kept@[a],
                ),
        decreases aliases@.len() - i,
    {
        let ghost prev = s.subrange(0, i as int);
        let ghost e = s[i as int];
        proof {
            assert(s.subrange(0, i + 1) =~= prev.push(e));
            prev.lemma_filter_push(e, p);
        }
        let keep = if by_name {
            !same_text(aliases[i].0.as_str(), x)
        } else {
            !same_text(aliases[i].1.as_str(), x)
        };
        if keep {
            let ghost k0 = kept@;
            let entry = (String::from_str(aliases[i].0.as_str()), String::from_str(aliases[i].1.as_str()));
            kept.push(entry);
            proof {
                assert(entries_view(kept@) =~= entries_view(k0).push(e));
                assert forall|a: int, b: int|
                    0 <= a < b < kept@.len() implies entries_view(kept@)[a].0 != entries_view(
                        kept@,
                    )[b].0 by {
                    if b == k0.len() {
                        let j = choose|j: int| 0 <= j < i && #[trigger] s[j] == entry_view(k0[a]);
                        assert(entries_view(kept@)[a] == s[j]);
                    } else {
                        assert(entries_view(kept@)[a] == entries_view(k0)[a]);
                        assert(entries_view(kept@)[b] == entries_view(k0)[b]);
                    }
                }
                assert forall|a: int| 0 <= a < kept@.len() implies exists|j: int|
                    0 <= j < i + 1 && #[trigger] s[j] == entry_view(#[trigger] kept@[a]) by {
                    if a == k0.len() {
                        assert(s[i as int] == entry_view(kept@[a]));
                    } else {
                        assert(kept@[a] == k0[a]);
                    }
                }
            }
        }
        i += 1;
    }
    assert(s.subrange(0, aliases@.len() as int) =~= s);
    kept
}

} // verus!
