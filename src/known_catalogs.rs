//! The trust registry: repositories whose catalogs are accepted without
//! asking. It is kept as text, one canonical repository identifier per line.

use vstd::prelude::*;
use crate::text::{
    first_index_of, lemma_first_index_of, lemma_first_index_unique, push_text, same_text, strs,
};

verus! {

/// A line without the carriage return that ends it, if any.
pub open spec fn strip_cr(l: Seq<char>) -> Seq<char> {
    if l.len() > 0 && l.last() == '\r' {
        l.drop_last()
    } else {
        l
    }
}

/// The lines of a text: the pieces between line feeds, each without a
/// trailing carriage return; a final line feed ends the last line and
/// does not start another.
pub open spec fn text_lines(t: Seq<char>) -> Seq<Seq<char>>
    decreases t.len(),
{
    match first_index_of(t, '\n') {
        Some(i) => if 0 <= i < t.len() {
            seq![strip_cr(t.subrange(0, i))] + text_lines(t.subrange(i + 1, t.len() as int))
        } else {
            seq![]
        },
        None => if t.len() == 0 {
            seq![]
        } else {
            seq![strip_cr(t)]
        },
    }
}

/// Lines joined with line feeds between them.
pub open spec fn join_lines(s: Seq<Seq<char>>) -> Seq<char>
    decreases s.len(),
{
    if s.len() == 0 {
        Seq::empty()
    } else if s.len() == 1 {
        s[0]
    } else {
        join_lines(s.drop_last()) + "\n"@ + s.last()
    }
}

/// The registry after `add(r)`: unchanged when `r` is in it, else with `r`
/// at the end.
pub open spec fn trust_add(s: Seq<Seq<char>>, r: Seq<char>) -> Seq<Seq<char>> {
    if s.contains(r) {
        s
    } else {
        s.push(r)
    }
}

/// Holds of every entry but `r`.
pub open spec fn other_than(r: Seq<char>) -> spec_fn(Seq<char>) -> bool {
    |x: Seq<char>| x != r
}

/// The registry after `remove(r)`: every entry but `r`, in order.
pub open spec fn trust_remove(s: Seq<Seq<char>>, r: Seq<char>) -> Seq<Seq<char>> {
    s.filter(other_than(r))
}

/// `r` stands in `s` at exactly one position.
pub open spec fn occurs_once(s: Seq<Seq<char>>, r: Seq<char>) -> bool {
    exists|i: int|
        0 <= i < s.len() && s[i] == r && forall|j: int| 0 <= j < s.len() && s[j] == r ==> j == i
}

/// Adding a repository twice leaves it in the registry exactly once, and
/// removing a repository that is not in the registry changes nothing.
pub proof fn lemma_trust_idempotent(s: Seq<Seq<char>>, r: Seq<char>)
    requires
        s.no_duplicates(),
    ensures
        occurs_once(trust_add(trust_add(s, r), r), r),
        trust_add(trust_add(s, r), r) == trust_add(s, r),
        !s.contains(r) ==> trust_remove(s, r) == s,
{
    let t = trust_add(s, r);
    if s.contains(r) {
        let i = choose|i: int| 0 <= i < s.len() && s[i] == r;
        assert forall|j: int| 0 <= j < s.len() && s[j] == r implies j == i by {}
    } else {
        assert(t[s.len() as int] == r);
        assert(t.contains(r));
        assert forall|j: int| 0 <= j < t.len() && t[j] == r implies j == s.len() by {
            if j < s.len() {
                assert(s[j] == r);
            }
        }
        lemma_remove_absent(s, r);
    }
}

/// Removing what a sequence does not hold leaves it as it is.
proof fn lemma_remove_absent(s: Seq<Seq<char>>, r: Seq<char>)
    requires
        !s.contains(r),
    ensures
        trust_remove(s, r) == s,
    decreases s.len(),
{
    if s.len() > 0 {
        lemma_remove_absent(s.drop_last(), r);
        assert(s.drop_last().push(s.last()) =~= s);
        s.drop_last().lemma_filter_push(s.last(), other_than(r));
        assert(s.last() != r);
    } else {
        reveal(Seq::filter);
    }
}

/// The registry held in a text: one entry per line.
pub fn list(text: &str) -> (r: Vec<String>)
    ensures
        strs(r@) == text_lines(text@),
{
    let n = text.unicode_len();
    let mut out: Vec<String> = Vec::new();
    let mut start: usize = 0;
    let mut i: usize = 0;
    assert(text@.subrange(0, n as int) =~= text@);
    assert(strs(out@) + text_lines(text@) =~= text_lines(text@));
    while i < n
        invariant
            n == text@.len(),
            start <= i <= n,
            forall|k: int| start <= k < i ==> text@[k] != '\n',
            text_lines(text@) == strs(out@) + text_lines(text@.subrange(start as int, n as int)),
        decreases n - i,
    {
        if text.get_char(i) == '\n' {
            let ghost rest = text@.subrange(start as int, n as int);
            proof {
                assert forall|k: int| 0 <= k < i - start implies rest[k] != '\n' by {
                    assert(rest[k] == text@[start + k]);
                }
                lemma_first_index_unique(rest, '\n', i - start);
                assert(rest.subrange(0, i - start) =~= text@.subrange(start as int, i as int));
                assert(rest.subrange(i - start + 1, rest.len() as int) =~= text@.subrange(
                    i + 1,
                    n as int,
                ));
            }
            let line = without_cr(text.substring_char(start, i));
            let ghost before = strs(out@);
            out.push(line);
            assert(strs(out@) =~= before.push(line@));
            i += 1;
            start = i;
        } else {
            i += 1;
        }
    }
    let ghost rest = text@.subrange(start as int, n as int);
    proof {
        lemma_first_index_of(rest, '\n');
        assert forall|k: int| 0 <= k < rest.len() implies rest[k] != '\n' by {
            assert(rest[k] == text@[start + k]);
        }
    }
    if start < n {
        let line = without_cr(text.substring_char(start, n));
        let ghost before = strs(out@);
        out.push(line);
        assert(strs(out@) =~= before.push(line@));
        assert(before + text_lines(rest) =~= before.push(line@));
    } else {
        assert(strs(out@) + text_lines(rest) =~= strs(out@));
    }
    out
}

/// A line without its trailing carriage return.
fn without_cr(l: &str) -> (r: String)
    ensures
        r@ == strip_cr(l@),
{
    let n = l.unicode_len();
    if n > 0 && l.get_char(n - 1) == '\r' {
        String::from_str(l.substring_char(0, n - 1))
    } else {
        String::from_str(l)
    }
}

/// The text that holds the registry: its entries joined by line feeds.
pub fn to_text(known: &Vec<String>) -> (r: String)
    ensures
        r@ == join_lines(strs(known@)),
{
    let mut out = String::new();
    let mut i: usize = 0;
    while i < known.len()
        invariant
            i <= known@.len(),
            out@ == join_lines(strs(known@.subrange(0, i as int))),
        decreases known@.len() - i,
    {
        let ghost prev = strs(known@.subrange(0, i as int));
        let ghost next = strs(known@.subrange(0, i + 1));
        assert(next.drop_last() =~= prev);
        assert(next.last() == known@[i as int]@);
        if i > 0 {
            out.append("\n");
        } else {
            assert(out@ + known@[0]@ =~= known@[0]@);
        }
        out.append(known[i].as_str());
        i += 1;
    }
    assert(known@.subrange(0, known@.len() as int) =~= known@);
    out
}

/// Whether the repository `catalog_full_name` is trusted.
pub fn is_trusted(known: &Vec<String>, catalog_full_name: &str) -> (r: bool)
    ensures
        r == strs(known@).contains(catalog_full_name@),
{
    let mut i: usize = 0;
    while i < known.len()
        invariant
            i <= known@.len(),
            forall|j: int| 0 <= j < i ==> known@[j]@ != catalog_full_name@,
        decreases known@.len() - i,
    {
        if same_text(known[i].as_str(), catalog_full_name) {
            assert(strs(known@)[i as int] == catalog_full_name@);
            return true;
        }
        i += 1;
    }
    assert forall|j: int| 0 <= j < strs(known@).len() implies strs(known@)[j] != catalog_full_name@ by {
        assert(strs(known@)[j] == known@[j]@);
    }
    false
}

/// Trusts the repository `catalog_full_name`; nothing changes when it is
/// trusted already.
pub fn add(known: &mut Vec<String>, catalog_full_name: &str)
    ensures
        strs(final(known)@) == trust_add(strs(old(known)@), catalog_full_name@),
{
    if !is_trusted(known, catalog_full_name) {
        push_text(known, catalog_full_name);
    }
}

/// Stops trusting the repository `catalog_full_name`; nothing changes when
/// it is not trusted.
pub fn remove(known: &mut Vec<String>, catalog_full_name: &str)
    ensures
        strs(final(known)@) == trust_remove(strs(old(known)@), catalog_full_name@),
{
    let kept = all_but(known, catalog_full_name);
    *known = kept;
}

/// The entries other than `name`, in order.
fn all_but(known: &Vec<String>, name: &str) -> (kept: Vec<String>)
    ensures
        strs(kept@) == trust_remove(strs(known@), name@),
{
    let ghost r = name@;
    let mut kept: Vec<String> = Vec::new();
    let mut i: usize = 0;
    proof {
        reveal(Seq::filter);
        assert(strs(known@.subrange(0, 0)) =~= Seq::<Seq<char>>::empty());
        assert(strs(kept@) =~= trust_remove(strs(known@.subrange(0, 0)), r));
    }
    while i < known.len()
        invariant
            r == name@,
            i <= known@.len(),
            strs(kept@) == trust_remove(strs(known@.subrange(0, i as int)), r),
        decreases known@.len() - i,
    {
        let ghost prev = strs(known@.subrange(0, i as int));
        let ghost x = known@[i as int]@;
        proof {
            assert(strs(known@.subrange(0, i + 1)) =~= prev.push(x));
            prev.lemma_filter_push(x, other_than(r));
        }
        if !same_text(known[i].as_str(), name) {
            push_text(&mut kept, known[i].as_str());
        }
        i += 1;
    }
    assert(known@.subrange(0, known@.len() as int) =~= known@);
    kept
}

} // verus!
