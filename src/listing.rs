//! Listing profiles in the order a person reads them: by name, ignoring
//! case.

use vstd::prelude::*;
use vstd::multiset::Multiset;
use crate::model::CodexProfile;

verus! {

broadcast use vstd::seq_lib::group_to_multiset_ensures;

/// The text that `str::to_lowercase` makes of a string.
pub uninterp spec fn lowercased(s: Seq<char>) -> Seq<char>;

/// Relies on `str::to_lowercase`: the string in lower case, by Unicode's
/// rules; the result depends on the characters alone.
#[verifier::external_body]
fn to_lower(s: &str) -> (r: String)
    ensures
        r@ == lowercased(s@),
{
    s.to_lowercase()
}

/// Lexicographic order of character sequences by code point, which is the
/// order of Rust's `str` comparison.
pub open spec fn lex_le(a: Seq<char>, b: Seq<char>) -> bool
    decreases a.len(),
{
    if a.len() == 0 {
        true
    } else if b.len() == 0 {
        false
    } else if a[0] != b[0] {
        a[0] < b[0]
    } else {
        lex_le(a.drop_first(), b.drop_first())
    }
}

pub proof fn lemma_lex_total(a: Seq<char>, b: Seq<char>)
    ensures
        lex_le(a, b) || lex_le(b, a),
    decreases a.len(),
{
    if a.len() > 0 && b.len() > 0 && a[0] == b[0] {
        lemma_lex_total(a.drop_first(), b.drop_first());
    }
}

pub proof fn lemma_lex_trans(a: Seq<char>, b: Seq<char>, c: Seq<char>)
    requires
        lex_le(a, b),
        lex_le(b, c),
    ensures
        lex_le(a, c),
    decreases a.len(),
{
    if a.len() > 0 && b.len() > 0 && c.len() > 0 && a[0] == b[0] && b[0] == c[0] {
        lemma_lex_trans(a.drop_first(), b.drop_first(), c.drop_first());
    }
}

/// Whether `a` comes before `b` or equals it.
pub fn str_le(a: &str, b: &str) -> (r: bool)
    ensures
        r == lex_le(a@, b@),
{
    let na = a.unicode_len();
    let nb = b.unicode_len();
    let mut i: usize = 0;
    assert(a@.skip(0) =~= a@);
    assert(b@.skip(0) =~= b@);
    while i < na && i < nb
        invariant
            na == a@.len(),
            nb == b@.len(),
            i <= na,
            i <= nb,
            lex_le(a@, b@) == lex_le(a@.skip(i as int), b@.skip(i as int)),
        decreases na - i,
    {
        let ca = a.get_char(i);
        let cb = b.get_char(i);
        proof {
            assert(a@.skip(i as int)[0] == ca);
            assert(b@.skip(i as int)[0] == cb);
            assert(a@.skip(i as int).drop_first() =~= a@.skip(i + 1));
            assert(b@.skip(i as int).drop_first() =~= b@.skip(i + 1));
        }
        if ca != cb {
            return ca < cb;
        }
        i = i + 1;
    }
    proof {
        if i == na {
            assert(a@.skip(i as int).len() == 0);
        } else {
            assert(b@.skip(i as int).len() == 0);
        }
    }
    i == na
}

/// The sort key of a profile: its name in lower case.
pub open spec fn name_key(p: CodexProfile) -> Seq<char> {
    lowercased(p.name@)
}

/// Whether profile `a` sorts no later than profile `b`.
fn name_le(a: &CodexProfile, b: &CodexProfile) -> (r: bool)
    ensures
        r == lex_le(name_key(*a), name_key(*b)),
{
    let ka = to_lower(a.name.as_str());
    let kb = to_lower(b.name.as_str());
    str_le(ka.as_str(), kb.as_str())
}

/// Index of a profile that sorts no later than any other.
fn least_index(v: &Vec<CodexProfile>) -> (r: usize)
    requires
        v@.len() > 0,
    ensures
        r < v@.len(),
        forall|j: int| 0 <= j < v@.len() ==> lex_le(name_key(v@[r as int]), name_key(#[trigger] v@[j])),
{
    let mut best: usize = 0;
    let mut j: usize = 1;
    proof {
        lemma_lex_total(name_key(v@[0]), name_key(v@[0]));
    }
    while j < v.len()
        invariant
            1 <= j <= v@.len(),
            best < v@.len(),
            forall|l: int| 0 <= l < j ==> lex_le(name_key(v@[best as int]), name_key(#[trigger] v@[l])),
        decreases v@.len() - j,
    {
        if !name_le(&v[best], &v[j]) {
            proof {
                lemma_lex_total(name_key(v@[best as int]), name_key(v@[j as int]));
                assert forall|l: int| 0 <= l <= j implies lex_le(name_key(v@[j as int]), name_key(#[trigger] v@[l])) by {
                    if l < j {
                        lemma_lex_trans(name_key(v@[j as int]), name_key(v@[best as int]), name_key(v@[l]));
                    } else {
                        lemma_lex_total(name_key(v@[l]), name_key(v@[l]));
                    }
                }
            }
            best = j;
        }
        j = j + 1;
    }
    best
}

/// The profiles sorted by name, ignoring case; the same profiles, each as
/// often as it was given.
pub fn list_codex_profiles(profiles: Vec<CodexProfile>) -> (r: Vec<CodexProfile>)
    ensures
        r@.to_multiset() == profiles@.to_multiset(),
        forall|i: int, j: int| 0 <= i < j < r@.len() ==> lex_le(name_key(#[trigger] r@[i]), name_key(#[trigger] r@[j])),
{
    let ghost orig = profiles@;
    let mut rest = profiles;
    let mut out: Vec<CodexProfile> = Vec::new();
    while rest.len() > 0
        invariant
            out@.to_multiset().add(rest@.to_multiset()) == orig.to_multiset(),
            forall|i: int, j: int| 0 <= i < j < out@.len() ==> lex_le(name_key(#[trigger] out@[i]), name_key(#[trigger] out@[j])),
            forall|i: int, j: int| 0 <= i < out@.len() && 0 <= j < rest@.len()
                ==> lex_le(name_key(#[trigger] out@[i]), name_key(#[trigger] rest@[j])),
        decreases rest.len(),
    {
        let m = least_index(&rest);
        let ghost before = rest@;
        let ghost out_before = out@;
        let p = rest.remove(m);
        proof {
            assert(p == before[m as int]);
            assert(rest@ == before.remove(m as int));
            assert forall|j: int| 0 <= j < rest@.len() implies lex_le(name_key(p), name_key(#[trigger] rest@[j])) by {
                if j < m {
                    assert(rest@[j] == before[j]);
                } else {
                    assert(rest@[j] == before[j + 1]);
                }
            }
            assert forall|i: int, j: int| 0 <= i < out_before.len() && 0 <= j < rest@.len()
                implies lex_le(name_key(#[trigger] out_before[i]), name_key(#[trigger] rest@[j])) by {
                if j < m {
                    assert(rest@[j] == before[j]);
                } else {
                    assert(rest@[j] == before[j + 1]);
                }
            }
        }
        out.push(p);
        proof {
            assert(out@ == out_before.push(p));
            assert(out@.to_multiset() == out_before.to_multiset().insert(p));
            assert(rest@.to_multiset() == before.to_multiset().remove(p));
            assert(out@.to_multiset().add(rest@.to_multiset()) =~= out_before.to_multiset().add(before.to_multiset()));
        }
    }
    proof {
        assert(rest@.to_multiset() =~= Multiset::empty());
        assert(out@.to_multiset().add(rest@.to_multiset()) =~= out@.to_multiset());
    }
    out
}

} // verus!
