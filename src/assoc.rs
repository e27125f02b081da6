//! Association lists: vectors of `(String, V)` pairs read as maps in which a
//! later entry overrides an earlier entry with the same key.

use vstd::prelude::*;

verus! {

/// The map that an association list denotes: the last entry for a key wins.
pub open spec fn map_of<V>(s: Seq<(String, V)>) -> Map<Seq<char>, V>
    decreases s.len(),
{
    if s.len() == 0 {
        Map::empty()
    } else {
        map_of(s.drop_last()).insert(s.last().0@, s.last().1)
    }
}

/// The entries of `s` whose key is outside `keys`, in their order.
pub open spec fn without_keys<V>(s: Seq<(String, V)>, keys: Set<Seq<char>>) -> Seq<(String, V)>
    decreases s.len(),
{
    if s.len() == 0 {
        s
    } else if keys.contains(s.last().0@) {
        without_keys(s.drop_last(), keys)
    } else {
        without_keys(s.drop_last(), keys).push(s.last())
    }
}

pub proof fn lemma_map_of_push<V>(s: Seq<(String, V)>, e: (String, V))
    ensures
        map_of(s.push(e)) == map_of(s).insert(e.0@, e.1),
{
    assert(s.push(e).drop_last() == s);
}

/// A key that no entry carries is absent from the map.
pub proof fn lemma_map_of_absent<V>(s: Seq<(String, V)>, k: Seq<char>)
    requires
        forall|j: int| 0 <= j < s.len() ==> s[j].0@ != k,
    ensures
        !map_of(s).contains_key(k),
    decreases s.len(),
{
    if s.len() > 0 {
        lemma_map_of_absent(s.drop_last(), k);
    }
}

/// The entry at `j` decides its key when no later entry carries that key.
pub proof fn lemma_map_of_last<V>(s: Seq<(String, V)>, j: int)
    requires
        0 <= j < s.len(),
        forall|l: int| j < l < s.len() ==> s[l].0@ != s[j].0@,
    ensures
        map_of(s).contains_key(s[j].0@),
        map_of(s)[s[j].0@] == s[j].1,
    decreases s.len(),
{
    if j < s.len() - 1 {
        lemma_map_of_last(s.drop_last(), j);
    }
}

/// Dropping the entries of some keys drops those keys from the map.
pub proof fn lemma_map_of_without<V>(s: Seq<(String, V)>, keys: Set<Seq<char>>)
    ensures
        map_of(without_keys(s, keys)) == map_of(s).remove_keys(keys),
    decreases s.len(),
{
    if s.len() == 0 {
        assert(map_of(s).remove_keys(keys) =~= Map::empty());
    } else {
        let p = s.drop_last();
        lemma_map_of_without(p, keys);
        if keys.contains(s.last().0@) {
            assert(map_of(s).remove_keys(keys) =~= map_of(p).remove_keys(keys));
        } else {
            lemma_map_of_push(without_keys(p, keys), s.last());
            assert(map_of(s).remove_keys(keys) =~= map_of(p).remove_keys(keys).insert(
                s.last().0@,
                s.last().1,
            ));
        }
    }
}

/// Index of the last entry with key `key`, if any.
pub fn find_last<V>(entries: &Vec<(String, V)>, key: &String) -> (r: Option<usize>)
    ensures
        match r {
            Some(i) => i < entries@.len() && entries@[i as int].0@ == key@
                && (forall|l: int| i < l < entries@.len() ==> entries@[l].0@ != key@)
                && map_of(entries@).contains_key(key@)
                && map_of(entries@)[key@] == entries@[i as int].1,
            None => !map_of(entries@).contains_key(key@),
        },
{
    let mut i: usize = entries.len();
    while i > 0
        invariant
            i <= entries@.len(),
            forall|l: int| i <= l < entries@.len() ==> entries@[l].0@ != key@,
        decreases i,
    {
        i = i - 1;
        if entries[i].0 == *key {
            proof {
                lemma_map_of_last(entries@, i as int);
            }
            return Some(i);
        }
    }
    proof {
        lemma_map_of_absent(entries@, key@);
    }
    None
}

/// Every entry that `without_keys` keeps is an entry of the list.
pub proof fn lemma_without_from<V>(s: Seq<(String, V)>, keys: Set<Seq<char>>, j: int)
    requires
        0 <= j < without_keys(s, keys).len(),
    ensures
        s.contains(without_keys(s, keys)[j]),
        !keys.contains(without_keys(s, keys)[j].0@),
    decreases s.len(),
{
    let p = s.drop_last();
    if keys.contains(s.last().0@) {
        lemma_without_from(p, keys, j);
        let k = choose|k: int| 0 <= k < p.len() && p[k] == without_keys(s, keys)[j];
        assert(s[k] == p[k]);
    } else if j < without_keys(p, keys).len() {
        lemma_without_from(p, keys, j);
        let k = choose|k: int| 0 <= k < p.len() && p[k] == without_keys(s, keys)[j];
        assert(s[k] == p[k]);
    } else {
        assert(s[s.len() - 1] == s.last());
    }
}

/// Drops every entry with key `key`, keeping the order of the others.
pub fn remove_key<V>(entries: Vec<(String, V)>, key: &String) -> (r: Vec<(String, V)>)
    ensures
        r@ == without_keys(entries@, set![key@]),
        map_of(r@) == map_of(entries@).remove(key@),
{
    let ghost all = entries@;
    let ghost keys = set![key@];
    let mut rest = entries;
    let mut out: Vec<(String, V)> = Vec::new();
    while rest.len() > 0
        invariant
            all.len() >= rest@.len(),
            rest@ == all.subrange(all.len() - rest@.len(), all.len() as int),
            out@ == without_keys(all.take(all.len() - rest@.len()), keys),
            keys == set![key@],
        decreases rest.len(),
    {
        let ghost j = all.len() - rest@.len();
        proof {
            assert(rest@[0] == all[j]);
            assert(all.take(j + 1).drop_last() == all.take(j));
            assert(all.take(j + 1).last() == all[j]);
        }
        let (k, v) = rest.remove(0);
        proof {
            assert((k, v) == all[j]);
            assert(all.take(j + 1).len() > 0);
            assert(without_keys(all.take(j + 1), keys) == if keys.contains(all[j].0@) {
                without_keys(all.take(j), keys)
            } else {
                without_keys(all.take(j), keys).push(all[j])
            });
        }
        if k != *key {
            out.push((k, v));
        }
        proof {
            assert(all.len() - rest@.len() == j + 1);
        }
    }
    proof {
        assert(all.take(all.len() as int) == all);
        lemma_map_of_without(all, keys);
        assert(map_of(all).remove_keys(keys) =~= map_of(all).remove(key@));
    }
    out
}

/// Every key that an entry carries is in the map.
pub proof fn lemma_map_of_dom_from_entry<V>(s: Seq<(String, V)>, j: int)
    requires
        0 <= j < s.len(),
    ensures
        map_of(s).contains_key(s[j].0@),
    decreases s.len(),
{
    if j < s.len() - 1 {
        lemma_map_of_dom_from_entry(s.drop_last(), j);
    }
}

/// The empty list denotes the empty map.
pub proof fn lemma_map_of_empty<V>(s: Seq<(String, V)>)
    requires
        s.len() == 0,
    ensures
        map_of(s) == Map::<Seq<char>, V>::empty(),
{
}

} // verus!
