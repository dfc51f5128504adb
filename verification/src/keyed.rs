//! Association lists keyed by strings, and the map that such a list stands for.
//!
//! The objects of this crate (a JSON object, the metadata of an export item)
//! are kept as vectors of key–value pairs in which no key occurs twice. Their
//! contracts speak of the [`Map`] that [`map_of`] builds from the pairs.

use vstd::prelude::*;
use crate::text::str_eq;

verus! {

/// No key occurs at two positions.
pub open spec fn distinct_keys<V>(s: Seq<(Seq<char>, V)>) -> bool {
    forall|i: int, j: int| 0 <= i < j < s.len() ==> s[i].0 != s[j].0
}

/// Some pair of `s` has the key `k`.
pub open spec fn has_key<V>(s: Seq<(Seq<char>, V)>, k: Seq<char>) -> bool {
    exists|i: int| 0 <= i < s.len() && #[trigger] s[i].0 == k
}

/// The map that a list of pairs stands for. Where a key occurs twice the later
/// pair wins.
pub open spec fn map_of<V>(s: Seq<(Seq<char>, V)>) -> Map<Seq<char>, V>
    decreases s.len(),
{
    if s.len() == 0 {
        Map::empty()
    } else {
        map_of(s.drop_last()).insert(s.last().0, s.last().1)
    }
}

/// The keys of `map_of(s)` are the keys of the pairs of `s`.
pub proof fn lemma_map_of_dom<V>(s: Seq<(Seq<char>, V)>, k: Seq<char>)
    ensures
        map_of(s).contains_key(k) <==> has_key(s, k),
    decreases s.len(),
{
    if s.len() > 0 {
        let t = s.drop_last();
        lemma_map_of_dom(t, k);
        if has_key(t, k) {
            let i = choose|i: int| 0 <= i < t.len() && #[trigger] t[i].0 == k;
            assert(s[i].0 == k);
        }
        if has_key(s, k) {
            let i = choose|i: int| 0 <= i < s.len() && #[trigger] s[i].0 == k;
            if i < t.len() {
                assert(t[i].0 == k);
            }
        }
    }
}

/// In a list with distinct keys every pair is an entry of the map.
pub proof fn lemma_map_of_entry<V>(s: Seq<(Seq<char>, V)>, i: int)
    requires
        distinct_keys(s),
        0 <= i < s.len(),
    ensures
        map_of(s).contains_key(s[i].0),
        map_of(s)[s[i].0] == s[i].1,
    decreases s.len(),
{
    let t = s.drop_last();
    if i < s.len() - 1 {
        assert(distinct_keys(t)) by {
            assert forall|a: int, b: int| 0 <= a < b < t.len() implies t[a].0 != t[b].0 by {
                assert(s[a].0 != s[b].0);
            }
        }
        lemma_map_of_entry(t, i);
        assert(t[i] == s[i]);
        assert(s[i].0 != s[s.len() - 1].0);
    }
}

/// A list with distinct keys has as many pairs as its map has keys.
pub proof fn lemma_map_of_len<V>(s: Seq<(Seq<char>, V)>)
    requires
        distinct_keys(s),
    ensures
        map_of(s).dom().finite(),
        map_of(s).len() == s.len(),
    decreases s.len(),
{
    if s.len() > 0 {
        let t = s.drop_last();
        assert(distinct_keys(t)) by {
            assert forall|a: int, b: int| 0 <= a < b < t.len() implies t[a].0 != t[b].0 by {
                assert(s[a].0 != s[b].0);
            }
        }
        lemma_map_of_len(t);
        lemma_map_of_dom(t, s.last().0);
        if has_key(t, s.last().0) {
            let i = choose|i: int| 0 <= i < t.len() && #[trigger] t[i].0 == s.last().0;
            assert(s[i].0 != s[s.len() - 1].0);
        }
    }
}

/// Replacing the value at position `i` of a list with distinct keys sets that
/// key in the map and keeps the keys distinct.
pub proof fn lemma_map_of_update<V>(s: Seq<(Seq<char>, V)>, i: int, v: V)
    requires
        distinct_keys(s),
        0 <= i < s.len(),
    ensures
        distinct_keys(s.update(i, (s[i].0, v))),
        map_of(s.update(i, (s[i].0, v))) == map_of(s).insert(s[i].0, v),
    decreases s.len(),
{
    let u = s.update(i, (s[i].0, v));
    assert(distinct_keys(u)) by {
        assert forall|a: int, b: int| 0 <= a < b < u.len() implies u[a].0 != u[b].0 by {
            assert(s[a].0 != s[b].0);
        }
    }
    let t = s.drop_last();
    assert(distinct_keys(t)) by {
        assert forall|a: int, b: int| 0 <= a < b < t.len() implies t[a].0 != t[b].0 by {
            assert(s[a].0 != s[b].0);
        }
    }
    if i == s.len() - 1 {
        assert(u.drop_last() =~= t);
        assert(map_of(u) =~= map_of(s).insert(s[i].0, v));
    } else {
        lemma_map_of_update(t, i, v);
        assert(u.drop_last() =~= t.update(i, (t[i].0, v)));
        assert(s[i].0 != s.last().0);
        assert(map_of(u) =~= map_of(s).insert(s[i].0, v));
    }
}

/// Appending a pair with a new key sets that key in the map and keeps the keys
/// distinct.
pub proof fn lemma_map_of_push<V>(s: Seq<(Seq<char>, V)>, k: Seq<char>, v: V)
    requires
        distinct_keys(s),
        !has_key(s, k),
    ensures
        distinct_keys(s.push((k, v))),
        map_of(s.push((k, v))) == map_of(s).insert(k, v),
{
    let u = s.push((k, v));
    assert(u.drop_last() =~= s);
    assert forall|a: int, b: int| 0 <= a < b < u.len() implies u[a].0 != u[b].0 by {
        if b == s.len() {
            assert(s[a].0 != k);
        } else {
            assert(s[a].0 != s[b].0);
        }
    }
}

/// The pairs of a vector, as the contracts see them: each key and each value
/// by its view.
pub open spec fn pairs_view<V: View>(entries: Seq<(String, V)>) -> Seq<(Seq<char>, V::V)> {
    entries.map_values(|e: (String, V)| (e.0@, e.1@))
}

/// The position of the first pair with the key `key`, if there is one.
pub(crate) fn find_key<V>(entries: &Vec<(String, V)>, key: &str) -> (r: Option<usize>)
    ensures
        match r {
            Some(i) => i < entries.len() && entries[i as int].0@ == key@ && forall|j: int|
                0 <= j < i ==> (#[trigger] entries[j]).0@ != key@,
            None => forall|j: int| 0 <= j < entries.len() ==> (#[trigger] entries[j]).0@ != key@,
        },
{
    let mut i: usize = 0;
    while i < entries.len()
        invariant
            i <= entries.len(),
            forall|j: int| 0 <= j < i ==> (#[trigger] entries[j]).0@ != key@,
        decreases entries.len() - i,
    {
        if str_eq(entries[i].0.as_str(), key) {
            return Some(i);
        }
        i += 1;
    }
    None
}

/// The value under `key` in a vector with distinct keys.
pub(crate) fn lookup<'a, V: View>(entries: &'a Vec<(String, V)>, key: &str) -> (r: Option<&'a V>)
    requires
        distinct_keys(pairs_view(entries@)),
    ensures
        match r {
            Some(v) => map_of(pairs_view(entries@)).contains_key(key@) && map_of(
                pairs_view(entries@),
            )[key@] == v@,
            None => !map_of(pairs_view(entries@)).contains_key(key@),
        },
{
    proof {
        lemma_map_of_dom(pairs_view(entries@), key@);
    }
    match find_key(entries, key) {
        Some(i) => {
            proof {
                lemma_map_of_entry(pairs_view(entries@), i as int);
            }
            Some(&entries[i].1)
        },
        None => None,
    }
}

/// Sets `key` to `value` in a vector with distinct keys: in place where the
/// key is there, at the end where it is new.
pub(crate) fn put<V: View>(entries: &mut Vec<(String, V)>, key: String, value: V)
    requires
        distinct_keys(pairs_view(old(entries)@)),
    ensures
        distinct_keys(pairs_view(final(entries)@)),
        map_of(pairs_view(final(entries)@)) == map_of(pairs_view(old(entries)@)).insert(
            key@,
            value@,
        ),
{
    let ghost before = pairs_view(entries@);
    proof {
        lemma_map_of_dom(before, key@);
    }
    match find_key(entries, key.as_str()) {
        Some(i) => {
            proof {
                lemma_map_of_update(before, i as int, value@);
                assert(pairs_view(entries@.update(i as int, (key, value))) =~= before.update(
                    i as int,
                    (key@, value@),
                ));
            }
            entries.set(i, (key, value));
        },
        None => {
            proof {
                lemma_map_of_push(before, key@, value@);
                assert(pairs_view(entries@.push((key, value))) =~= before.push((key@, value@)));
            }
            entries.push((key, value));
        },
    }
}

} // verus!
