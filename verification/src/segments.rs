//! Numbered transcript segments kept in a `BTreeMap` by index.
use vstd::prelude::*;

use std::collections::BTreeMap;

verus! {

/// Indices strictly increasing.
pub open spec fn increasing(keys: Seq<i64>) -> bool {
    forall|i: int, j: int| 0 <= i < j < keys.len() ==> keys[i] < keys[j]
}

/// `texts` are the values of `m`, one per index, in increasing index order.
pub open spec fn in_index_order(m: Map<i64, String>, texts: Seq<String>) -> bool {
    exists|keys: Seq<i64>|
        #[trigger] increasing(keys) && keys.to_set() == m.dom() && keys.no_duplicates() && texts
            == keys.map_values(|k: i64| m[k])
}

/// The texts of `m` in index order.
pub fn segment_texts(m: &BTreeMap<i64, String>) -> (r: Vec<String>)
    ensures
        in_index_order(m@, r@),
{
    broadcast use vstd::std_specs::btree::group_btree_axioms;
    broadcast use vstd::laws_cmp::group_laws_cmp;
    let values = m.values();
    let ghost keys = choose|keys: Seq<i64>|
        {
            &&& vstd::std_specs::btree::increasing_seq(keys)
            &&& keys.to_set() == m@.dom()
            &&& keys.no_duplicates()
            &&& vstd::std_specs::iter::IteratorSpec::remaining(&values) == keys.map(|i: int, k: i64| &m@[k])
        };
    assert(increasing(keys)) by {
        assert(vstd::laws_cmp::obeys_cmp::<i64>());
        assert forall|i: int, j: int| 0 <= i < j < keys.len() implies keys[i] < keys[j] by {
            assert(vstd::std_specs::cmp::OrdSpec::cmp_spec(&keys[i], &keys[j]) is Less);
        }
    }
    let mut r: Vec<String> = Vec::new();
    for v in it: values
        invariant
            it.seq() == keys.map(|i: int, k: i64| &m@[k]),
            r@ == keys.take(it.index()).map_values(|k: i64| m@[k]),
    {
        r.push(v.clone());
        assert(r@ =~= keys.take(it.index() + 1).map_values(|k: i64| m@[k]));
    }
    assert(r@ =~= keys.map_values(|k: i64| m@[k]));
    r
}

/// The stable segments, completed by the provisional ones at indices no
/// stable segment has.
pub open spec fn merged(stable: Map<i64, String>, provisional: Map<i64, String>) -> Map<i64, String> {
    provisional.union_prefer_right(stable)
}

/// The stable segments, completed by the provisional ones at indices no
/// stable segment has (see [`merged`]).
pub fn merge_segments(stable: &BTreeMap<i64, String>, provisional: &BTreeMap<i64, String>) -> (r: BTreeMap<
    i64,
    String,
>)
    ensures
        r@ == merged(stable@, provisional@),
{
    broadcast use vstd::std_specs::btree::group_btree_axioms;
    broadcast use vstd::laws_cmp::group_laws_cmp;
    assert(vstd::laws_cmp::obeys_cmp::<i64>());
    let mut m = stable.clone();
    let entries = provisional.iter();
    let ghost s = vstd::std_specs::iter::IteratorSpec::remaining(&entries);
    assert(s == vstd::std_specs::iter::IteratorSpec::remaining(&vstd::std_specs::btree::spec_btree_map_iter(provisional)));
    for kv in it: entries
        invariant
            it.seq() == s,
            s == vstd::std_specs::iter::IteratorSpec::remaining(&vstd::std_specs::btree::spec_btree_map_iter(provisional)),
            vstd::laws_cmp::obeys_cmp::<i64>(),
            forall|j: int| 0 <= j < it.index() ==> m@.contains_key(*(#[trigger] s[j]).0),
            forall|k: i64| #[trigger] m@.contains_key(k) ==> stable@.contains_key(k) || provisional@.contains_key(k),
            forall|k: i64| stable@.contains_key(k) ==> #[trigger] m@.contains_key(k),
            forall|k: i64| #[trigger] m@.contains_key(k) ==> m@[k] == (if stable@.contains_key(k) {
                stable@[k]
            } else {
                provisional@[k]
            }),
    {
        let (k, v) = kv;
        assert(provisional@.contains_key(*k) && provisional@[*k] == *v);
        if !m.contains_key(k) {
            m.insert(*k, v.clone());
        }
    }
    assert forall|k: i64| provisional@.contains_key(k) implies #[trigger] m@.contains_key(k) by {
        assert(s.contains((&k, &provisional@[k])));
        let j = choose|j: int| 0 <= j < s.len() && s[j] == (&k, &provisional@[k]);
        assert(m@.contains_key(*s[j].0));
    }
    assert(m@ =~= merged(stable@, provisional@));
    m
}

} // verus!
