//! Lists of handles filed under object ids.

use std::collections::HashMap;
use vstd::prelude::*;
use vstd::std_specs::iter::IteratorSpec;

verus! {

broadcast use vstd::std_specs::hash::group_hash_axioms;

/// A map of handle lists as a value.
pub open spec fn buckets(m: Map<i32, Vec<usize>>) -> Map<i32, Seq<usize>> {
    m.map_values(|v: Vec<usize>| v@)
}

/// The handles filed under `key`; none where nothing is filed under it.
pub open spec fn bucket_of(m: Map<i32, Seq<usize>>, key: i32) -> Seq<usize> {
    if m.contains_key(key) {
        m[key]
    } else {
        Seq::empty()
    }
}

/// `m` with handle `h` appended under `key`.
pub open spec fn bucket_push(m: Map<i32, Seq<usize>>, key: i32, h: usize) -> Map<i32, Seq<usize>> {
    m.insert(key, bucket_of(m, key).push(h))
}

/// How often `h` occurs in `s`.
pub open spec fn occurrences<T>(s: Seq<T>, h: T) -> nat
    decreases s.len(),
{
    if s.len() == 0 {
        0
    } else {
        occurrences(s.drop_last(), h) + if s.last() == h {
            1nat
        } else {
            0nat
        }
    }
}

/// What occurs no time in a list is not in it, and the other way round.
pub proof fn lemma_occurrences_absent<T>(s: Seq<T>, h: T)
    ensures
        occurrences(s, h) == 0 <==> !s.contains(h),
    decreases s.len(),
{
    if s.len() > 0 {
        lemma_occurrences_absent(s.drop_last(), h);
        if s.contains(h) {
            let i = choose|i: int| 0 <= i < s.len() && s[i] == h;
            if i < s.len() - 1 {
                assert(s.drop_last()[i] == h);
            }
        }
        if s.drop_last().contains(h) {
            let i = choose|i: int| 0 <= i < s.drop_last().len() && s.drop_last()[i] == h;
            assert(s[i] == h);
        }
    }
}

/// A list without duplicates holds each of its entries once.
pub proof fn lemma_occurrences_unique<T>(s: Seq<T>, h: T)
    requires
        s.no_duplicates(),
    ensures
        occurrences(s, h) == if s.contains(h) {
            1nat
        } else {
            0nat
        },
    decreases s.len(),
{
    if s.len() > 0 {
        let init = s.drop_last();
        lemma_occurrences_unique(init, h);
        lemma_occurrences_absent(init, h);
        lemma_occurrences_absent(s, h);
        if s.last() == h {
            if init.contains(h) {
                let i = choose|i: int| 0 <= i < init.len() && init[i] == h;
                assert(s[i] == s[s.len() - 1]);
            }
        } else if s.contains(h) {
            let i = choose|i: int| 0 <= i < s.len() && s[i] == h;
            assert(init[i] == h);
        }
    }
}

/// Appends `h` to the list under `key`, which is started where there is
/// none.
pub fn push_to_bucket(map: &mut HashMap<i32, Vec<usize>>, key: i32, h: usize)
    ensures
        buckets(final(map)@) == bucket_push(buckets(old(map)@), key, h),
{
    let mut list = match map.remove(&key) {
        Some(list) => list,
        None => Vec::new(),
    };
    list.push(h);
    map.insert(key, list);
    assert(buckets(map@) =~= bucket_push(buckets(old(map)@), key, h));
}

/// The list under `key`, if there is one.
pub fn bucket<'a>(map: &'a HashMap<i32, Vec<usize>>, key: i32) -> (list: Option<&'a Vec<usize>>)
    ensures
        match list {
            Some(l) => buckets(map@).contains_key(key) && l@ == buckets(map@)[key],
            None => !buckets(map@).contains_key(key),
        },
{
    map.get(&key)
}

/// Walking the keys of an index meets its keys, and each of them.
pub proof fn lemma_keys(map: &HashMap<i32, Vec<usize>>)
    ensures
        forall|j: int|
            0 <= j < vstd::std_specs::hash::spec_keys_iter(map).remaining().len()
                ==> map@.contains_key(
                *#[trigger] vstd::std_specs::hash::spec_keys_iter(map).remaining()[j],
            ),
        forall|k: i32| #[trigger]
            map@.contains_key(k) ==> exists|j: int|
                0 <= j < vstd::std_specs::hash::spec_keys_iter(map).remaining().len()
                    && *#[trigger] vstd::std_specs::hash::spec_keys_iter(map).remaining()[j] == k,
{
    let ks = vstd::std_specs::hash::spec_keys_iter(map).remaining();
    assert(ks.unref().to_set() == map@.dom());
    assert forall|j: int| 0 <= j < ks.len() implies map@.contains_key(*#[trigger] ks[j]) by {
        assert(ks.unref()[j] == *ks[j]);
        assert(ks.unref().to_set().contains(*ks[j]));
    }
    assert forall|k: i32| #[trigger] map@.contains_key(k) implies exists|j: int|
        0 <= j < ks.len() && *#[trigger] ks[j] == k by {
        assert(ks.unref().to_set().contains(k));
        let j = choose|j: int| 0 <= j < ks.unref().len() && ks.unref()[j] == k;
        assert(*ks[j] == k);
    }
}

} // verus!
