//! The instance store as it is written to a saved state.

use crate::buckets::{bucket, buckets, lemma_keys, lemma_occurrences_unique, occurrences};
use crate::slab::{dense, lemma_dense_take_step};
use std::collections::HashMap;
use vstd::prelude::*;
use vstd::std_specs::iter::IteratorSpec;

verus! {

broadcast use vstd::std_specs::hash::group_hash_axioms;

/// How many entries of `list` are below `h`: the handle that the instance
/// of `h` gets when the instances of `list` are inserted anew in the order
/// of their handles.
pub open spec fn rank(list: Seq<usize>, h: usize) -> nat
    decreases list.len(),
{
    if list.len() == 0 {
        0
    } else {
        rank(list.drop_last(), h) + if list.last() < h {
            1nat
        } else {
            0nat
        }
    }
}

/// Going up by one handle, the rank grows by the number of times that the
/// handle passed is listed.
pub proof fn lemma_rank_step(list: Seq<usize>, h: usize)
    requires
        h < usize::MAX,
    ensures
        rank(list, (h + 1) as usize) == rank(list, h) + occurrences(list, h),
    decreases list.len(),
{
    if list.len() > 0 {
        lemma_rank_step(list.drop_last(), h);
    }
}

/// Where `list` names each live handle of `slab` once, and no other, the
/// rank of a handle is the number of live handles below it.
pub proof fn lemma_rank_counts_live<T>(list: Seq<usize>, slab: Seq<Option<T>>, h: usize)
    requires
        list.no_duplicates(),
        forall|x: usize| list.contains(x) <==> x < slab.len() && slab[x as int] is Some,
        h <= slab.len(),
    ensures
        rank(list, h) == dense(slab.take(h as int)).len(),
    decreases h,
{
    if h == 0 {
        lemma_rank_zero(list);
        assert(slab.take(0) =~= Seq::<Option<T>>::empty());
    } else {
        let below = (h - 1) as usize;
        lemma_rank_counts_live(list, slab, below);
        lemma_rank_step(list, below);
        lemma_occurrences_unique(list, below);
        lemma_dense_take_step(slab, below as int);
    }
}

/// No handle is below handle 0.
pub proof fn lemma_rank_zero(list: Seq<usize>)
    ensures
        rank(list, 0) == 0,
    decreases list.len(),
{
    if list.len() > 0 {
        lemma_rank_zero(list.drop_last());
    }
}

/// The ranks of `handles` among `all`.
pub open spec fn ranks(handles: Seq<usize>, all: Seq<usize>) -> Seq<usize> {
    handles.map_values(|h: usize| rank(all, h) as usize)
}

/// An index with every handle exchanged for its rank among `all`.
pub open spec fn ranked_index(index: Map<i32, Seq<usize>>, all: Seq<usize>) -> Map<i32, Seq<usize>> {
    index.map_values(|handles: Seq<usize>| ranks(handles, all))
}

fn rank_of(list: &Vec<usize>, h: usize) -> (r: usize)
    ensures
        r == rank(list@, h),
{
    let mut r: usize = 0;
    let mut i: usize = 0;
    while i < list.len()
        invariant
            i <= list@.len(),
            r == rank(list@.subrange(0, i as int), h),
            r <= i,
        decreases list@.len() - i,
    {
        assert(list@.subrange(0, i + 1).drop_last() =~= list@.subrange(0, i as int));
        if list[i] < h {
            r += 1;
        }
        i += 1;
    }
    assert(list@.subrange(0, list@.len() as int) =~= list@);
    r
}

fn ranks_of(handles: &Vec<usize>, all: &Vec<usize>) -> (out: Vec<usize>)
    ensures
        out@ == ranks(handles@, all@),
{
    let mut out: Vec<usize> = Vec::with_capacity(handles.len());
    let mut i: usize = 0;
    while i < handles.len()
        invariant
            i <= handles@.len(),
            out@ == ranks(handles@.subrange(0, i as int), all@),
        decreases handles@.len() - i,
    {
        out.push(rank_of(all, handles[i]));
        assert(out@ =~= ranks(handles@.subrange(0, i + 1), all@));
        i += 1;
    }
    assert(handles@.subrange(0, handles@.len() as int) =~= handles@);
    out
}

/// The handles of `list` as they are after the instances were inserted
/// anew: each exchanged for its rank in `list`.
pub fn defrag(list: &Vec<usize>) -> (output: Vec<usize>)
    ensures
        output@ == ranks(list@, list@),
{
    ranks_of(list, list)
}

/// The index `map` with each handle exchanged for its rank in `all_insts`.
pub fn defrag_map(map: &HashMap<i32, Vec<usize>>, all_insts: &Vec<usize>) -> (output: HashMap<
    i32,
    Vec<usize>,
>)
    ensures
        buckets(output@) == ranked_index(buckets(map@), all_insts@),
{
    let mut output: HashMap<i32, Vec<usize>> = HashMap::new();
    proof {
        lemma_keys(map);
    }
    for obj_id in it: map.keys()
        invariant
            forall|j: int| 0 <= j < it.seq().len() ==> map@.contains_key(*#[trigger] it.seq()[j]),
            forall|k: i32|
                #[trigger] output@.contains_key(k) ==> map@.contains_key(k) && output@[k]@ == ranks(
                    map@[k]@,
                    all_insts@,
                ),
            forall|k: i32|
                #[trigger] map@.contains_key(k) ==> output@.contains_key(k) || exists|j: int|
                    it.index() <= j < it.seq().len() && *#[trigger] it.seq()[j] == k,
    {
        let ghost idx = it.index();
        assert(map@.contains_key(*it.seq()[idx]));
        let ghost before = output@;
        match bucket(map, *obj_id) {
            Some(in_vec) => {
                let out_vec = ranks_of(in_vec, all_insts);
                output.insert(*obj_id, out_vec);
            },
            None => {},
        }
        proof {
            assert forall|k: i32| #[trigger] map@.contains_key(k) implies output@.contains_key(k)
                || exists|j: int| idx + 1 <= j < it.seq().len() && *#[trigger] it.seq()[j] == k by {
                if !before.contains_key(k) && k != *obj_id {
                    let j = choose|j: int| idx <= j < it.seq().len() && *#[trigger] it.seq()[j] == k;
                    assert(idx + 1 <= j);
                }
            }
        }
    }
    proof {
        let want = ranked_index(buckets(map@), all_insts@);
        assert(buckets(output@) =~= want);
    }
    output
}

} // verus!
