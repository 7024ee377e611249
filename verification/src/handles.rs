//! Lists of slab handles.

use crate::slab::ChunkList;
use vstd::prelude::*;

verus! {

/// The handles of `order` of which `wanted` holds, in order.
pub open spec fn those(order: Seq<usize>, wanted: spec_fn(usize) -> bool) -> Seq<usize>
    decreases order.len(),
{
    if order.len() == 0 {
        Seq::empty()
    } else {
        let rest = those(order.drop_last(), wanted);
        if wanted(order.last()) {
            rest.push(order.last())
        } else {
            rest
        }
    }
}

/// What is picked from a list is what is wanted of it: nothing else,
/// nothing twice that was not there twice, and in the order it had.
pub proof fn lemma_those(order: Seq<usize>, wanted: spec_fn(usize) -> bool)
    ensures
        forall|i: int|
            0 <= i < those(order, wanted).len() ==> {
                let h = #[trigger] those(order, wanted)[i];
                wanted(h) && order.contains(h)
            },
        forall|h: usize| order.contains(h) && wanted(h) ==> those(order, wanted).contains(h),
        order.no_duplicates() ==> those(order, wanted).no_duplicates(),
        those(order, wanted).len() <= order.len(),
    decreases order.len(),
{
    if order.len() > 0 {
        let init = order.drop_last();
        lemma_those(init, wanted);
        let rest = those(init, wanted);
        let out = those(order, wanted);
        let last = order.last();
        assert(order[order.len() - 1] == last);
        assert forall|i: int| 0 <= i < out.len() implies {
            let h = #[trigger] out[i];
            wanted(h) && order.contains(h)
        } by {
            if i < rest.len() {
                let h = rest[i];
                assert(init.contains(h));
                let j = choose|j: int| 0 <= j < init.len() && init[j] == h;
                assert(order[j] == h);
            }
        }
        assert forall|h: usize| order.contains(h) && wanted(h) implies out.contains(h) by {
            let j = choose|j: int| 0 <= j < order.len() && order[j] == h;
            if j < init.len() {
                assert(init[j] == h);
                assert(init.contains(h));
                assert(rest.contains(h));
                let i = choose|i: int| 0 <= i < rest.len() && rest[i] == h;
                assert(out[i] == h);
            } else {
                assert(out[out.len() - 1] == h);
            }
        }
        if order.no_duplicates() {
            assert(init.no_duplicates());
            if wanted(last) {
                assert forall|a: int, b: int| 0 <= a < b < out.len() implies out[a] != out[b] by {
                    if b == rest.len() && out[a] == last {
                        assert(init.contains(rest[a]));
                        let j = choose|j: int| 0 <= j < init.len() && init[j] == last;
                        assert(order[j] == order[order.len() - 1]);
                    }
                }
            }
        }
    }
}

/// Whether a handle is live in `slab`.
pub open spec fn is_live<T>(slab: Seq<Option<T>>) -> spec_fn(usize) -> bool {
    |h: usize| h < slab.len() && slab[h as int] is Some
}

/// The handles of `order` that are live in `slab`, in order.
pub open spec fn kept<T>(order: Seq<usize>, slab: Seq<Option<T>>) -> Seq<usize> {
    those(order, is_live(slab))
}

/// What is kept of a list is what is live of it: nothing else, nothing
/// twice that was not there twice, and in the order it had.
pub proof fn lemma_kept<T>(order: Seq<usize>, slab: Seq<Option<T>>)
    ensures
        forall|i: int|
            0 <= i < kept(order, slab).len() ==> {
                let h = #[trigger] kept(order, slab)[i];
                h < slab.len() && slab[h as int] is Some && order.contains(h)
            },
        forall|h: usize|
            order.contains(h) && h < slab.len() && slab[h as int] is Some ==> kept(
                order,
                slab,
            ).contains(h),
        order.no_duplicates() ==> kept(order, slab).no_duplicates(),
        kept(order, slab).len() <= order.len(),
{
    lemma_those(order, is_live(slab));
}

/// Where every listed handle is live, all of the list is kept.
pub proof fn lemma_kept_all<T>(order: Seq<usize>, slab: Seq<Option<T>>)
    requires
        forall|i: int|
            0 <= i < order.len() ==> (#[trigger] order[i]) < slab.len() && slab[order[i] as int] is Some,
    ensures
        kept(order, slab) == order,
    decreases order.len(),
{
    if order.len() > 0 {
        let init = order.drop_last();
        assert forall|i: int| 0 <= i < init.len() implies (#[trigger] init[i]) < slab.len()
            && slab[init[i] as int] is Some by {
            assert(order[i] == init[i]);
        }
        lemma_kept_all(init, slab);
        assert(order[order.len() - 1] == order.last());
        assert(kept(order, slab) =~= order);
    }
}

/// The handles of `order` that are live in `slab`, in order.
pub fn retain_live<T>(order: &Vec<usize>, slab: &ChunkList<T>) -> (live: Vec<usize>)
    requires
        slab.wf(),
    ensures
        live@ == kept(order@, slab@),
{
    let n = order.len();
    let mut live: Vec<usize> = Vec::new();
    let mut i: usize = 0;
    while i < n
        invariant
            i <= n,
            n == order@.len(),
            slab.wf(),
            live@ == kept(order@.subrange(0, i as int), slab@),
        decreases n - i,
    {
        let h = order[i];
        proof {
            assert(order@.subrange(0, i + 1).drop_last() =~= order@.subrange(0, i as int));
        }
        if slab.get(h).is_some() {
            live.push(h);
        }
        i += 1;
    }
    assert(order@.subrange(0, n as int) =~= order@);
    live
}

/// Whether `order` names only handles below `n`, and none twice.
pub open spec fn names_each_once(order: Seq<usize>, n: nat) -> bool {
    &&& order.no_duplicates()
    &&& forall|i: int| 0 <= i < order.len() ==> (#[trigger] order[i]) < n
}

/// For each handle below `n`, whether `order` names it; none where `order`
/// names a handle twice or one that is not below `n`.
pub fn marked(order: &Vec<usize>, n: usize) -> (marks: Option<Vec<bool>>)
    ensures
        marks is Some <==> names_each_once(order@, n as nat),
        match marks {
            Some(m) => m@.len() == n && forall|h: int|
                0 <= h < n ==> ((#[trigger] m@[h]) <==> order@.contains(h as usize)),
            None => true,
        },
{
    let mut marks: Vec<bool> = Vec::new();
    let mut i: usize = 0;
    while i < n
        invariant
            i <= n,
            marks@.len() == i,
            forall|x: int| 0 <= x < i ==> !(#[trigger] marks@[x]),
        decreases n - i,
    {
        marks.push(false);
        i += 1;
    }
    let mut j: usize = 0;
    while j < order.len()
        invariant
            j <= order@.len(),
            marks@.len() == n,
            order@.subrange(0, j as int).no_duplicates(),
            forall|x: int| 0 <= x < j ==> (#[trigger] order@[x]) < n,
            forall|h: int|
                0 <= h < n ==> ((#[trigger] marks@[h]) <==> order@.subrange(0, j as int).contains(
                    h as usize,
                )),
        decreases order@.len() - j,
    {
        let h = order[j];
        let ghost seen = order@.subrange(0, j as int);
        let ghost next = order@.subrange(0, j + 1);
        if h >= n {
            assert(order@[j as int] >= n);
            return None;
        }
        if marks[h] {
            proof {
                let x = choose|x: int| 0 <= x < seen.len() && seen[x] == h;
                assert(order@[x] == h && order@[j as int] == h);
            }
            return None;
        }
        marks[h] = true;
        proof {
            assert(next.drop_last() =~= seen);
            assert forall|a: int, b: int| 0 <= a < b < next.len() implies next[a] != next[b] by {
                if b == j {
                    if next[a] == h {
                        assert(seen[a] == h);
                        assert(seen.contains(h));
                    }
                } else {
                    assert(seen[a] != seen[b]);
                }
            }
            assert forall|x: int| 0 <= x < n implies ((#[trigger] marks@[x]) <==> next.contains(
                x as usize,
            )) by {
                if x == h {
                    assert(next[j as int] == h);
                } else {
                    if seen.contains(x as usize) {
                        let y = choose|y: int| 0 <= y < seen.len() && seen[y] == x as usize;
                        assert(next[y] == x as usize);
                    }
                    if next.contains(x as usize) {
                        let y = choose|y: int| 0 <= y < next.len() && next[y] == x as usize;
                        assert(seen[y] == x as usize);
                    }
                }
            }
        }
        j += 1;
    }
    assert(order@.subrange(0, order@.len() as int) =~= order@);
    Some(marks)
}

} // verus!
