use crate::ieee::{
    double_is_nan, double_position, draws_before, law_depth_order_total, same_depth,
};
use crate::instance::{InstanceModel, Layered};
use crate::instancelist::{indexes_only, lemma_views_full, InstanceList, InstanceListModel};
use crate::slab::ChunkList;
use crate::sort::{in_order, rearranges, sort_by_depth};
use vstd::prelude::*;

verus! {

/// `after` is `before` sorted for drawing by the depths `depth_of` gives:
/// the same handles, every NaN depth first and then from the greatest
/// depth down, and handles of equal depth in the order they had.
pub open spec fn is_draw_sorted(
    before: Seq<usize>,
    after: Seq<usize>,
    depth_of: spec_fn(usize) -> u64,
) -> bool {
    &&& after.len() == before.len()
    &&& after.no_duplicates()
    &&& forall|h: usize| after.contains(h) <==> before.contains(h)
    &&& forall|a: int, b: int|
        0 <= a < b < after.len() ==> !draws_before(
            depth_of(#[trigger] after[b]),
            depth_of(#[trigger] after[a]),
        )
    &&& forall|a: int, b: int|
        0 <= a < b < after.len() && same_depth(
            depth_of(#[trigger] after[a]),
            depth_of(#[trigger] after[b]),
        ) ==> before.index_of(after[a]) < before.index_of(after[b])
}

/// Depth sort totality: in a sorted list every NaN depth stands before
/// every number, numbers stand from the greatest down, and two equal depths
/// stand in the order they had before the sort.
pub proof fn law_draw_sort_total(
    before: Seq<usize>,
    after: Seq<usize>,
    depth_of: spec_fn(usize) -> u64,
    a: int,
    b: int,
)
    requires
        is_draw_sorted(before, after, depth_of),
        0 <= a < b < after.len(),
    ensures
        double_is_nan(depth_of(after[b])) ==> double_is_nan(depth_of(after[a])),
        !double_is_nan(depth_of(after[a])) && !double_is_nan(depth_of(after[b]))
            ==> double_position(depth_of(after[a])) >= double_position(depth_of(after[b])),
        same_depth(depth_of(after[a]), depth_of(after[b])) ==> before.index_of(after[a])
            < before.index_of(after[b]),
{
    assert(!draws_before(depth_of(after[b]), depth_of(after[a])));
}

/// Two lists that are both `before` sorted for drawing agree in their
/// first `n` places.
proof fn lemma_sorted_agree(
    before: Seq<usize>,
    first: Seq<usize>,
    second: Seq<usize>,
    depth_of: spec_fn(usize) -> u64,
    n: int,
)
    requires
        is_draw_sorted(before, first, depth_of),
        is_draw_sorted(before, second, depth_of),
        0 <= n <= before.len(),
    ensures
        forall|i: int| 0 <= i < n ==> first[i] == second[i],
    decreases n,
{
    if n > 0 {
        lemma_sorted_agree(before, first, second, depth_of, n - 1);
        let i = n - 1;
        let x = first[i];
        let y = second[i];
        if x != y {
            assert(first.contains(x));
            assert(before.contains(x));
            assert(second.contains(x));
            let j = choose|j: int| 0 <= j < second.len() && second[j] == x;
            if j < i {
                assert(first[j] == second[j]);
            }
            assert(second.contains(y));
            assert(before.contains(y));
            assert(first.contains(y));
            let k = choose|k: int| 0 <= k < first.len() && first[k] == y;
            if k < i {
                assert(first[k] == second[k]);
            }
            assert(i < j && i < k);
            law_depth_order_total(depth_of(x), depth_of(y), depth_of(y));
            assert(!draws_before(depth_of(second[j]), depth_of(second[i])));
            assert(!draws_before(depth_of(first[k]), depth_of(first[i])));
            assert(same_depth(depth_of(first[i]), depth_of(first[k])));
            assert(same_depth(depth_of(second[i]), depth_of(second[j])));
            assert(before.index_of(first[i]) < before.index_of(first[k]));
            assert(before.index_of(second[i]) < before.index_of(second[j]));
        }
    }
}

/// Sorting for drawing has one outcome: two lists that are both `before`
/// sorted for drawing are the same list.
pub proof fn law_draw_sort_unique(
    before: Seq<usize>,
    first: Seq<usize>,
    second: Seq<usize>,
    depth_of: spec_fn(usize) -> u64,
)
    requires
        is_draw_sorted(before, first, depth_of),
        is_draw_sorted(before, second, depth_of),
    ensures
        first == second,
{
    lemma_sorted_agree(before, first, second, depth_of, before.len() as int);
    assert(first =~= second);
}

/// What sorting depths with handles says of the handles alone.
pub proof fn lemma_sorted_handles(
    before: Seq<usize>,
    after: Seq<usize>,
    entries_before: Seq<(u64, usize)>,
    entries_after: Seq<(u64, usize)>,
    perm: Seq<int>,
    depth_of: spec_fn(usize) -> u64,
)
    requires
        before.no_duplicates(),
        entries_before.len() == before.len(),
        forall|k: int|
            0 <= k < before.len() ==> (#[trigger] entries_before[k]) == (
                depth_of(before[k]),
                before[k],
            ),
        rearranges(entries_before, entries_after, perm),
        forall|a: int, b: int|
            0 <= a < b < entries_after.len() ==> in_order(entries_after, perm, a, b),
        after.len() == before.len(),
        forall|k: int| 0 <= k < after.len() ==> (#[trigger] after[k]) == entries_after[k].1,
    ensures
        is_draw_sorted(before, after, depth_of),
{
    assert forall|k: int| 0 <= k < after.len() implies (#[trigger] after[k]) == before[perm[k]]
        && entries_after[k].0 == depth_of(after[k]) by {
        assert(entries_after[k] == entries_before[perm[k]]);
    }
    assert forall|a: int, b: int| 0 <= a < b < after.len() implies after[a] != after[b] by {
        assert(perm[a] != perm[b]);
        assert(after[a] == before[perm[a]]);
        assert(after[b] == before[perm[b]]);
    }
    assert forall|h: usize| after.contains(h) implies before.contains(h) by {
        let k = choose|k: int| 0 <= k < after.len() && after[k] == h;
        assert(before[perm[k]] == h);
    }
    lemma_permutation_onto(perm, before.len() as int);
    assert forall|h: usize| before.contains(h) implies after.contains(h) by {
        let i = choose|i: int| 0 <= i < before.len() && before[i] == h;
        assert(perm.contains(i));
        let k = choose|k: int| 0 <= k < perm.len() && perm[k] == i;
        assert(after[k] == h);
    }
    assert forall|a: int, b: int| 0 <= a < b < after.len() implies !draws_before(
        depth_of(#[trigger] after[b]),
        depth_of(#[trigger] after[a]),
    ) by {
        assert(in_order(entries_after, perm, a, b));
        law_depth_order_total(entries_after[a].0, entries_after[b].0, entries_after[b].0);
    }
    assert forall|a: int, b: int|
        0 <= a < b < after.len() && same_depth(
            depth_of(#[trigger] after[a]),
            depth_of(#[trigger] after[b]),
        ) implies before.index_of(after[a]) < before.index_of(after[b]) by {
        assert(in_order(entries_after, perm, a, b));
        law_depth_order_total(entries_after[a].0, entries_after[b].0, entries_after[b].0);
        assert(before[perm[a]] == after[a]);
        assert(before[perm[b]] == after[b]);
        assert(before.index_of(after[a]) == perm[a]);
        assert(before.index_of(after[b]) == perm[b]);
    }
}

/// A list of `n` different numbers below `n` holds every number below `n`.
pub proof fn lemma_permutation_onto(perm: Seq<int>, n: int)
    requires
        perm.len() == n,
        perm.no_duplicates(),
        forall|k: int| 0 <= k < n ==> 0 <= #[trigger] perm[k] < n,
    ensures
        forall|i: int| 0 <= i < n ==> #[trigger] perm.contains(i),
{
    if n > 0 {
        assert forall|i: int| 0 <= i < n implies #[trigger] perm.contains(i) by {
            if !perm.contains(i) {
                let all = Set::new(|x: int| 0 <= x < n);
                let image = perm.to_set();
                vstd::set_lib::lemma_int_range(0, n);
                assert(all =~= vstd::set_lib::set_int_range(0, n));
                perm.unique_seq_to_set();
                assert(image.subset_of(all.remove(i))) by {
                    assert forall|x: int| image.contains(x) implies all.remove(i).contains(x) by {
                        let k = choose|k: int| 0 <= k < perm.len() && perm[k] == x;
                        assert(0 <= perm[k] < n);
                    }
                }
                vstd::set_lib::lemma_len_subset(image, all.remove(i));
                assert(false);
            }
        }
    }
}

/// What holds of every handle of a list holds of every handle of the
/// sorted list.
pub proof fn lemma_sorted_keeps(
    before: Seq<usize>,
    after: Seq<usize>,
    depth_of: spec_fn(usize) -> u64,
    holds: spec_fn(usize) -> bool,
)
    requires
        is_draw_sorted(before, after, depth_of),
        forall|i: int| 0 <= i < before.len() ==> holds(#[trigger] before[i]),
    ensures
        forall|i: int| 0 <= i < after.len() ==> holds(#[trigger] after[i]),
{
    assert forall|i: int| 0 <= i < after.len() implies holds(#[trigger] after[i]) by {
        assert(after.contains(after[i]));
        assert(before.contains(after[i]));
        let j = choose|j: int| 0 <= j < before.len() && before[j] == after[i];
        assert(holds(before[j]));
    }
}

/// An index that holds only handles of a list holds only handles of the
/// sorted list.
pub proof fn lemma_indexes_only_sorted(
    index: Map<i32, Seq<usize>>,
    before: Seq<usize>,
    after: Seq<usize>,
    depth_of: spec_fn(usize) -> u64,
)
    requires
        is_draw_sorted(before, after, depth_of),
        indexes_only(index, before),
    ensures
        indexes_only(index, after),
{
    assert forall|k: i32, i: int|
        index.contains_key(k) && 0 <= i < index[k].len() implies after.contains(
        #[trigger] index[k][i],
    ) by {
        assert(before.contains(index[k][i]));
    }
}

/// Puts the handles of `order` into the order of drawing by the depths of
/// what `slab` holds under them, which `depth_of` names.
pub(crate) fn sort_for_drawing<T: Layered>(
    order: &mut Vec<usize>,
    slab: &ChunkList<T>,
    Ghost(depth_of): Ghost<spec_fn(usize) -> u64>,
)
    requires
        slab.wf(),
        old(order)@.no_duplicates(),
        forall|i: int|
            0 <= i < old(order)@.len() ==> slab.occupied((#[trigger] old(order)@[i]) as int)
                && depth_of(old(order)@[i]) == slab@[old(order)@[i] as int]->0.layer(),
    ensures
        is_draw_sorted(old(order)@, final(order)@, depth_of),
{
    let n = order.len();
    let mut entries: Vec<(u64, usize)> = Vec::new();
    let mut i: usize = 0;
    while i < n
        invariant
            i <= n,
            n == order@.len(),
            order@ == old(order)@,
            slab.wf(),
            forall|k: int|
                0 <= k < order@.len() ==> slab.occupied((#[trigger] order@[k]) as int) && depth_of(
                    order@[k],
                ) == slab@[order@[k] as int]->0.layer(),
            entries@.len() == i,
            forall|k: int|
                0 <= k < i ==> (#[trigger] entries@[k]) == (depth_of(order@[k]), order@[k]),
        decreases n - i,
    {
        let h = order[i];
        assert(slab.occupied(order@[i as int] as int));
        match slab.get(h) {
            Some(t) => {
                entries.push((t.depth_pattern(), h));
            },
            None => {},
        }
        i += 1;
    }
    let ghost entries_before = entries@;
    let perm = sort_by_depth(&mut entries);
    let mut k: usize = 0;
    while k < n
        invariant
            k <= n,
            n == order@.len(),
            n == entries@.len(),
            forall|j: int| 0 <= j < k ==> (#[trigger] order@[j]) == entries@[j].1,
        decreases n - k,
    {
        order[k] = entries[k].1;
        k += 1;
    }
    proof {
        lemma_sorted_handles(old(order)@, order@, entries_before, entries@, perm@, depth_of);
    }
}

impl InstanceListModel {
    /// The depth of the instance of `h`.
    pub open spec fn depth_of(self) -> spec_fn(usize) -> u64 {
        |h: usize| self.slab[h as int]->0.depth
    }
}

impl InstanceList {
    /// Sorts the order of drawing by depth: every NaN depth first, then from
    /// the greatest depth down; instances of equal depth stay in the order
    /// they had.
    pub fn draw_sort(&mut self)
        requires
            old(self).wf(),
        ensures
            final(self).wf(),
            final(self)@ == (InstanceListModel {
                draw_order: final(self)@.draw_order,
                ..old(self)@
            }),
            is_draw_sorted(old(self)@.draw_order, final(self)@.draw_order, old(self)@.depth_of()),
    {
        let ghost depth_of = self@.depth_of();
        let ghost before = self.draw_order@;
        proof {
            lemma_views_full(self.chunks@);
            assert forall|i: int| 0 <= i < before.len() implies self.chunks.occupied(
                (#[trigger] before[i]) as int,
            ) && depth_of(before[i]) == self.chunks@[before[i] as int]->0.layer() by {
                assert(self@.live(self@.draw_order[i]));
            }
        }
        sort_for_drawing(&mut self.draw_order, &self.chunks, Ghost(depth_of));
        proof {
            lemma_sorted_keeps(before, self.draw_order@, depth_of, |h: usize| self@.live(h));
            lemma_indexes_only_sorted(self@.by_object, before, self.draw_order@, depth_of);
            lemma_indexes_only_sorted(self@.by_object_inherit, before, self.draw_order@, depth_of);
        }
    }
}

} // verus!
