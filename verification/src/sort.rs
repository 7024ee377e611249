use crate::ieee::{depth_before, draws_before, law_depth_order_total, same_depth};
use vstd::prelude::*;

verus! {

/// Whether entry `a` of `v` belongs before entry `b`: by its depth, or, at
/// equal depth, by where it stood before the sort. `v` holds depths with
/// handles, `perm` the place that each entry came from.
pub open spec fn in_order(v: Seq<(u64, usize)>, perm: Seq<int>, a: int, b: int) -> bool {
    ||| draws_before(v[a].0, v[b].0)
    ||| same_depth(v[a].0, v[b].0) && perm[a] < perm[b]
}

/// `perm` rearranges `before` into `after`.
pub open spec fn rearranges(before: Seq<(u64, usize)>, after: Seq<(u64, usize)>, perm: Seq<int>) -> bool {
    &&& after.len() == before.len()
    &&& perm.len() == before.len()
    &&& perm.no_duplicates()
    &&& forall|k: int| 0 <= k < perm.len() ==> 0 <= #[trigger] perm[k] < before.len()
    &&& forall|k: int| 0 <= k < perm.len() ==> #[trigger] after[k] == before[perm[k]]
}

proof fn lemma_in_order_transitive(v: Seq<(u64, usize)>, perm: Seq<int>, a: int, b: int, c: int)
    requires
        in_order(v, perm, a, b),
        in_order(v, perm, b, c),
    ensures
        in_order(v, perm, a, c),
{
    law_depth_order_total(v[a].0, v[b].0, v[c].0);
}

/// Sorts depths with handles into draw order, leaving entries of equal
/// depth in the order they came in. Hands back the place that each entry
/// came from.
#[verifier::rlimit(50)]
pub fn sort_by_depth(v: &mut Vec<(u64, usize)>) -> (perm: Ghost<Seq<int>>)
    ensures
        rearranges(old(v)@, final(v)@, perm@),
        forall|a: int, b: int| 0 <= a < b < final(v)@.len() ==> in_order(final(v)@, perm@, a, b),
{
    let n = v.len();
    let ghost mut perm: Seq<int> = Seq::new(n as nat, |k: int| k);
    if n == 0 {
        return Ghost(perm);
    }
    let mut i: usize = 1;
    while i < n
        invariant
            1 <= i <= n,
            n == v@.len(),
            rearranges(old(v)@, v@, perm),
            forall|a: int, b: int| 0 <= a < b < i ==> in_order(v@, perm, a, b),
            forall|k: int| 0 <= k < i ==> (#[trigger] perm[k]) < i,
            forall|k: int| i <= k < n ==> (#[trigger] perm[k]) == k,
        decreases n - i,
    {
        let mut j: usize = i;
        while j > 0 && depth_before(v[j].0, v[j - 1].0)
            invariant
                0 <= j <= i < n,
                n == v@.len(),
                rearranges(old(v)@, v@, perm),
                perm[j as int] == i,
                forall|a: int, b: int|
                    0 <= a < b <= i && a != j && b != j ==> in_order(v@, perm, a, b),
                forall|b: int| j < b <= i ==> in_order(v@, perm, j as int, b),
                forall|k: int| 0 <= k <= i ==> (#[trigger] perm[k]) <= i,
                forall|k: int| i < k < n ==> (#[trigger] perm[k]) == k,
            decreases j,
        {
            let ghost before = v@;
            let ghost perm_before = perm;
            let lower = v[j - 1];
            let upper = v[j];
            v[j - 1] = upper;
            v[j] = lower;
            proof {
                perm = perm_before.update(j - 1, perm_before[j as int]).update(
                    j as int,
                    perm_before[j - 1],
                );
                assert forall|a: int, b: int|
                    0 <= a < b <= i && a != j - 1 && b != j - 1 implies in_order(v@, perm, a, b) by {
                    if b == j {
                        assert(in_order(before, perm_before, a, j - 1));
                    } else if a == j {
                        assert(in_order(before, perm_before, j - 1, b));
                    } else {
                        assert(in_order(before, perm_before, a, b));
                    }
                }
                let moved: int = j - 1;
                assert forall|b: int| moved < b <= i implies #[trigger] in_order(
                    v@,
                    perm,
                    moved,
                    b,
                ) by {
                    if b > j {
                        assert(in_order(before, perm_before, j as int, b));
                    }
                }
            }
            j -= 1;
        }
        proof {
            assert forall|a: int, b: int| 0 <= a < b < i + 1 implies in_order(v@, perm, a, b) by {
                if b == j && a < j {
                    law_depth_order_total(v@[j - 1].0, v@[j as int].0, v@[j as int].0);
                    assert(perm[j - 1] != perm[j as int]);
                    assert(in_order(v@, perm, j - 1, j as int));
                    if a < j - 1 {
                        assert(in_order(v@, perm, a, j - 1));
                        lemma_in_order_transitive(v@, perm, a, j - 1, j as int);
                    }
                }
            }
            assert forall|k: int| 0 <= k < i + 1 implies (#[trigger] perm[k]) < i + 1 by {
                assert(perm[k] <= i);
            }
        }
        i += 1;
    }
    Ghost(perm)
}

} // verus!
