use crate::buckets::{bucket_of, lemma_occurrences_absent, lemma_occurrences_unique, occurrences};
use crate::instance::{InstanceModel, InstanceState};
use crate::instancelist::{filed, is_filed, lemma_filed, lemma_with_instance_wf, InstanceListModel};
use crate::savestate::{lemma_rank_counts_live, rank};
use crate::slab::{
    dense, is_insert_slot, lemma_dense_index, lemma_dense_take_grows, lemma_dense_take_step,
};
use vstd::prelude::*;

verus! {

/// The index by identity is complete: an instance that is inserted is
/// appended exactly once to the list of each object id that its parents
/// name, however often they name it, and every other list stays as it was,
/// that of its own object id too where the parents do not name it.
pub proof fn law_inherit_index_complete(m: InstanceListModel, h: usize, inst: InstanceModel, p: i32)
    requires
        m.wf(),
        is_insert_slot(m.slab, h as int),
    ensures
        inst.parents.contains(p) ==> {
            &&& m.with_instance(h, inst).by_object_inherit.contains_key(p)
            &&& m.with_instance(h, inst).by_object_inherit[p] == bucket_of(
                m.by_object_inherit,
                p,
            ).push(h)
            &&& occurrences(m.with_instance(h, inst).by_object_inherit[p], h) == 1
        },
        !inst.parents.contains(p) ==> {
            &&& m.with_instance(h, inst).by_object_inherit.contains_key(p)
                == m.by_object_inherit.contains_key(p)
            &&& bucket_of(m.with_instance(h, inst).by_object_inherit, p) == bucket_of(
                m.by_object_inherit,
                p,
            )
        },
{
    lemma_with_instance_wf(m, h, inst);
    let before = bucket_of(m.by_object_inherit, p);
    if before.contains(h) {
        let i = choose|i: int| 0 <= i < before.len() && before[i] == h;
        assert(m.draw_order.contains(m.by_object_inherit[p][i]));
    }
    lemma_occurrences_absent(before, h);
    assert(before.push(h).drop_last() =~= before);
}

/// What `refresh_maps` leaves: under every object id `o` the index by
/// object holds the listed handles whose active instance is of object `o`,
/// and the index by identity those whose active instance names `o` among
/// its parents, both in the order of drawing; an id under which no
/// handle is found has no list. So the index by identity is complete: every
/// such handle is filed exactly once. Building the indexes anew a second
/// time changes nothing.
pub proof fn law_refresh_maps(m: InstanceListModel, h: usize, o: i32)
    requires
        m.wf(),
    ensures
        m.refreshed().refreshed() == m.refreshed(),
        bucket_of(m.refreshed().by_object, o) == filed(m.draw_order, m.slab, false, o),
        bucket_of(m.refreshed().by_object_inherit, o) == filed(m.draw_order, m.slab, true, o),
        m.refreshed().by_object.contains_key(o) <==> filed(m.draw_order, m.slab, false, o).len() > 0,
        m.refreshed().by_object_inherit.contains_key(o) <==> filed(
            m.draw_order,
            m.slab,
            true,
            o,
        ).len() > 0,
        m.draw_order.contains(h) && is_filed(m.slab, true, o, h) ==> occurrences(
            bucket_of(m.refreshed().by_object_inherit, o),
            h,
        ) == 1,
{
    lemma_filed(m.draw_order, m.slab, true, o);
    lemma_occurrences_unique(filed(m.draw_order, m.slab, true, o), h);
}


/// The handle that a listed instance has after the store was saved and
/// restored: its rank among the listed handles. It names the same instance
/// as the handle did before.
pub proof fn lemma_rank_names_instance(m: InstanceListModel, h: usize)
    requires
        m.wf(),
        m.all_listed(),
        m.live(h),
    ensures
        rank(m.draw_order, h) <= h,
        rank(m.draw_order, h) < dense(m.slab).len(),
        dense(m.slab)[rank(m.draw_order, h) as int] == m.inst(h),
{
    lemma_listed_iff_live(m);
    lemma_rank_counts_live(m.draw_order, m.slab, h);
    lemma_dense_index(m.slab, h as int);
    lemma_dense_len(m.slab.take(h as int));
}

/// In a store without dummies the listed handles are the live ones.
pub proof fn lemma_listed_iff_live(m: InstanceListModel)
    requires
        m.wf(),
        m.all_listed(),
    ensures
        forall|x: usize|
            #[trigger] m.draw_order.contains(x) <==> x < m.slab.len() && m.slab[x as int] is Some,
{
    assert forall|x: usize|
        #[trigger] m.draw_order.contains(x) <==> x < m.slab.len() && m.slab[x as int] is Some by {
        if m.draw_order.contains(x) {
            let i = choose|i: int| 0 <= i < m.draw_order.len() && m.draw_order[i] == x;
            assert(m.live(m.draw_order[i]));
        }
        if x < m.slab.len() && m.slab[x as int] is Some {
            assert(m.live(x));
        }
    }
}

/// Two different listed handles have different ranks.
pub proof fn lemma_rank_injective(m: InstanceListModel, a: usize, b: usize)
    requires
        m.wf(),
        m.all_listed(),
        m.live(a),
        m.live(b),
        a < b,
    ensures
        rank(m.draw_order, a) < rank(m.draw_order, b),
{
    lemma_listed_iff_live(m);
    lemma_rank_counts_live(m.draw_order, m.slab, a);
    lemma_rank_counts_live(m.draw_order, m.slab, b);
    lemma_dense_take_step(m.slab, a as int);
    lemma_dense_take_grows(m.slab, a + 1, b as int);
}

/// Saved state round trip: a store without dummies that is saved and
/// restored is a store again, and it lists the same instances in the same
/// order, for drawing and under every object id and identity. So every
/// cursor visits the same instances in the same order as before.
#[verifier::rlimit(50)]
pub proof fn law_savestate_round_trip(m: InstanceListModel)
    requires
        m.wf(),
        m.all_listed(),
    ensures
        m.saved().valid(),
        m.saved().restored().wf(),
        same_listing(m.saved().restored(), m.saved().restored().draw_order, m, m.draw_order),
        forall|k: i32|
            m.saved().restored().by_object.contains_key(k) == m.by_object.contains_key(k),
        forall|k: i32| #[trigger]
            m.by_object.contains_key(k) ==> same_listing(
                m.saved().restored(),
                m.saved().restored().by_object[k],
                m,
                m.by_object[k],
            ),
        forall|k: i32|
            m.saved().restored().by_object_inherit.contains_key(k) == m.by_object_inherit.contains_key(
                k,
            ),
        forall|k: i32| #[trigger]
            m.by_object_inherit.contains_key(k) ==> same_listing(
                m.saved().restored(),
                m.saved().restored().by_object_inherit[k],
                m,
                m.by_object_inherit[k],
            ),
{
    let d = m.saved();
    let r = d.restored();
    let order = m.draw_order;
    assert forall|i: int| 0 <= i < order.len() implies (#[trigger] d.draw_order[i]) < d.chunks.len()
        && r.live(d.draw_order[i]) && r.inst(d.draw_order[i]) == m.inst(order[i]) by {
        assert(m.live(order[i]));
        lemma_rank_names_instance(m, order[i]);
    }
    assert forall|a: int, b: int| 0 <= a < b < d.draw_order.len() implies d.draw_order[a]
        != d.draw_order[b] by {
        assert(m.live(order[a]));
        assert(m.live(order[b]));
        assert(order[a] != order[b]);
        lemma_rank_names_instance(m, order[a]);
        lemma_rank_names_instance(m, order[b]);
        if order[a] < order[b] {
            lemma_rank_injective(m, order[a], order[b]);
        } else {
            lemma_rank_injective(m, order[b], order[a]);
        }
        assert(d.draw_order[a] == rank(order, order[a]));
        assert(d.draw_order[b] == rank(order, order[b]));
    }
    assert forall|k: i32, i: int|
        d.object_id_map.contains_key(k) && 0 <= i < d.object_id_map[k].len() implies d.draw_order.contains(
        #[trigger] d.object_id_map[k][i],
    ) by {
        let h = m.by_object[k][i];
        assert(order.contains(h));
        let j = choose|j: int| 0 <= j < order.len() && order[j] == h;
        assert(d.draw_order[j] == d.object_id_map[k][i]);
    }
    assert forall|k: i32, i: int|
        d.object_id_map_inherit.contains_key(k) && 0 <= i < d.object_id_map_inherit[k].len() implies d.draw_order.contains(
        #[trigger] d.object_id_map_inherit[k][i],
    ) by {
        let h = m.by_object_inherit[k][i];
        assert(order.contains(h));
        let j = choose|j: int| 0 <= j < order.len() && order[j] == h;
        assert(d.draw_order[j] == d.object_id_map_inherit[k][i]);
    }
    assert forall|k: i32| #[trigger] m.by_object.contains_key(k) implies same_listing(
        r,
        r.by_object[k],
        m,
        m.by_object[k],
    ) by {
        assert forall|i: int| 0 <= i < m.by_object[k].len() implies r.live(
            #[trigger] r.by_object[k][i],
        ) && r.inst(r.by_object[k][i]) == m.inst(m.by_object[k][i]) by {
            let h = m.by_object[k][i];
            assert(order.contains(h));
            let j = choose|j: int| 0 <= j < order.len() && order[j] == h;
            assert(m.live(order[j]));
            lemma_rank_names_instance(m, h);
        }
    }
    assert forall|k: i32| #[trigger] m.by_object_inherit.contains_key(k) implies same_listing(
        r,
        r.by_object_inherit[k],
        m,
        m.by_object_inherit[k],
    ) by {
        assert forall|i: int| 0 <= i < m.by_object_inherit[k].len() implies r.live(
            #[trigger] r.by_object_inherit[k][i],
        ) && r.inst(r.by_object_inherit[k][i]) == m.inst(m.by_object_inherit[k][i]) by {
            let h = m.by_object_inherit[k][i];
            assert(order.contains(h));
            let j = choose|j: int| 0 <= j < order.len() && order[j] == h;
            assert(m.live(order[j]));
            lemma_rank_names_instance(m, h);
        }
    }
}

/// Whether list `a` of store `x` names, place by place, the same instances
/// as list `b` of store `y`.
pub open spec fn same_listing(x: InstanceListModel, a: Seq<usize>, y: InstanceListModel, b: Seq<usize>) -> bool {
    &&& a.len() == b.len()
    &&& forall|i: int|
        0 <= i < a.len() ==> x.live(#[trigger] a[i]) && x.inst(a[i]) == y.inst(b[i])
}

/// A dense list is no longer than the slab.
pub proof fn lemma_dense_len<T>(s: Seq<Option<T>>)
    ensures
        dense(s).len() <= s.len(),
    decreases s.len(),
{
    if s.len() > 0 {
        lemma_dense_len(s.drop_last());
    }
}

} // verus!
