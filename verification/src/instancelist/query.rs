use crate::buckets::{bucket, bucket_of};
use crate::instance::{InstanceModel, InstanceState, NOONE};
use crate::instancelist::{InstanceList, InstanceListModel};
use vstd::prelude::*;

verus! {

/// How many handles of `coll` have an instance for which `f` holds.
pub open spec fn count_where(
    coll: Seq<usize>,
    slab: Seq<Option<InstanceModel>>,
    f: spec_fn(InstanceModel) -> bool,
) -> nat
    decreases coll.len(),
{
    if coll.len() == 0 {
        0
    } else {
        count_where(coll.drop_last(), slab, f) + if f(slab[coll.last() as int]->0) {
            1nat
        } else {
            0nat
        }
    }
}

/// A count is zero exactly when `f` holds for no handle of the list.
pub proof fn lemma_count_where_none(
    coll: Seq<usize>,
    slab: Seq<Option<InstanceModel>>,
    f: spec_fn(InstanceModel) -> bool,
)
    ensures
        count_where(coll, slab, f) == 0 <==> forall|i: int|
            0 <= i < coll.len() ==> !f(slab[#[trigger] coll[i] as int]->0),
    decreases coll.len(),
{
    if coll.len() > 0 {
        let init = coll.drop_last();
        lemma_count_where_none(init, slab, f);
        if count_where(coll, slab, f) == 0 {
            assert forall|i: int| 0 <= i < coll.len() implies !f(slab[#[trigger] coll[i] as int]->0) by {
                if i < init.len() {
                    assert(init[i] == coll[i]);
                }
            }
        } else if count_where(init, slab, f) != 0 {
            let i = choose|i: int| 0 <= i < init.len() && f(slab[#[trigger] init[i] as int]->0);
            assert(coll[i] == init[i]);
        }
    }
}

/// Whether an instance is in play.
pub open spec fn is_active(inst: InstanceModel) -> bool {
    inst.state == InstanceState::Active
}

/// Deleted instances count as present until they are removed; inactive
/// ones do not.
pub open spec fn is_present(inst: InstanceModel) -> bool {
    inst.state != InstanceState::Inactive
}

impl InstanceListModel {
    /// Whether `h` is the handle of an active instance with id `id`.
    pub open spec fn is_active_with_id(self, h: usize, id: i32) -> bool {
        self.inst(h).id == id && self.inst(h).state == InstanceState::Active
    }
}

impl InstanceList {
    /// The first active instance in the order of drawing whose id is
    /// `instance_index`.
    pub fn get_by_instid(&self, instance_index: i32) -> (found: Option<usize>)
        requires
            self.wf(),
        ensures
            match found {
                Some(h) => exists|i: int|
                    {
                        &&& 0 <= i < self@.draw_order.len()
                        &&& #[trigger] self@.draw_order[i] == h
                        &&& self@.is_active_with_id(h, instance_index)
                        &&& forall|j: int|
                            0 <= j < i ==> !self@.is_active_with_id(
                                #[trigger] self@.draw_order[j],
                                instance_index,
                            )
                    },
                None => forall|i: int|
                    0 <= i < self@.draw_order.len() ==> !self@.is_active_with_id(
                        #[trigger] self@.draw_order[i],
                        instance_index,
                    ),
            },
    {
        let mut i: usize = 0;
        while i < self.draw_order.len()
            invariant
                self.wf(),
                i <= self.draw_order@.len(),
                forall|j: int|
                    0 <= j < i ==> !self@.is_active_with_id(
                        #[trigger] self@.draw_order[j],
                        instance_index,
                    ),
            decreases self.draw_order@.len() - i,
        {
            let h = self.draw_order[i];
            assert(self@.live(self@.draw_order[i as int]));
            let inst = self.get(h);
            if inst.id == instance_index && inst.state == InstanceState::Active {
                assert(self@.draw_order[i as int] == h);
                return Some(h);
            }
            i += 1;
        }
        None
    }

    /// Counts the handles of `coll` whose instance is in state `state`, or,
    /// with `negate`, in any other state.
    fn count_in(&self, coll: &Vec<usize>, state: InstanceState, negate: bool) -> (n: usize)
        requires
            self.wf(),
            forall|i: int| 0 <= i < coll@.len() ==> self@.live(#[trigger] coll@[i]),
        ensures
            n == count_where(
                coll@,
                self@.slab,
                |inst: InstanceModel| (inst.state == state) != negate,
            ),
    {
        let ghost f = |inst: InstanceModel| (inst.state == state) != negate;
        let mut n: usize = 0;
        let mut i: usize = 0;
        while i < coll.len()
            invariant
                self.wf(),
                i <= coll@.len(),
                forall|k: int| 0 <= k < coll@.len() ==> self@.live(#[trigger] coll@[k]),
                n == count_where(coll@.subrange(0, i as int), self@.slab, f),
                n <= i,
                f == (|inst: InstanceModel| (inst.state == state) != negate),
            decreases coll@.len() - i,
        {
            assert(coll@.subrange(0, i + 1).drop_last() =~= coll@.subrange(0, i as int));
            assert(self@.live(coll@[i as int]));
            let inst = self.get(coll[i]);
            if (inst.state == state) != negate {
                n += 1;
            }
            i += 1;
        }
        assert(coll@.subrange(0, coll@.len() as int) =~= coll@);
        n
    }

    /// How many active instances are filed under identity `object_index`.
    pub fn count(&self, object_index: i32) -> (n: usize)
        requires
            self.wf(),
        ensures
            n == count_where(
                bucket_of(self@.by_object_inherit, object_index),
                self@.slab,
                |inst: InstanceModel| is_active(inst),
            ),
    {
        match bucket(&self.object_id_map_inherit, object_index) {
            Some(list) => {
                proof {
                    assert forall|i: int| 0 <= i < list@.len() implies self@.live(
                        #[trigger] list@[i],
                    ) by {
                        assert(self@.draw_order.contains(self@.by_object_inherit[object_index][i]));
                    }
                    assert((|inst: InstanceModel| (inst.state == InstanceState::Active) != false)
                        =~= (|inst: InstanceModel| is_active(inst)));
                }
                self.count_in(list, InstanceState::Active, false)
            },
            None => 0,
        }
    }

    /// Whether any instance in the order of drawing is active.
    pub fn any_active(&self) -> (any: bool)
        requires
            self.wf(),
        ensures
            any == (count_where(self@.draw_order, self@.slab, |inst: InstanceModel| is_active(inst))
                > 0),
            any == exists|i: int|
                0 <= i < self@.draw_order.len() && is_active(
                    self@.inst(#[trigger] self@.draw_order[i]),
                ),
    {
        let n = self.count_all_active();
        proof {
            lemma_count_where_none(
                self@.draw_order,
                self@.slab,
                |inst: InstanceModel| is_active(inst),
            );
        }
        n > 0
    }

    /// How many instances in the order of drawing are active.
    pub fn count_all_active(&self) -> (n: usize)
        requires
            self.wf(),
        ensures
            n == count_where(self@.draw_order, self@.slab, |inst: InstanceModel| is_active(inst)),
    {
        proof {
            assert((|inst: InstanceModel| (inst.state == InstanceState::Active) != false) =~= (
            |inst: InstanceModel| is_active(inst)));
        }
        self.count_in(&self.draw_order, InstanceState::Active, false)
    }

    /// How many instances in the order of drawing are present, that is, not
    /// inactive.
    pub fn count_all(&self) -> (n: usize)
        requires
            self.wf(),
        ensures
            n == count_where(self@.draw_order, self@.slab, |inst: InstanceModel| is_present(inst)),
    {
        proof {
            assert((|inst: InstanceModel| (inst.state == InstanceState::Inactive) != true) =~= (
            |inst: InstanceModel| is_present(inst)));
        }
        self.count_in(&self.draw_order, InstanceState::Inactive, true)
    }

    /// The id of the `n`-th present instance in the order of drawing,
    /// counted from 0, or `NOONE` where there are not that many.
    pub fn instance_at(&self, n: usize) -> (id: i32)
        requires
            self.wf(),
        ensures
            count_where(self@.draw_order, self@.slab, |inst: InstanceModel| is_present(inst)) <= n
                ==> id == NOONE,
            count_where(self@.draw_order, self@.slab, |inst: InstanceModel| is_present(inst)) > n
                ==> exists|i: int|
                {
                    &&& 0 <= i < self@.draw_order.len()
                    &&& is_present(self@.inst(#[trigger] self@.draw_order[i]))
                    &&& count_where(
                        self@.draw_order.subrange(0, i),
                        self@.slab,
                        |inst: InstanceModel| is_present(inst),
                    ) == n
                    &&& id == self@.inst(self@.draw_order[i]).id
                },
    {
        let ghost f = |inst: InstanceModel| is_present(inst);
        let mut seen: usize = 0;
        let mut i: usize = 0;
        while i < self.draw_order.len()
            invariant
                self.wf(),
                i <= self.draw_order@.len(),
                seen == count_where(self@.draw_order.subrange(0, i as int), self@.slab, f),
                seen <= n,
                seen <= i,
                f == (|inst: InstanceModel| is_present(inst)),
            decreases self.draw_order@.len() - i,
        {
            let h = self.draw_order[i];
            assert(self@.live(self@.draw_order[i as int]));
            assert(self@.draw_order.subrange(0, i + 1).drop_last() =~= self@.draw_order.subrange(
                0,
                i as int,
            ));
            let inst = self.get(h);
            if inst.state != InstanceState::Inactive {
                if seen == n {
                    proof {
                        lemma_count_grows(self@.draw_order, self@.slab, f, i + 1);
                        assert(self@.draw_order[i as int] == h);
                    }
                    return inst.id;
                }
                seen += 1;
            }
            i += 1;
        }
        assert(self@.draw_order.subrange(0, self@.draw_order.len() as int) =~= self@.draw_order);
        NOONE
    }
}

/// A count over a list is at least the count over any of its beginnings.
pub proof fn lemma_count_grows(
    coll: Seq<usize>,
    slab: Seq<Option<InstanceModel>>,
    f: spec_fn(InstanceModel) -> bool,
    i: int,
)
    requires
        0 <= i <= coll.len(),
    ensures
        count_where(coll.subrange(0, i), slab, f) <= count_where(coll, slab, f),
    decreases coll.len(),
{
    if i == coll.len() {
        assert(coll.subrange(0, i) =~= coll);
    } else {
        lemma_count_grows(coll.drop_last(), slab, f, i);
        assert(coll.drop_last().subrange(0, i) =~= coll.subrange(0, i));
    }
}

} // verus!
