use crate::buckets::{bucket, bucket_of};
use crate::instance::{InstanceModel, InstanceState};
use crate::instancelist::{lemma_with_instance_wf, InstanceList, InstanceListModel};
use crate::slab::is_insert_slot;
use vstd::prelude::*;

verus! {

/// The state of the instance of handle `h`.
pub open spec fn state_of(slab: Seq<Option<InstanceModel>>, h: usize) -> InstanceState {
    slab[h as int]->0.state
}

/// `i` is the first place of `coll` from `from` on, and before `end`, whose
/// instance is in state `state`.
pub open spec fn is_next_in_state(
    coll: Seq<usize>,
    slab: Seq<Option<InstanceModel>>,
    from: int,
    end: int,
    state: InstanceState,
    i: int,
) -> bool {
    &&& 0 <= from <= i < end <= coll.len()
    &&& state_of(slab, coll[i]) == state
    &&& forall|j: int| from <= j < i ==> state_of(slab, #[trigger] coll[j]) != state
}

/// No place of `coll` from `from` on, and before `end`, has an instance in
/// state `state`.
pub open spec fn none_in_state(
    coll: Seq<usize>,
    slab: Seq<Option<InstanceModel>>,
    from: int,
    end: int,
    state: InstanceState,
) -> bool {
    forall|j: int| 0 <= from <= j < end && j < coll.len() ==> state_of(slab, #[trigger] coll[j]) != state
}

/// What a cursor's step over `coll` gives, and where it leaves the cursor:
/// the next handle in state `state`, with the cursor behind it, or nothing,
/// with the cursor where it was.
pub open spec fn steps_to(
    coll: Seq<usize>,
    slab: Seq<Option<InstanceModel>>,
    from: int,
    end: int,
    state: InstanceState,
    found: Option<usize>,
    to: int,
) -> bool {
    match found {
        Some(h) => is_next_in_state(coll, slab, from, end, state, to - 1) && h == coll[to - 1],
        None => to == from && none_in_state(coll, slab, from, end, state),
    }
}

/// Where a cursor over a list of an index ends: behind as many entries as
/// the list had when the cursor was made, or at the end of the list as it
/// is now, whichever comes first.
pub open spec fn scan_end(count: usize, len: nat) -> int {
    if count <= len {
        count as int
    } else {
        len as int
    }
}

/// Moves `idx` behind the next handle of `coll`, before `end`, whose
/// instance is in state `state`, and gives that handle.
fn nb_il_iter(coll: &Vec<usize>, end: usize, idx: &mut usize, list: &InstanceList, state: InstanceState) -> (found:
    Option<usize>)
    requires
        list.wf(),
        end <= coll@.len(),
        forall|i: int| 0 <= i < end ==> list@.live(#[trigger] coll@[i]),
    ensures
        steps_to(coll@, list@.slab, *old(idx) as int, end as int, state, found, *final(idx) as int),
{
    let mut i: usize = *idx;
    while i < end
        invariant
            list.wf(),
            *old(idx) <= i,
            *idx == *old(idx),
            end <= coll@.len(),
            forall|k: int| 0 <= k < end ==> list@.live(#[trigger] coll@[k]),
            forall|j: int| *old(idx) <= j < i ==> state_of(list@.slab, #[trigger] coll@[j]) != state,
        decreases end - i,
    {
        let h = coll[i];
        assert(list@.live(coll@[i as int]));
        if list.get(h).state == state {
            *idx = i + 1;
            return Some(h);
        }
        i += 1;
    }
    None
}

/// Moves `idx` behind the next entry of `coll` and gives that entry.
pub fn nb_coll_iter_advance(coll: &Vec<usize>, idx: &mut usize) -> (found: Option<usize>)
    ensures
        match found {
            Some(v) => *old(idx) < coll@.len() && v == coll@[*old(idx) as int] && *final(idx) == *old(
                idx,
            ) + 1,
            None => *old(idx) >= coll@.len() && *final(idx) == *old(idx),
        },
{
    if *idx < coll.len() {
        let v = coll[*idx];
        *idx = *idx + 1;
        Some(v)
    } else {
        None
    }
}

/// A cursor over the active instances in the order of drawing. It holds its
/// place and the length that the list had when the cursor was made, and
/// borrows nothing between two steps.
pub struct ILIterDrawOrder(usize, usize);

/// A cursor over the inactive instances in the order of drawing.
pub struct ILIterInactive(usize, usize);

/// A cursor over the instances filed under an identity: each instance whose
/// parents name the object id. It holds its place and how many instances
/// were filed when it was made, and gives none that was filed later.
pub struct IdentityIter {
    count: usize,
    position: usize,
    object_index: i32,
    state: InstanceState,
}

/// A cursor over the active instances filed under an object id, in the
/// order in which they were inserted. It holds its place and how many
/// instances were filed when it was made, and gives none that was filed
/// later.
pub struct ObjectIter {
    count: usize,
    position: usize,
    object_index: i32,
}

impl ILIterDrawOrder {
    pub closed spec fn position(&self) -> usize {
        self.0
    }

    pub closed spec fn limit(&self) -> usize {
        self.1
    }

    /// Whether the list is still as long as when the cursor was made, or
    /// longer, as `next` asks.
    pub fn fits(&self, list: &InstanceList) -> (ok: bool)
        ensures
            ok == (self.limit() <= list@.draw_order.len()),
    {
        self.1 <= list.draw_order.len()
    }

    /// The next active instance among those that were listed when the
    /// cursor was made. The list must not have been shortened since.
    pub fn next(&mut self, list: &InstanceList) -> (found: Option<usize>)
        requires
            list.wf(),
            old(self).limit() <= list@.draw_order.len(),
        ensures
            final(self).limit() == old(self).limit(),
            steps_to(
                list@.draw_order,
                list@.slab,
                old(self).position() as int,
                old(self).limit() as int,
                InstanceState::Active,
                found,
                final(self).position() as int,
            ),
    {
        nb_il_iter(&list.draw_order, self.1, &mut self.0, list, InstanceState::Active)
    }
}

impl ILIterInactive {
    pub closed spec fn position(&self) -> usize {
        self.0
    }

    pub closed spec fn limit(&self) -> usize {
        self.1
    }

    /// Whether the list is still as long as when the cursor was made, or
    /// longer, as `next` asks.
    pub fn fits(&self, list: &InstanceList) -> (ok: bool)
        ensures
            ok == (self.limit() <= list@.draw_order.len()),
    {
        self.1 <= list.draw_order.len()
    }

    /// The next inactive instance among those that were listed when the
    /// cursor was made. The list must not have been shortened since.
    pub fn next(&mut self, list: &InstanceList) -> (found: Option<usize>)
        requires
            list.wf(),
            old(self).limit() <= list@.draw_order.len(),
        ensures
            final(self).limit() == old(self).limit(),
            steps_to(
                list@.draw_order,
                list@.slab,
                old(self).position() as int,
                old(self).limit() as int,
                InstanceState::Inactive,
                found,
                final(self).position() as int,
            ),
    {
        nb_il_iter(&list.draw_order, self.1, &mut self.0, list, InstanceState::Inactive)
    }
}

impl IdentityIter {
    pub closed spec fn position(&self) -> usize {
        self.position
    }

    pub closed spec fn count(&self) -> usize {
        self.count
    }

    pub closed spec fn object_index(&self) -> i32 {
        self.object_index
    }

    pub closed spec fn state(&self) -> InstanceState {
        self.state
    }

    /// The next instance of the cursor's state among the entries that were
    /// filed under its identity when the cursor was made. Nothing that was
    /// filed later is given, and the scan never leaves the list as it is
    /// now.
    pub fn next(&mut self, list: &InstanceList) -> (found: Option<usize>)
        requires
            list.wf(),
        ensures
            final(self).count() == old(self).count(),
            final(self).object_index() == old(self).object_index(),
            final(self).state() == old(self).state(),
            steps_to(
                bucket_of(list@.by_object_inherit, old(self).object_index()),
                list@.slab,
                old(self).position() as int,
                scan_end(
                    old(self).count(),
                    bucket_of(list@.by_object_inherit, old(self).object_index()).len(),
                ),
                old(self).state(),
                found,
                final(self).position() as int,
            ),
    {
        match bucket(&list.object_id_map_inherit, self.object_index) {
            Some(v) => {
                proof {
                    assert forall|i: int| 0 <= i < v@.len() implies list@.live(#[trigger] v@[i]) by {
                        assert(list@.draw_order.contains(
                            list@.by_object_inherit[self.object_index][i],
                        ));
                    }
                }
                let end = if self.count <= v.len() {
                    self.count
                } else {
                    v.len()
                };
                nb_il_iter(v, end, &mut self.position, list, self.state)
            },
            None => None,
        }
    }
}

impl ObjectIter {
    pub closed spec fn position(&self) -> usize {
        self.position
    }

    pub closed spec fn count(&self) -> usize {
        self.count
    }

    pub closed spec fn object_index(&self) -> i32 {
        self.object_index
    }

    /// The next active instance among the entries that were filed under
    /// the cursor's object id when the cursor was made. Nothing that was
    /// filed later is given, and the scan never leaves the list as it is
    /// now.
    pub fn next(&mut self, list: &InstanceList) -> (found: Option<usize>)
        requires
            list.wf(),
        ensures
            final(self).count() == old(self).count(),
            final(self).object_index() == old(self).object_index(),
            steps_to(
                bucket_of(list@.by_object, old(self).object_index()),
                list@.slab,
                old(self).position() as int,
                scan_end(old(self).count(), bucket_of(list@.by_object, old(self).object_index()).len()),
                InstanceState::Active,
                found,
                final(self).position() as int,
            ),
    {
        match bucket(&list.object_id_map, self.object_index) {
            Some(v) => {
                proof {
                    assert forall|i: int| 0 <= i < v@.len() implies list@.live(#[trigger] v@[i]) by {
                        assert(list@.draw_order.contains(list@.by_object[self.object_index][i]));
                    }
                }
                let end = if self.count <= v.len() {
                    self.count
                } else {
                    v.len()
                };
                nb_il_iter(v, end, &mut self.position, list, InstanceState::Active)
            },
            None => None,
        }
    }
}

impl InstanceList {
    /// A cursor over the active instances that are listed now, in the order
    /// of drawing.
    pub fn iter_by_drawing(&self) -> (it: ILIterDrawOrder)
        ensures
            it.position() == 0,
            it.limit() == self@.draw_order.len(),
    {
        ILIterDrawOrder(0, self.draw_order.len())
    }

    /// A cursor over the inactive instances that are listed now, in the
    /// order of drawing.
    pub fn iter_inactive(&self) -> (it: ILIterInactive)
        ensures
            it.position() == 0,
            it.limit() == self@.draw_order.len(),
    {
        ILIterInactive(0, self.draw_order.len())
    }

    /// A cursor over the active instances that are filed now under identity
    /// `object_index`.
    pub fn iter_by_identity(&self, object_index: i32) -> (it: IdentityIter)
        ensures
            it.position() == 0,
            it.count() == bucket_of(self@.by_object_inherit, object_index).len(),
            it.object_index() == object_index,
            it.state() == InstanceState::Active,
    {
        IdentityIter {
            count: match bucket(&self.object_id_map_inherit, object_index) {
                Some(v) => v.len(),
                None => 0,
            },
            position: 0,
            object_index,
            state: InstanceState::Active,
        }
    }

    /// A cursor over the active instances that are filed now under object
    /// id `object_index`.
    pub fn iter_by_object(&self, object_index: i32) -> (it: ObjectIter)
        ensures
            it.position() == 0,
            it.count() == bucket_of(self@.by_object, object_index).len(),
            it.object_index() == object_index,
    {
        ObjectIter {
            count: match bucket(&self.object_id_map, object_index) {
                Some(v) => v.len(),
                None => 0,
            },
            position: 0,
            object_index,
        }
    }
}

/// One of the two indexes of a store: that by identity, or that by object.
pub open spec fn index_of(m: InstanceListModel, by_identity: bool) -> Map<i32, Seq<usize>> {
    if by_identity {
        m.by_object_inherit
    } else {
        m.by_object
    }
}

/// Cursor isolation, on insertion: a cursor over the order of drawing that
/// was made before an instance was inserted still meets what `next` asks
/// for, and no step of it gives the new handle.
pub proof fn law_cursor_skips_inserted(
    m: InstanceListModel,
    h: usize,
    inst: InstanceModel,
    from: int,
    state: InstanceState,
    found: Option<usize>,
    to: int,
)
    requires
        m.wf(),
        is_insert_slot(m.slab, h as int),
        steps_to(
            m.with_instance(h, inst).draw_order,
            m.with_instance(h, inst).slab,
            from,
            m.draw_order.len() as int,
            state,
            found,
            to,
        ),
    ensures
        m.with_instance(h, inst).wf(),
        m.draw_order.len() <= m.with_instance(h, inst).draw_order.len(),
        found != Some(h),
{
    lemma_with_instance_wf(m, h, inst);
    if found == Some(h) {
        assert(m.draw_order[to - 1] == h);
    }
}

/// Cursor isolation for the cursors over an index: a cursor over the list
/// of object id `o`, by object or by identity, that was made when the list
/// held `count` entries, before an instance was inserted, gives at no step
/// the new handle.
pub proof fn law_index_cursor_skips_inserted(
    m: InstanceListModel,
    h: usize,
    inst: InstanceModel,
    o: i32,
    by_identity: bool,
    count: usize,
    from: int,
    state: InstanceState,
    found: Option<usize>,
    to: int,
)
    requires
        m.wf(),
        is_insert_slot(m.slab, h as int),
        count == bucket_of(index_of(m, by_identity), o).len(),
        steps_to(
            bucket_of(index_of(m.with_instance(h, inst), by_identity), o),
            m.with_instance(h, inst).slab,
            from,
            scan_end(count, bucket_of(index_of(m.with_instance(h, inst), by_identity), o).len()),
            state,
            found,
            to,
        ),
    ensures
        found != Some(h),
{
    lemma_with_instance_wf(m, h, inst);
    let before = bucket_of(index_of(m, by_identity), o);
    let after = bucket_of(index_of(m.with_instance(h, inst), by_identity), o);
    assert(before.is_prefix_of(after));
    if found == Some(h) {
        assert(after[to - 1] == before[to - 1]);
        assert(index_of(m, by_identity).contains_key(o));
        assert(m.draw_order.contains(index_of(m, by_identity)[o][to - 1]));
    }
}

/// Cursor isolation, on deactivation and deletion: changing the state of an
/// instance changes no list of the store, so every cursor stays fit for its
/// next step, and a cursor over the active instances of any list `coll` of
/// handles, the order of drawing or a list of an index, does not give a
/// handle that was deactivated or marked deleted before the cursor reached
/// it.
pub proof fn law_cursor_skips_deactivated(
    m: InstanceListModel,
    h: usize,
    to_state: InstanceState,
    coll: Seq<usize>,
    from: int,
    limit: int,
    found: Option<usize>,
    to: int,
)
    requires
        m.wf(),
        m.live(h),
        to_state != InstanceState::Active,
        steps_to(
            coll,
            m.with_changed(h, InstanceModel { state: to_state, ..m.inst(h) }).slab,
            from,
            limit,
            InstanceState::Active,
            found,
            to,
        ),
    ensures
        m.with_changed(h, InstanceModel { state: to_state, ..m.inst(h) }).wf(),
        m.with_changed(h, InstanceModel { state: to_state, ..m.inst(h) }).draw_order == m.draw_order,
        m.with_changed(h, InstanceModel { state: to_state, ..m.inst(h) }).by_object == m.by_object,
        m.with_changed(h, InstanceModel { state: to_state, ..m.inst(h) }).by_object_inherit
            == m.by_object_inherit,
        found != Some(h),
{
    let out = m.with_changed(h, InstanceModel { state: to_state, ..m.inst(h) });
    assert forall|i: int| 0 <= i < out.draw_order.len() implies out.live(#[trigger] out.draw_order[i]) by {
        assert(m.live(m.draw_order[i]));
    }
}

} // verus!
