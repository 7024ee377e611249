use crate::buckets::{bucket, bucket_of, bucket_push, buckets, push_to_bucket};
use crate::handles::{lemma_those, those};
use crate::instance::{Instance, InstanceModel, InstanceState, NOONE};
use crate::slab::{is_insert_slot, with_inserted, with_removed, ChunkList, CHUNK_SIZE};
use std::collections::HashMap;
use vstd::prelude::*;

pub mod iter;
pub mod laws;
pub mod query;
pub mod removal;
pub mod saving;
pub mod sorting;

verus! {

broadcast use vstd::std_specs::hash::group_hash_axioms;

/// The slots of a slab of instances, each instance as a value.
pub open spec fn views(s: Seq<Option<Instance>>) -> Seq<Option<InstanceModel>> {
    Seq::new(
        s.len(),
        |i: int|
            match s[i] {
                Some(inst) => Some(inst@),
                None => None,
            },
    )
}

/// The instance store as a value.
pub struct InstanceListModel {
    /// The slots of the slab, by handle.
    pub slab: Seq<Option<InstanceModel>>,
    /// The handles in the order in which instances are drawn and visited.
    pub draw_order: Seq<usize>,
    /// The handles filed under the object id of their instance.
    pub by_object: Map<i32, Seq<usize>>,
    /// The handles filed under every object id that the parents of their
    /// instance name.
    pub by_object_inherit: Map<i32, Seq<usize>>,
}

/// Whether every handle of every list of `index` is among `order`.
pub open spec fn indexes_only(index: Map<i32, Seq<usize>>, order: Seq<usize>) -> bool {
    forall|k: i32, i: int|
        index.contains_key(k) && 0 <= i < index[k].len() ==> order.contains(#[trigger] index[k][i])
}

impl InstanceListModel {
    /// Whether `h` is the handle of an instance.
    pub open spec fn live(self, h: usize) -> bool {
        h < self.slab.len() && self.slab[h as int] is Some
    }

    /// The instance of a live handle.
    pub open spec fn inst(self, h: usize) -> InstanceModel {
        self.slab[h as int]->0
    }

    /// No handle is listed twice for drawing, every listed handle is live,
    /// and both indexes hold only listed handles.
    pub open spec fn wf(self) -> bool {
        &&& self.draw_order.no_duplicates()
        &&& forall|i: int| 0 <= i < self.draw_order.len() ==> self.live(#[trigger] self.draw_order[i])
        &&& indexes_only(self.by_object, self.draw_order)
        &&& indexes_only(self.by_object_inherit, self.draw_order)
    }

    /// The store after `inst` was inserted under handle `h`.
    pub open spec fn with_instance(self, h: usize, inst: InstanceModel) -> InstanceListModel {
        InstanceListModel {
            slab: with_inserted(self.slab, h as int, inst),
            draw_order: self.draw_order.push(h),
            by_object: bucket_push(self.by_object, inst.object_index, h),
            by_object_inherit: filed_by_identity(self.by_object_inherit, inst, h),
        }
    }

    /// The store with both indexes built anew from the active instances, in
    /// the order of drawing.
    pub open spec fn refreshed(self) -> InstanceListModel {
        InstanceListModel {
            by_object: rebuilt(self.draw_order, self.slab, false),
            by_object_inherit: rebuilt(self.draw_order, self.slab, true),
            ..self
        }
    }

    /// Whether every instance of the store is listed for drawing, that is,
    /// none is a dummy.
    pub open spec fn all_listed(self) -> bool {
        forall|h: usize| self.live(h) ==> self.draw_order.contains(h)
    }

    /// The store with the instance of `h` changed to `inst`.
    pub open spec fn with_changed(self, h: usize, inst: InstanceModel) -> InstanceListModel {
        InstanceListModel { slab: self.slab.update(h as int, Some(inst)), ..self }
    }
}

/// A slab and its instances as values have the same slots occupied.
pub proof fn lemma_views_full(s: Seq<Option<Instance>>)
    ensures
        crate::slab::is_full(views(s)) == crate::slab::is_full(s),
        views(s).len() == s.len(),
        forall|i: int|
            0 <= i < s.len() ==> ((#[trigger] views(s)[i]) is Some <==> s[i] is Some),
{
    if crate::slab::is_full(s) {
        assert forall|j: int| 0 <= j < views(s).len() implies views(s)[j] is Some by {
            assert(s[j] is Some);
        }
    }
    if crate::slab::is_full(views(s)) {
        assert forall|j: int| 0 <= j < s.len() implies s[j] is Some by {
            assert(views(s)[j] is Some);
        }
    }
}

/// Inserting an instance and taking the values can be done in either order.
pub proof fn lemma_views_inserted(s: Seq<Option<Instance>>, i: int, t: Instance)
    requires
        is_insert_slot(s, i),
    ensures
        is_insert_slot(views(s), i),
        views(with_inserted(s, i, t)) == with_inserted(views(s), i, t@),
{
    lemma_views_full(s);
    if !crate::slab::is_full(s) {
        assert forall|j: int| 0 <= j < i implies views(s)[j] is Some by {
            assert(s[j] is Some);
        }
    }
    assert(views(with_inserted(s, i, t)) =~= with_inserted(views(s), i, t@));
}

/// `index` with handle `h` appended to the list of every object id under
/// which `inst` is found by identity; every other list stays as it is.
pub open spec fn filed_by_identity(index: Map<i32, Seq<usize>>, inst: InstanceModel, h: usize) -> Map<
    i32,
    Seq<usize>,
> {
    Map::new(
        |o: i32| index.contains_key(o) || inst.has_identity(o),
        |o: i32|
            if inst.has_identity(o) {
                bucket_of(index, o).push(h)
            } else {
                index[o]
            },
    )
}

/// An instance with the parents that `inst` names in the first `n` places.
pub open spec fn with_first_parents(inst: InstanceModel, n: int) -> InstanceModel {
    InstanceModel { parents: inst.parents.subrange(0, n), ..inst }
}

/// An id is among the first `n + 1` of a list if it is among the first `n`
/// or stands at place `n`.
pub proof fn lemma_contains_step(ids: Seq<i32>, n: int, id: i32)
    requires
        0 <= n < ids.len(),
    ensures
        ids.subrange(0, n + 1).contains(id) <==> ids.subrange(0, n).contains(id) || ids[n] == id,
{
    let short = ids.subrange(0, n);
    let long = ids.subrange(0, n + 1);
    if short.contains(id) {
        let i = choose|i: int| 0 <= i < short.len() && short[i] == id;
        assert(long[i] == id);
    }
    if ids[n] == id {
        assert(long[n] == id);
    }
    if long.contains(id) {
        let i = choose|i: int| 0 <= i < long.len() && long[i] == id;
        if i < n {
            assert(short[i] == id);
        }
    }
}

/// Whether `id` is among the first `end` entries of `ids`.
fn occurs_before(ids: &Vec<i32>, end: usize, id: i32) -> (seen: bool)
    requires
        end <= ids@.len(),
    ensures
        seen == ids@.subrange(0, end as int).contains(id),
{
    let mut i: usize = 0;
    while i < end
        invariant
            i <= end <= ids@.len(),
            forall|j: int| 0 <= j < i ==> ids@[j] != id,
        decreases end - i,
    {
        if ids[i] == id {
            assert(ids@.subrange(0, end as int)[i as int] == id);
            return true;
        }
        i += 1;
    }
    false
}

/// Files handle `h` once under every object id that the parents of `inst`
/// name.
fn file_under(index: &mut HashMap<i32, Vec<usize>>, inst: &Instance, h: usize)
    ensures
        buckets(final(index)@) == filed_by_identity(buckets(old(index)@), inst@, h),
{
    let ghost start = buckets(index@);
    assert(buckets(index@) =~= filed_by_identity(start, with_first_parents(inst@, 0), h));
    let mut p: usize = 0;
    while p < inst.parents.len()
        invariant
            p <= inst.parents@.len(),
            buckets(index@) == filed_by_identity(start, with_first_parents(inst@, p as int), h),
        decreases inst.parents@.len() - p,
    {
        let id = inst.parents[p];
        let seen = occurs_before(&inst.parents, p, id);
        if !seen {
            push_to_bucket(index, id, h);
        }
        proof {
            let before = with_first_parents(inst@, p as int);
            let now = with_first_parents(inst@, p + 1);
            assert forall|o: i32| now.has_identity(o) <==> before.has_identity(o) || o == id by {
                lemma_contains_step(inst.parents@, p as int, o);
            }
            assert(seen == before.has_identity(id));
            assert(buckets(index@) =~= filed_by_identity(start, now, h));
        }
        p += 1;
    }
    assert(inst.parents@.subrange(0, inst.parents@.len() as int) =~= inst.parents@);
}

/// Changing a slot and taking the values can be done in either order.
pub proof fn lemma_views_update(s: Seq<Option<Instance>>, i: int, t: Option<Instance>)
    requires
        0 <= i < s.len(),
    ensures
        views(s.update(i, t)) == views(s).update(
            i,
            match t {
                Some(x) => Some(x@),
                None => None,
            },
        ),
{
    assert(views(s.update(i, t)) =~= views(s).update(
        i,
        match t {
            Some(x) => Some(x@),
            None => None,
        },
    ));
}

/// Whether the instance of `h` is active and is found under object id `o`:
/// by identity, that is by its parents, or else by its own object id.
pub open spec fn is_filed(slab: Seq<Option<InstanceModel>>, by_identity: bool, o: i32, h: usize) -> bool {
    &&& h < slab.len()
    &&& slab[h as int] is Some
    &&& slab[h as int]->0.state == InstanceState::Active
    &&& if by_identity {
        slab[h as int]->0.has_identity(o)
    } else {
        o == slab[h as int]->0.object_index
    }
}

/// Whether a handle is found under object id `o`.
pub open spec fn found_under(slab: Seq<Option<InstanceModel>>, by_identity: bool, o: i32) -> spec_fn(
    usize,
) -> bool {
    |h: usize| is_filed(slab, by_identity, o, h)
}

/// The handles of `order` that are found under object id `o`, in the order
/// of `order`.
pub open spec fn filed(
    order: Seq<usize>,
    slab: Seq<Option<InstanceModel>>,
    by_identity: bool,
    o: i32,
) -> Seq<usize> {
    those(order, found_under(slab, by_identity, o))
}

/// The index that `refresh_maps` builds: under every object id the handles
/// of `order` whose instance is active and is found under that id, in the
/// order of `order`. An id under which none is found has no list.
pub open spec fn rebuilt(order: Seq<usize>, slab: Seq<Option<InstanceModel>>, by_identity: bool) -> Map<
    i32,
    Seq<usize>,
> {
    Map::new(
        |o: i32| filed(order, slab, by_identity, o).len() > 0,
        |o: i32| filed(order, slab, by_identity, o),
    )
}

/// What is filed under an object id is what is found under it: nothing
/// else, nothing twice that was not listed twice.
pub proof fn lemma_filed(order: Seq<usize>, slab: Seq<Option<InstanceModel>>, by_identity: bool, o: i32)
    ensures
        forall|i: int|
            0 <= i < filed(order, slab, by_identity, o).len() ==> {
                let h = #[trigger] filed(order, slab, by_identity, o)[i];
                order.contains(h) && is_filed(slab, by_identity, o, h)
            },
        forall|h: usize|
            order.contains(h) && is_filed(slab, by_identity, o, h) ==> filed(
                order,
                slab,
                by_identity,
                o,
            ).contains(h),
        order.no_duplicates() ==> filed(order, slab, by_identity, o).no_duplicates(),
{
    lemma_those(order, found_under(slab, by_identity, o));
}

/// The index as it grows while the handles of `order` are filed one after
/// the other.
pub open spec fn filed_in_turn(
    order: Seq<usize>,
    slab: Seq<Option<InstanceModel>>,
    by_identity: bool,
) -> Map<i32, Seq<usize>>
    decreases order.len(),
{
    if order.len() == 0 {
        Map::empty()
    } else {
        let rest = filed_in_turn(order.drop_last(), slab, by_identity);
        let h = order.last();
        if h < slab.len() && slab[h as int] is Some && slab[h as int]->0.state
            == InstanceState::Active {
            if by_identity {
                filed_by_identity(rest, slab[h as int]->0, h)
            } else {
                bucket_push(rest, slab[h as int]->0.object_index, h)
            }
        } else {
            rest
        }
    }
}

/// Filing the handles one after the other gives, under object id `o`, the
/// handles that are found under it.
proof fn lemma_filed_in_turn_at(
    order: Seq<usize>,
    slab: Seq<Option<InstanceModel>>,
    by_identity: bool,
    o: i32,
)
    ensures
        bucket_of(filed_in_turn(order, slab, by_identity), o) == filed(order, slab, by_identity, o),
        filed_in_turn(order, slab, by_identity).contains_key(o) <==> filed(
            order,
            slab,
            by_identity,
            o,
        ).len() > 0,
    decreases order.len(),
{
    if order.len() > 0 {
        let init = order.drop_last();
        let last = order.last();
        lemma_filed_in_turn_at(init, slab, by_identity, o);
        let rest = filed_in_turn(init, slab, by_identity);
        if last < slab.len() && slab[last as int] is Some && slab[last as int]->0.state
            == InstanceState::Active {
        }
    }
}

/// Filing the handles one after the other builds the index.
pub proof fn lemma_filed_in_turn(order: Seq<usize>, slab: Seq<Option<InstanceModel>>, by_identity: bool)
    ensures
        filed_in_turn(order, slab, by_identity) == rebuilt(order, slab, by_identity),
{
    let a = filed_in_turn(order, slab, by_identity);
    let b = rebuilt(order, slab, by_identity);
    assert forall|o: i32| a.dom().contains(o) <==> b.dom().contains(o) by {
        lemma_filed_in_turn_at(order, slab, by_identity, o);
    }
    assert forall|o: i32| a.dom().contains(o) implies a[o] == b[o] by {
        lemma_filed_in_turn_at(order, slab, by_identity, o);
    }
    assert(a =~= b);
}

/// A rebuilt index holds only handles of the list it was built from.
pub proof fn lemma_rebuilt_indexes_only(
    order: Seq<usize>,
    slab: Seq<Option<InstanceModel>>,
    by_identity: bool,
)
    ensures
        indexes_only(rebuilt(order, slab, by_identity), order),
{
    let out = rebuilt(order, slab, by_identity);
    assert forall|k: i32, i: int|
        out.contains_key(k) && 0 <= i < out[k].len() implies order.contains(#[trigger] out[k][i]) by {
        lemma_filed(order, slab, by_identity, k);
        assert(order.contains(filed(order, slab, by_identity, k)[i]));
    }
}

/// The store of game-object instances: a slab of instances, the list that
/// gives the order of drawing, and two indexes by object id.
pub struct InstanceList {
    chunks: ChunkList<Instance>,
    draw_order: Vec<usize>,
    object_id_map: HashMap<i32, Vec<usize>>,
    object_id_map_inherit: HashMap<i32, Vec<usize>>,
}

impl View for InstanceList {
    type V = InstanceListModel;

    closed spec fn view(&self) -> InstanceListModel {
        InstanceListModel {
            slab: views(self.chunks@),
            draw_order: self.draw_order@,
            by_object: buckets(self.object_id_map@),
            by_object_inherit: buckets(self.object_id_map_inherit@),
        }
    }
}

impl InstanceList {
    /// The slab itself is well formed.
    pub closed spec fn slab_wf(&self) -> bool {
        self.chunks.wf()
    }

    /// What every operation keeps: the slab and the lists fit together.
    pub open spec fn wf(&self) -> bool {
        self.slab_wf() && self@.wf()
    }

    /// An empty store.
    pub fn new() -> (list: Self)
        ensures
            list.wf(),
            list@.slab.len() == crate::slab::CHUNKS_PREALLOCATED * CHUNK_SIZE,
            list@.draw_order.len() == 0,
            list@.by_object == Map::<i32, Seq<usize>>::empty(),
            list@.by_object_inherit == Map::<i32, Seq<usize>>::empty(),
            forall|h: usize| !list@.live(h),
    {
        let list = Self {
            chunks: ChunkList::new(),
            draw_order: Vec::new(),
            object_id_map: HashMap::new(),
            object_id_map_inherit: HashMap::new(),
        };
        assert(list@.by_object =~= Map::<i32, Seq<usize>>::empty());
        assert(list@.by_object_inherit =~= Map::<i32, Seq<usize>>::empty());
        list
    }

    /// The instance of handle `idx`, which has to be live.
    pub fn get(&self, idx: usize) -> (inst: &Instance)
        requires
            self.wf(),
            self@.live(idx),
        ensures
            inst@ == self@.inst(idx),
    {
        match self.chunks.get(idx) {
            Some(inst) => inst,
            None => {
                proof {
                    lemma_views_full(self.chunks@);
                    assert(views(self.chunks@)[idx as int] is Some);
                }
                vstd::pervasive::unreached()
            },
        }
    }

    /// Whether `idx` is listed for drawing.
    pub fn is_listed(&self, idx: usize) -> (listed: bool)
        ensures
            listed == self@.draw_order.contains(idx),
    {
        let mut i: usize = 0;
        while i < self.draw_order.len()
            invariant
                i <= self.draw_order@.len(),
                forall|j: int| 0 <= j < i ==> self.draw_order@[j] != idx,
            decreases self.draw_order@.len() - i,
        {
            if self.draw_order[i] == idx {
                return true;
            }
            i += 1;
        }
        false
    }

    /// How many handles the slab has room for before it has to grow.
    pub fn capacity(&self) -> (n: usize)
        requires
            self.wf(),
        ensures
            n == self@.slab.len(),
    {
        self.chunks.capacity()
    }

    /// The instance of handle `idx`, if it is live.
    pub fn try_get(&self, idx: usize) -> (inst: Option<&Instance>)
        requires
            self.wf(),
        ensures
            match inst {
                Some(i) => self@.live(idx) && i@ == self@.inst(idx),
                None => !self@.live(idx),
            },
    {
        let r = self.chunks.get(idx);
        proof {
            lemma_views_full(self.chunks@);
            if idx < self.chunks@.len() {
                assert(views(self.chunks@)[idx as int] is Some <==> self.chunks@[idx as int] is Some);
            }
        }
        r
    }

    /// Inserts an instance that is never drawn nor found: it only takes the
    /// lowest free handle.
    pub fn insert_dummy(&mut self, el: Instance) -> (handle: usize)
        requires
            old(self).wf(),
        ensures
            final(self).wf(),
            is_insert_slot(old(self)@.slab, handle as int),
            final(self)@ == (InstanceListModel {
                slab: with_inserted(old(self)@.slab, handle as int, el@),
                ..old(self)@
            }),
    {
        let ghost given = el;
        let handle = self.chunks.insert(el);
        proof {
            lemma_views_inserted(old(self).chunks@, handle as int, given);
            lemma_views_full(old(self).chunks@);
            assert forall|i: int| 0 <= i < self@.draw_order.len() implies self@.live(
                #[trigger] self@.draw_order[i],
            ) by {
                assert(old(self)@.live(old(self)@.draw_order[i]));
            }
        }
        handle
    }

    /// Removes an instance that was inserted as a dummy.
    pub fn remove_dummy(&mut self, instance: usize)
        requires
            old(self).wf(),
            !old(self)@.draw_order.contains(instance),
        ensures
            final(self).wf(),
            final(self)@ == (InstanceListModel {
                slab: with_removed(old(self)@.slab, instance as int),
                ..old(self)@
            }),
    {
        self.chunks.remove(instance);
        proof {
            if instance < old(self).chunks@.len() {
                lemma_views_update(old(self).chunks@, instance as int, None);
            }
            assert(self@.slab =~= with_removed(old(self)@.slab, instance as int));
            assert forall|i: int| 0 <= i < self@.draw_order.len() implies self@.live(
                #[trigger] self@.draw_order[i],
            ) by {
                assert(old(self)@.live(old(self)@.draw_order[i]));
                assert(old(self)@.draw_order.contains(old(self)@.draw_order[i]));
            }
        }
    }

    /// Gives the instance of `handle` the state `state` and the depth
    /// `depth`; the lists stay as they are.
    fn change(&mut self, handle: usize, state: InstanceState, depth: u64)
        requires
            old(self).wf(),
            old(self)@.live(handle),
        ensures
            final(self).wf(),
            final(self)@ == old(self)@.with_changed(
                handle,
                InstanceModel { state, depth, ..old(self)@.inst(handle) },
            ),
    {
        proof {
            lemma_views_full(self.chunks@);
            assert(views(self.chunks@)[handle as int] is Some);
        }
        match self.chunks.take(handle) {
            Some(inst) => {
                let changed = Instance { state, depth, ..inst };
                let ghost put = changed;
                self.chunks.set(handle, changed);
                proof {
                    assert(self.chunks@ =~= old(self).chunks@.update(handle as int, Some(put)));
                    lemma_views_update(old(self).chunks@, handle as int, Some(put));
                    assert(put@ == (InstanceModel { state, depth, ..old(self)@.inst(handle) }));
                    assert forall|i: int| 0 <= i < self@.draw_order.len() implies self@.live(
                        #[trigger] self@.draw_order[i],
                    ) by {
                        assert(old(self)@.live(old(self)@.draw_order[i]));
                    }
                }
            },
            None => {},
        }
    }

    /// Changes the state of the instance of `handle` to `to`.
    fn change_state(&mut self, handle: usize, to: InstanceState)
        requires
            old(self).wf(),
            old(self)@.live(handle),
        ensures
            final(self).wf(),
            final(self)@ == old(self)@.with_changed(
                handle,
                InstanceModel { state: to, ..old(self)@.inst(handle) },
            ),
    {
        let depth = self.get(handle).depth;
        self.change(handle, to, depth);
    }

    /// Takes an active instance out of play; the indexes stay as they are.
    pub fn deactivate(&mut self, handle: usize)
        requires
            old(self).wf(),
            old(self)@.live(handle),
        ensures
            final(self).wf(),
            final(self)@ == if old(self)@.inst(handle).state == InstanceState::Active {
                old(self)@.with_changed(
                    handle,
                    InstanceModel { state: InstanceState::Inactive, ..old(self)@.inst(handle) },
                )
            } else {
                old(self)@
            },
    {
        if self.get(handle).state == InstanceState::Active {
            self.change_state(handle, InstanceState::Inactive);
        }
    }

    /// Brings an inactive instance back into play; the indexes stay as they
    /// are.
    pub fn activate(&mut self, handle: usize)
        requires
            old(self).wf(),
            old(self)@.live(handle),
        ensures
            final(self).wf(),
            final(self)@ == if old(self)@.inst(handle).state == InstanceState::Inactive {
                old(self)@.with_changed(
                    handle,
                    InstanceModel { state: InstanceState::Active, ..old(self)@.inst(handle) },
                )
            } else {
                old(self)@
            },
    {
        if self.get(handle).state == InstanceState::Inactive {
            self.change_state(handle, InstanceState::Active);
        }
    }

    /// Marks an instance as deleted; it keeps its handle and its place in
    /// the lists until it is removed.
    pub fn mark_deleted(&mut self, handle: usize)
        requires
            old(self).wf(),
            old(self)@.live(handle),
        ensures
            final(self).wf(),
            final(self)@ == old(self)@.with_changed(
                handle,
                InstanceModel { state: InstanceState::Deleted, ..old(self)@.inst(handle) },
            ),
    {
        if self.get(handle).state != InstanceState::Deleted {
            self.change_state(handle, InstanceState::Deleted);
        } else {
            assert(self@.slab =~= self@.slab.update(handle as int, Some(self@.inst(handle))));
        }
    }

    /// Sets the depth, a 64-bit pattern, of the instance of `handle`; the
    /// order of drawing stays as it is until the next `draw_sort`.
    pub fn set_depth(&mut self, handle: usize, depth: u64)
        requires
            old(self).wf(),
            old(self)@.live(handle),
        ensures
            final(self).wf(),
            final(self)@ == old(self)@.with_changed(
                handle,
                InstanceModel { depth, ..old(self)@.inst(handle) },
            ),
    {
        let state = self.get(handle).state;
        self.change(handle, state, depth);
    }

    /// Builds both indexes anew from the active instances, in the order of
    /// drawing.
    pub fn refresh_maps(&mut self)
        requires
            old(self).wf(),
        ensures
            final(self).wf(),
            final(self)@ == old(self)@.refreshed(),
    {
        self.object_id_map.clear();
        self.object_id_map_inherit.clear();
        assert(buckets(self.object_id_map@) =~= Map::<i32, Seq<usize>>::empty());
        assert(buckets(self.object_id_map_inherit@) =~= Map::<i32, Seq<usize>>::empty());
        let ghost slab = views(self.chunks@);
        let ghost order = self.draw_order@;
        let n = self.draw_order.len();
        let mut i: usize = 0;
        while i < n
            invariant
                i <= n,
                n == order.len(),
                self.chunks == old(self).chunks,
                self.draw_order@ == order,
                slab == views(self.chunks@),
                self.chunks.wf(),
                buckets(self.object_id_map@) == filed_in_turn(order.subrange(0, i as int), slab, false),
                buckets(self.object_id_map_inherit@) == filed_in_turn(
                    order.subrange(0, i as int),
                    slab,
                    true,
                ),
            decreases n - i,
        {
            let handle = self.draw_order[i];
            proof {
                assert(order.subrange(0, i + 1).drop_last() =~= order.subrange(0, i as int));
                lemma_views_full(self.chunks@);
            }
            match self.chunks.get(handle) {
                Some(inst) => {
                    if inst.state == InstanceState::Active {
                        push_to_bucket(&mut self.object_id_map, inst.object_index, handle);
                        file_under(&mut self.object_id_map_inherit, inst, handle);
                    }
                },
                None => {},
            }
            i += 1;
        }
        proof {
            assert(order.subrange(0, n as int) =~= order);
            lemma_filed_in_turn(order, slab, false);
            lemma_filed_in_turn(order, slab, true);
            lemma_rebuilt_indexes_only(order, slab, false);
            lemma_rebuilt_indexes_only(order, slab, true);
        }
    }

    /// Makes room for `n` object ids in the index, so that filing them later
    /// need not grow it. The store itself stays as it is: how much room the
    /// index has reserved is no part of the store's value.
    pub fn obj_count_hint(&mut self, n: usize)
        ensures
            final(self)@ == old(self)@,
            old(self).wf() ==> final(self).wf(),
    {
        let len = self.object_id_map.len();
        if n > len {
            self.object_id_map.reserve(n - len);
        }
    }

    /// Inserts an instance: it takes the lowest free handle, is drawn last,
    /// is filed by object under its own object id, and is filed by identity
    /// once under each object id that its parents name. The index by
    /// identity holds it under its own object id only where its parents
    /// name that too.
    pub fn insert(&mut self, el: Instance) -> (handle: usize)
        requires
            old(self).wf(),
        ensures
            final(self).wf(),
            is_insert_slot(old(self)@.slab, handle as int),
            final(self)@ == old(self)@.with_instance(handle, el@),
    {
        let object_id = el.object_index;
        let ghost model = el@;
        let ghost given = el;
        let value = self.chunks.insert(el);
        proof {
            lemma_views_inserted(old(self).chunks@, value as int, given);
            lemma_views_full(old(self).chunks@);
        }
        self.draw_order.push(value);
        push_to_bucket(&mut self.object_id_map, object_id, value);
        match self.chunks.get(value) {
            Some(inst) => {
                file_under(&mut self.object_id_map_inherit, inst, value);
            },
            None => {},
        }
        proof {
            let m0 = old(self)@;
            let m1 = self@;
            assert(m1 == m0.with_instance(value, model));
            lemma_with_instance_wf(m0, value, model);
        }
        value
    }
}

/// Inserting into a well-formed store leaves it well formed.
pub proof fn lemma_with_instance_wf(m: InstanceListModel, h: usize, inst: InstanceModel)
    requires
        m.wf(),
        is_insert_slot(m.slab, h as int),
    ensures
        m.with_instance(h, inst).wf(),
        !m.draw_order.contains(h),
{
    let out = m.with_instance(h, inst);
    if m.draw_order.contains(h) {
        let i = choose|i: int| 0 <= i < m.draw_order.len() && m.draw_order[i] == h;
        assert(m.live(m.draw_order[i]));
    }
    assert forall|i: int| 0 <= i < out.draw_order.len() implies out.live(
        #[trigger] out.draw_order[i],
    ) by {
        if i < m.draw_order.len() {
            assert(m.live(m.draw_order[i]));
        }
    }
    assert forall|k: i32, i: int|
        out.by_object.contains_key(k) && 0 <= i < out.by_object[k].len() implies out.draw_order.contains(
        #[trigger] out.by_object[k][i],
    ) by {
        let x = out.by_object[k][i];
        if k == inst.object_index && i == bucket_of(m.by_object, k).len() {
            assert(out.draw_order[m.draw_order.len() as int] == h);
        } else {
            assert(m.by_object.contains_key(k));
            assert(m.draw_order.contains(m.by_object[k][i]));
            let j = choose|j: int| 0 <= j < m.draw_order.len() && m.draw_order[j] == x;
            assert(out.draw_order[j] == x);
        }
    }
    assert forall|k: i32, i: int|
        out.by_object_inherit.contains_key(k) && 0 <= i < out.by_object_inherit[k].len() implies out.draw_order.contains(
        #[trigger] out.by_object_inherit[k][i],
    ) by {
        let x = out.by_object_inherit[k][i];
        if i < bucket_of(m.by_object_inherit, k).len() {
            assert(m.by_object_inherit.contains_key(k));
            assert(m.draw_order.contains(m.by_object_inherit[k][i]));
            let j = choose|j: int| 0 <= j < m.draw_order.len() && m.draw_order[j] == x;
            assert(out.draw_order[j] == x);
        } else {
            assert(bucket_of(out.by_object_inherit, k)[i] == h);
            assert(out.draw_order[m.draw_order.len() as int] == h);
        }
    }
}

} // verus!
