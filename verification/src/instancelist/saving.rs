use crate::buckets::{bucket, buckets, lemma_keys};
use crate::handles::{marked, names_each_once};
use crate::instance::{Instance, InstanceModel};
use crate::instancelist::{indexes_only, lemma_views_full, views, InstanceList, InstanceListModel};
use crate::savestate::{defrag, defrag_map, ranked_index, ranks};
use crate::slab::{dense, refilled, ChunkList};
use std::collections::HashMap;
use vstd::prelude::*;
use vstd::std_specs::iter::IteratorSpec;

verus! {

broadcast use vstd::std_specs::hash::group_hash_axioms;

/// The instance store as it is written to a saved state: the instances as
/// a dense list, and the lists of handles with every handle exchanged for
/// the one that the instance gets when the dense list is inserted anew.
pub struct InstanceListData {
    pub chunks: Vec<Instance>,
    pub draw_order: Vec<usize>,
    pub object_id_map: HashMap<i32, Vec<usize>>,
    pub object_id_map_inherit: HashMap<i32, Vec<usize>>,
}

/// A saved instance store as a value.
pub struct SavedInstances {
    pub chunks: Seq<InstanceModel>,
    pub draw_order: Seq<usize>,
    pub object_id_map: Map<i32, Seq<usize>>,
    pub object_id_map_inherit: Map<i32, Seq<usize>>,
}

impl View for InstanceListData {
    type V = SavedInstances;

    open spec fn view(&self) -> SavedInstances {
        SavedInstances {
            chunks: self.chunks@.map_values(|i: Instance| i@),
            draw_order: self.draw_order@,
            object_id_map: buckets(self.object_id_map@),
            object_id_map_inherit: buckets(self.object_id_map_inherit@),
        }
    }
}

impl SavedInstances {
    /// Whether the saved lists describe a store: no instance is listed twice
    /// for drawing, every listed handle names a saved instance, and both
    /// indexes hold only listed handles.
    pub open spec fn valid(self) -> bool {
        &&& names_each_once(self.draw_order, self.chunks.len())
        &&& indexes_only(self.object_id_map, self.draw_order)
        &&& indexes_only(self.object_id_map_inherit, self.draw_order)
    }

    /// The store that the saved lists describe.
    pub open spec fn restored(self) -> InstanceListModel {
        InstanceListModel {
            slab: refilled(self.chunks),
            draw_order: self.draw_order,
            by_object: self.object_id_map,
            by_object_inherit: self.object_id_map_inherit,
        }
    }
}

impl InstanceListModel {
    /// The store as it is saved.
    pub open spec fn saved(self) -> SavedInstances {
        SavedInstances {
            chunks: dense(self.slab),
            draw_order: ranks(self.draw_order, self.draw_order),
            object_id_map: ranked_index(self.by_object, self.draw_order),
            object_id_map_inherit: ranked_index(self.by_object_inherit, self.draw_order),
        }
    }
}

/// The dense list of the values is the values of the dense list.
pub proof fn lemma_dense_views(s: Seq<Option<Instance>>)
    ensures
        dense(views(s)) == dense(s).map_values(|i: Instance| i@),
    decreases s.len(),
{
    if s.len() > 0 {
        lemma_dense_views(s.drop_last());
        assert(views(s).drop_last() =~= views(s.drop_last()));
        assert(dense(views(s)) =~= dense(s).map_values(|i: Instance| i@));
    } else {
        assert(dense(views(s)) =~= dense(s).map_values(|i: Instance| i@));
    }
}

/// Whether every handle of every list of `map` is marked in `marks`.
fn all_marked(map: &HashMap<i32, Vec<usize>>, marks: &Vec<bool>) -> (ok: bool)
    ensures
        ok == forall|k: i32, i: int|
            map@.contains_key(k) && 0 <= i < map@[k]@.len() ==> (#[trigger] map@[k]@[i]) < marks@.len()
                && marks@[map@[k]@[i] as int],
{
    proof {
        lemma_keys(map);
    }
    for key in it: map.keys()
        invariant
            forall|j: int| 0 <= j < it.seq().len() ==> map@.contains_key(*#[trigger] it.seq()[j]),
            forall|k: i32|
                #[trigger] map@.contains_key(k) ==> (exists|j: int|
                    it.index() <= j < it.seq().len() && *#[trigger] it.seq()[j] == k) || forall|i: int|
                    0 <= i < map@[k]@.len() ==> (#[trigger] map@[k]@[i]) < marks@.len()
                        && marks@[map@[k]@[i] as int],
    {
        let ghost idx = it.index();
        assert(map@.contains_key(*it.seq()[idx]));
        match bucket(map, *key) {
            Some(list) => {
                assert(list@ == map@[*key]@);
                let mut i: usize = 0;
                while i < list.len()
                    invariant
                        i <= list@.len(),
                        map@.contains_key(*key),
                        list@ == map@[*key]@,
                        forall|x: int|
                            0 <= x < i ==> (#[trigger] list@[x]) < marks@.len() && marks@[list@[x] as int],
                    decreases list@.len() - i,
                {
                    let h = list[i];
                    if h >= marks.len() || !marks[h] {
                        assert(map@[*key]@[i as int] == h);
                        return false;
                    }
                    i += 1;
                }
            },
            None => {},
        }
        proof {
            assert forall|k: i32| #[trigger] map@.contains_key(k) implies (exists|j: int|
                idx + 1 <= j < it.seq().len() && *#[trigger] it.seq()[j] == k) || forall|i: int|
                0 <= i < map@[k]@.len() ==> (#[trigger] map@[k]@[i]) < marks@.len()
                    && marks@[map@[k]@[i] as int] by {
                if k != *key {
                    if exists|j: int| idx <= j < it.seq().len() && *#[trigger] it.seq()[j] == k {
                        let j = choose|j: int|
                            idx <= j < it.seq().len() && *#[trigger] it.seq()[j] == k;
                        assert(idx + 1 <= j);
                    }
                }
            }
        }
    }
    true
}

/// Whether every handle of every list of `map` is among `order`, given
/// for each handle whether `order` names it.
fn lists_only(map: &HashMap<i32, Vec<usize>>, order: &Vec<usize>, marks: &Vec<bool>) -> (ok: bool)
    requires
        forall|i: int| 0 <= i < order@.len() ==> (#[trigger] order@[i]) < marks@.len(),
        forall|h: int|
            0 <= h < marks@.len() ==> ((#[trigger] marks@[h]) <==> order@.contains(h as usize)),
    ensures
        ok == indexes_only(buckets(map@), order@),
{
    let ok = all_marked(map, marks);
    proof {
        if ok {
            assert forall|k: i32, i: int|
                buckets(map@).contains_key(k) && 0 <= i < buckets(map@)[k].len() implies order@.contains(
                #[trigger] buckets(map@)[k][i],
            ) by {
                let h = map@[k]@[i];
                assert(marks@[h as int]);
            }
        }
        if indexes_only(buckets(map@), order@) {
            assert forall|k: i32, i: int|
                map@.contains_key(k) && 0 <= i < map@[k]@.len() implies (#[trigger] map@[k]@[i])
                < marks@.len() && marks@[map@[k]@[i] as int] by {
                let h = buckets(map@)[k][i];
                assert(order@.contains(h));
                let x = choose|x: int| 0 <= x < order@.len() && order@[x] == h;
                assert(order@[x] < marks@.len());
            }
        }
    }
    ok
}

impl InstanceList {
    /// The store as it is written to a saved state.
    pub fn serialize(&self) -> (data: InstanceListData)
        requires
            self.wf(),
        ensures
            data@ == self@.saved(),
    {
        let chunks = self.chunks.serialize();
        proof {
            lemma_dense_views(self.chunks@);
            assert(chunks@.map_values(|i: Instance| i@) =~= dense(views(self.chunks@)));
        }
        InstanceListData {
            chunks,
            draw_order: defrag(&self.draw_order),
            object_id_map: defrag_map(&self.object_id_map, &self.draw_order),
            object_id_map_inherit: defrag_map(&self.object_id_map_inherit, &self.draw_order),
        }
    }

    /// The store that a saved state describes; none where the saved lists
    /// describe no store.
    pub fn deserialize(data: InstanceListData) -> (list: Option<Self>)
        ensures
            match list {
                Some(l) => data@.valid() && l.wf() && l@ == data@.restored(),
                None => !data@.valid(),
            },
    {
        let n = data.chunks.len();
        assert(data@.chunks.len() == n);
        let marks = match marked(&data.draw_order, n) {
            Some(marks) => marks,
            None => {
                return None;
            },
        };
        if !lists_only(&data.object_id_map, &data.draw_order, &marks) {
            return None;
        }
        if !lists_only(&data.object_id_map_inherit, &data.draw_order, &marks) {
            return None;
        }
        let ghost saved = data@;
        let ghost given = data.chunks@;
        let chunks = ChunkList::deserialize(data.chunks);
        let list = InstanceList {
            chunks,
            draw_order: data.draw_order,
            object_id_map: data.object_id_map,
            object_id_map_inherit: data.object_id_map_inherit,
        };
        proof {
            assert(views(refilled(given)) =~= refilled(saved.chunks));
        }
        Some(list)
    }
}

} // verus!
