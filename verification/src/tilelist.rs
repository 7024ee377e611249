use crate::handles::{kept, lemma_kept, lemma_kept_all, marked, names_each_once, retain_live};
use crate::instance::{Layered, Tile};
use crate::instancelist::iter::nb_coll_iter_advance;
use crate::instancelist::sorting::{is_draw_sorted, lemma_sorted_keeps, sort_for_drawing};
use crate::savestate::{defrag, ranks};
use crate::slab::{
    dense, is_insert_slot, refilled, removed_by, with_inserted, with_removed, ChunkList,
    CHUNKS_PREALLOCATED, CHUNK_SIZE,
};
use vstd::prelude::*;

verus! {

/// The tile store as a value.
pub struct TileListModel {
    /// The slots of the slab, by handle.
    pub slab: Seq<Option<Tile>>,
    /// The handles in the order in which tiles are drawn.
    pub draw_order: Seq<usize>,
}

impl TileListModel {
    /// Whether `h` is the handle of a tile.
    pub open spec fn live(self, h: usize) -> bool {
        h < self.slab.len() && self.slab[h as int] is Some
    }

    /// The tile of a live handle.
    pub open spec fn tile(self, h: usize) -> Tile {
        self.slab[h as int]->0
    }

    /// No handle is listed twice for drawing and every listed handle is
    /// live.
    pub open spec fn wf(self) -> bool {
        &&& self.draw_order.no_duplicates()
        &&& forall|i: int| 0 <= i < self.draw_order.len() ==> self.live(#[trigger] self.draw_order[i])
    }

    /// The depth of the tile of `h`.
    pub open spec fn depth_of(self) -> spec_fn(usize) -> u64 {
        |h: usize| self.slab[h as int]->0.depth
    }
}

/// The tile store as it is written to a saved state.
pub struct TileListData {
    pub chunks: Vec<Tile>,
    pub draw_order: Vec<usize>,
}

impl TileListData {
    /// Whether the saved lists describe a store: no tile is listed twice
    /// for drawing, and every listed handle names a saved tile.
    pub open spec fn valid(self) -> bool {
        names_each_once(self.draw_order@, self.chunks@.len())
    }
}

/// The store of tiles: a slab of tiles and the list that gives the order of
/// drawing.
pub struct TileList {
    chunks: ChunkList<Tile>,
    draw_order: Vec<usize>,
}

impl View for TileList {
    type V = TileListModel;

    closed spec fn view(&self) -> TileListModel {
        TileListModel { slab: self.chunks@, draw_order: self.draw_order@ }
    }
}

/// A cursor over the tiles in the order of drawing. It holds its place and
/// borrows nothing between two steps.
pub struct TLIterDrawOrder(usize);

impl TLIterDrawOrder {
    pub closed spec fn position(&self) -> usize {
        self.0
    }

    /// The next tile in the order of drawing, as the order is now.
    pub fn next(&mut self, list: &TileList) -> (found: Option<usize>)
        ensures
            match found {
                Some(h) => old(self).position() < list@.draw_order.len() && h == list@.draw_order[old(
                    self,
                ).position() as int] && final(self).position() == old(self).position() + 1,
                None => old(self).position() >= list@.draw_order.len() && final(self).position()
                    == old(self).position(),
            },
    {
        nb_coll_iter_advance(&list.draw_order, &mut self.0)
    }
}

impl TileList {
    /// The slab itself is well formed.
    pub closed spec fn slab_wf(&self) -> bool {
        self.chunks.wf()
    }

    /// What every operation keeps: the slab and the list fit together.
    pub open spec fn wf(&self) -> bool {
        self.slab_wf() && self@.wf()
    }

    /// An empty store.
    pub fn new() -> (list: Self)
        ensures
            list.wf(),
            list@.slab.len() == CHUNKS_PREALLOCATED * CHUNK_SIZE,
            list@.draw_order.len() == 0,
            forall|h: usize| !list@.live(h),
    {
        Self { chunks: ChunkList::new(), draw_order: Vec::new() }
    }

    /// The tile of handle `idx`, which has to be live.
    pub fn get(&self, idx: usize) -> (tile: &Tile)
        requires
            self.wf(),
            self@.live(idx),
        ensures
            *tile == self@.tile(idx),
    {
        match self.chunks.get(idx) {
            Some(tile) => tile,
            None => vstd::pervasive::unreached(),
        }
    }

    /// The tile of handle `idx`, if it is live.
    pub fn try_get(&self, idx: usize) -> (tile: Option<&Tile>)
        requires
            self.wf(),
        ensures
            match tile {
                Some(t) => self@.live(idx) && *t == self@.tile(idx),
                None => !self@.live(idx),
            },
    {
        self.chunks.get(idx)
    }

    /// How many handles the slab has room for before it has to grow.
    pub fn capacity(&self) -> (n: usize)
        requires
            self.wf(),
        ensures
            n == self@.slab.len(),
    {
        self.chunks.capacity()
    }

    /// The first tile in the order of drawing whose id is `tile_id`.
    pub fn get_by_tileid(&self, tile_id: i32) -> (found: Option<usize>)
        requires
            self.wf(),
        ensures
            match found {
                Some(h) => exists|i: int|
                    {
                        &&& 0 <= i < self@.draw_order.len()
                        &&& #[trigger] self@.draw_order[i] == h
                        &&& self@.tile(h).id == tile_id
                        &&& forall|j: int|
                            0 <= j < i ==> self@.tile(#[trigger] self@.draw_order[j]).id != tile_id
                    },
                None => forall|i: int|
                    0 <= i < self@.draw_order.len() ==> self@.tile(#[trigger] self@.draw_order[i]).id
                        != tile_id,
            },
    {
        let mut i: usize = 0;
        while i < self.draw_order.len()
            invariant
                self.wf(),
                i <= self.draw_order@.len(),
                forall|j: int| 0 <= j < i ==> self@.tile(#[trigger] self@.draw_order[j]).id != tile_id,
            decreases self.draw_order@.len() - i,
        {
            let h = self.draw_order[i];
            assert(self@.live(self@.draw_order[i as int]));
            if self.get(h).id == tile_id {
                assert(self@.draw_order[i as int] == h);
                return Some(h);
            }
            i += 1;
        }
        None
    }

    /// A cursor over the tiles in the order of drawing.
    pub fn iter_by_drawing(&self) -> (it: TLIterDrawOrder)
        ensures
            it.position() == 0,
    {
        TLIterDrawOrder(0)
    }

    /// Sorts the order of drawing by depth: every NaN depth first, then from
    /// the greatest depth down; tiles of equal depth stay in the order they
    /// had.
    pub fn draw_sort(&mut self)
        requires
            old(self).wf(),
        ensures
            final(self).wf(),
            final(self)@.slab == old(self)@.slab,
            is_draw_sorted(old(self)@.draw_order, final(self)@.draw_order, old(self)@.depth_of()),
    {
        let ghost depth_of = self@.depth_of();
        let ghost before = self.draw_order@;
        proof {
            assert forall|i: int| 0 <= i < before.len() implies self.chunks.occupied(
                (#[trigger] before[i]) as int,
            ) && depth_of(before[i]) == self.chunks@[before[i] as int]->0.layer() by {
                assert(self@.live(self@.draw_order[i]));
            }
        }
        sort_for_drawing(&mut self.draw_order, &self.chunks, Ghost(depth_of));
        proof {
            lemma_sorted_keeps(before, self.draw_order@, depth_of, |h: usize| self@.live(h));
        }
    }

    /// Inserts a tile: it takes the lowest free handle and is drawn last.
    pub fn insert(&mut self, el: Tile) -> (handle: usize)
        requires
            old(self).wf(),
        ensures
            final(self).wf(),
            is_insert_slot(old(self)@.slab, handle as int),
            final(self)@ == (TileListModel {
                slab: with_inserted(old(self)@.slab, handle as int, el),
                draw_order: old(self)@.draw_order.push(handle),
            }),
    {
        let value = self.chunks.insert(el);
        self.draw_order.push(value);
        proof {
            let m = old(self)@;
            if m.draw_order.contains(value) {
                let i = choose|i: int| 0 <= i < m.draw_order.len() && m.draw_order[i] == value;
                assert(m.live(m.draw_order[i]));
            }
            assert forall|i: int| 0 <= i < self@.draw_order.len() implies self@.live(
                #[trigger] self@.draw_order[i],
            ) by {
                if i < m.draw_order.len() {
                    assert(m.live(m.draw_order[i]));
                }
            }
        }
        value
    }

    /// Drops from the order of drawing every handle that is no longer live.
    fn retain_live(&mut self)
        requires
            old(self).slab_wf(),
            old(self)@.draw_order.no_duplicates(),
        ensures
            final(self).wf(),
            final(self)@ == (TileListModel {
                draw_order: kept(old(self)@.draw_order, old(self)@.slab),
                ..old(self)@
            }),
    {
        let live = retain_live(&self.draw_order, &self.chunks);
        proof {
            lemma_kept(self.draw_order@, self.chunks@);
        }
        self.draw_order = live;
    }

    /// Removes the tile of `idx` from the store and from the order of
    /// drawing.
    pub fn remove(&mut self, idx: usize)
        requires
            old(self).wf(),
        ensures
            final(self).wf(),
            final(self)@ == (TileListModel {
                slab: with_removed(old(self)@.slab, idx as int),
                draw_order: kept(old(self)@.draw_order, with_removed(old(self)@.slab, idx as int)),
            }),
            forall|h: usize|
                final(self)@.draw_order.contains(h) <==> old(self)@.draw_order.contains(h) && h != idx,
    {
        self.chunks.remove(idx);
        self.retain_live();
        proof {
            let m = old(self)@;
            lemma_kept(m.draw_order, self@.slab);
            assert forall|h: usize|
                m.draw_order.contains(h) && h != idx implies self@.draw_order.contains(h) by {
                let i = choose|i: int| 0 <= i < m.draw_order.len() && m.draw_order[i] == h;
                assert(m.live(m.draw_order[i]));
            }
        }
    }

    /// Removes every tile for which `f` answers `true`, from the store and
    /// from the order of drawing.
    pub fn remove_with<F: Fn(&Tile) -> bool>(&mut self, f: F)
        requires
            old(self).wf(),
            forall|h: usize| old(self)@.live(h) ==> call_requires(f, (&old(self)@.tile(h),)),
        ensures
            final(self).wf(),
            removed_by(old(self)@.slab, final(self)@.slab, f),
            final(self)@.draw_order == kept(old(self)@.draw_order, final(self)@.slab),
    {
        proof {
            let slab = self.chunks@;
            assert forall|i: int| 0 <= i < slab.len() && slab[i] is Some implies call_requires(
                f,
                (&slab[i]->0,),
            ) by {
                self.chunks.lemma_fits();
                assert(self@.live(i as usize));
            }
        }
        let removed = self.chunks.remove_with(f);
        if removed > 0 {
            self.retain_live();
        } else {
            proof {
                let m = old(self)@;
                crate::slab::lemma_taken_none(m.slab, self@.slab, f);
                assert forall|i: int| 0 <= i < m.draw_order.len() implies (#[trigger] m.draw_order[i])
                    < self@.slab.len() && self@.slab[m.draw_order[i] as int] is Some by {
                    assert(m.live(m.draw_order[i]));
                }
                lemma_kept_all(m.draw_order, self@.slab);
            }
        }
    }

    /// The store as it is written to a saved state: the tiles as a dense
    /// list, and the order of drawing with every handle exchanged for the
    /// one that its tile gets when the dense list is inserted anew.
    pub fn serialize(&self) -> (data: TileListData)
        requires
            self.wf(),
        ensures
            data.chunks@ == dense(self@.slab),
            data.draw_order@ == ranks(self@.draw_order, self@.draw_order),
    {
        let chunks = self.chunks.serialize();
        assert(chunks@ =~= dense(self.chunks@));
        TileListData { chunks, draw_order: defrag(&self.draw_order) }
    }

    /// The store that a saved state describes; none where the saved order
    /// of drawing lists a tile twice or a tile that is not saved.
    pub fn deserialize(data: TileListData) -> (list: Option<Self>)
        ensures
            match list {
                Some(l) => data.valid() && l.wf() && l@ == (TileListModel {
                    slab: refilled(data.chunks@),
                    draw_order: data.draw_order@,
                }),
                None => !data.valid(),
            },
    {
        if marked(&data.draw_order, data.chunks.len()).is_none() {
            return None;
        }
        let chunks = ChunkList::deserialize(data.chunks);
        Some(TileList { chunks, draw_order: data.draw_order })
    }

    /// Removes every tile.
    pub fn clear(&mut self)
        requires
            old(self).wf(),
        ensures
            final(self).wf(),
            final(self)@.draw_order.len() == 0,
            final(self)@.slab.len() == old(self)@.slab.len(),
            forall|h: usize| !final(self)@.live(h),
    {
        self.chunks.clear();
        self.draw_order.clear();
    }
}

} // verus!
