use vstd::prelude::*;

verus! {

/// The id that stands for no instance.
pub const NOONE: i32 = -4;

/// Where an instance is in its life: in play, out of play, or deleted and
/// waiting to be removed.
#[derive(Clone, Copy, Debug, PartialEq, Eq, Structural)]
pub enum InstanceState {
    Active,
    Inactive,
    Deleted,
}

/// What the instance store reads of a game object: its id, its object
/// class, the classes that class descends from, its lifecycle state and its
/// depth, a 64-bit pattern.
#[derive(Debug)]
pub struct Instance {
    pub id: i32,
    pub object_index: i32,
    pub parents: Vec<i32>,
    pub state: InstanceState,
    pub depth: u64,
}

/// An instance as a value.
pub struct InstanceModel {
    pub id: i32,
    pub object_index: i32,
    pub parents: Seq<i32>,
    pub state: InstanceState,
    pub depth: u64,
}

impl View for Instance {
    type V = InstanceModel;

    open spec fn view(&self) -> InstanceModel {
        InstanceModel {
            id: self.id,
            object_index: self.object_index,
            parents: self.parents@,
            state: self.state,
            depth: self.depth,
        }
    }
}

impl InstanceModel {
    /// Whether the instance is found by identity under object id `o`: its
    /// parents name `o`. An instance is found under its own object id only
    /// where its parents name that too.
    pub open spec fn has_identity(self, o: i32) -> bool {
        self.parents.contains(o)
    }
}

/// A copy of a list of ids.
fn copy_ids(ids: &Vec<i32>) -> (r: Vec<i32>)
    ensures
        r@ == ids@,
{
    let mut r: Vec<i32> = Vec::new();
    let mut i: usize = 0;
    while i < ids.len()
        invariant
            i <= ids@.len(),
            r@ == ids@.subrange(0, i as int),
        decreases ids@.len() - i,
    {
        r.push(ids[i]);
        assert(r@ =~= ids@.subrange(0, i + 1));
        i += 1;
    }
    assert(ids@.subrange(0, ids@.len() as int) =~= ids@);
    r
}

impl Clone for Instance {
    fn clone(&self) -> (r: Self)
        ensures
            r@ == self@,
    {
        Instance {
            id: self.id,
            object_index: self.object_index,
            parents: copy_ids(&self.parents),
            state: self.state,
            depth: self.depth,
        }
    }
}

impl Instance {
    /// A new, active instance.
    pub fn new(id: i32, object_index: i32, parents: Vec<i32>, depth: u64) -> (inst: Self)
        ensures
            inst@ == (InstanceModel {
                id,
                object_index,
                parents: parents@,
                state: InstanceState::Active,
                depth,
            }),
    {
        Instance { id, object_index, parents, state: InstanceState::Active, depth }
    }

    /// Whether the instance is in play.
    pub fn is_active(&self) -> (b: bool)
        ensures
            b == (self.state == InstanceState::Active),
    {
        self.state == InstanceState::Active
    }
}

/// What the tile store reads of a tile: its id and its depth, a 64-bit
/// pattern.
#[derive(Clone, Copy, Debug, PartialEq, Eq, Structural)]
pub struct Tile {
    pub id: i32,
    pub depth: u64,
}

/// What is drawn at a depth.
pub trait Layered {
    /// The depth, a 64-bit pattern.
    spec fn layer(&self) -> u64;

    fn depth_pattern(&self) -> (depth: u64)
        ensures
            depth == self.layer(),
    ;
}

impl Layered for Instance {
    open spec fn layer(&self) -> u64 {
        self.depth
    }

    fn depth_pattern(&self) -> (depth: u64) {
        self.depth
    }
}

impl Layered for Tile {
    open spec fn layer(&self) -> u64 {
        self.depth
    }

    fn depth_pattern(&self) -> (depth: u64) {
        self.depth
    }
}

} // verus!
