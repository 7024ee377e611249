use crate::render::primitive::PrimitiveBuilder;
use crate::render::renderer::{
    draw_of, update_matches, Draw, DrawCall, QueueSetup, RendererImpl, RendererModel, StateUpdate,
};
use crate::render::state::RenderState;
use crate::render::types::{PrimitiveShape, Vertex};
use vstd::prelude::*;

verus! {

/// How many draw calls state `m` asks for before vertices of `atlas_id` and
/// `shape` are queued.
pub open spec fn setup_draws(m: RendererModel, atlas_id: u32, shape: PrimitiveShape) -> nat {
    (if m.state_pending() && m.flushed() is Some {
        1nat
    } else {
        0nat
    }) + if m.setup_flush(atlas_id, shape) is Some {
        1nat
    } else {
        0nat
    }
}

/// The state after the primitives `prims`, all of one atlas and shape, were
/// queued one after the other.
pub open spec fn after_pushes(
    m: RendererModel,
    atlas_id: u32,
    shape: PrimitiveShape,
    prims: Seq<Seq<Vertex>>,
) -> RendererModel
    decreases prims.len(),
{
    if prims.len() == 0 {
        m
    } else {
        after_pushes(m, atlas_id, shape, prims.drop_last()).after_push(atlas_id, shape, prims.last())
    }
}

/// How many draw calls were asked for while `prims` were queued.
pub open spec fn draws_during(
    m: RendererModel,
    atlas_id: u32,
    shape: PrimitiveShape,
    prims: Seq<Seq<Vertex>>,
) -> nat
    decreases prims.len(),
{
    if prims.len() == 0 {
        0
    } else {
        draws_during(m, atlas_id, shape, prims.drop_last()) + setup_draws(
            after_pushes(m, atlas_id, shape, prims.drop_last()),
            atlas_id,
            shape,
        )
    }
}

/// All vertices of `prims`, in order.
pub open spec fn all_vertices(prims: Seq<Seq<Vertex>>) -> Seq<Vertex>
    decreases prims.len(),
{
    if prims.len() == 0 {
        Seq::empty()
    } else {
        all_vertices(prims.drop_last()) + prims.last()
    }
}

/// The draw calls that queueing hands to the caller are exactly those that
/// the state asks for, so counting the one counts the other.
pub proof fn law_draw_calls_counted(setup: QueueSetup, m: RendererModel, atlas_id: u32, shape: PrimitiveShape)
    requires
        setup.is_setup_of(m, atlas_id, shape),
    ensures
        setup.draw_calls() == setup_draws(m, atlas_id, shape),
{
}

/// Coalescing: primitives of one atlas and shape that are queued while the
/// state does not change ask for no draw call, and the flush that follows
/// draws them all in one call, in the order they were queued.
pub proof fn law_same_state_draws_coalesce(
    m: RendererModel,
    atlas_id: u32,
    shape: PrimitiveShape,
    prims: Seq<Seq<Vertex>>,
)
    requires
        !m.state_pending(),
        m.vertex_queue.len() == 0,
    ensures
        draws_during(m, atlas_id, shape, prims) == 0,
        !after_pushes(m, atlas_id, shape, prims).state_pending(),
        after_pushes(m, atlas_id, shape, prims).vertex_queue == all_vertices(prims),
        after_pushes(m, atlas_id, shape, prims).queued == m.queued,
        all_vertices(prims).len() > 0 ==> after_pushes(m, atlas_id, shape, prims).flushed() == Some(
            Draw {
                atlas_id,
                shape,
                interpolate: m.queued.interpolate_pixels,
                vertices: all_vertices(prims),
            },
        ),
    decreases prims.len(),
{
    if prims.len() > 0 {
        law_same_state_draws_coalesce(m, atlas_id, shape, prims.drop_last());
        let before = after_pushes(m, atlas_id, shape, prims.drop_last());
        let after = before.after_push(atlas_id, shape, prims.last());
        assert(before.after_update() == before);
        if before.queue_differs(atlas_id, shape) {
            if before.vertex_queue.len() > 0 {
                assert(all_vertices(prims.drop_last()).len() > 0);
            }
            assert(before.vertex_queue.len() == 0);
            assert(before.after_flush().vertex_queue + prims.last() =~= before.vertex_queue
                + prims.last());
        }
        assert(after.vertex_queue =~= all_vertices(prims));
    }
}

/// A change of state between two primitives of one atlas and shape asks
/// for exactly one draw call more: the one that draws what was queued under
/// the old state. After it the primitives coalesce as before.
pub proof fn law_state_change_flushes_once(
    m: RendererModel,
    atlas_id: u32,
    shape: PrimitiveShape,
    vertices: Seq<Vertex>,
    more: Seq<Seq<Vertex>>,
)
    requires
        m.state_pending(),
        m.vertex_queue.len() > 0,
        !m.queue_differs(atlas_id, shape),
    ensures
        setup_draws(m, atlas_id, shape) == 1,
        m.after_update().flushed() is None,
        m.after_push(atlas_id, shape, vertices).vertex_queue == vertices,
        m.after_push(atlas_id, shape, vertices).queued == m.next,
        draws_during(m.after_push(atlas_id, shape, vertices), atlas_id, shape, more) == 0,
{
    let pushed = m.after_push(atlas_id, shape, vertices);
    assert(pushed.vertex_queue =~= vertices);
    lemma_pushes_without_change(pushed, atlas_id, shape, more);
}

/// While the state does not change and the queue stays with one atlas and
/// shape, queueing asks for no draw call.
pub proof fn lemma_pushes_without_change(
    m: RendererModel,
    atlas_id: u32,
    shape: PrimitiveShape,
    prims: Seq<Seq<Vertex>>,
)
    requires
        !m.state_pending(),
        !m.queue_differs(atlas_id, shape),
    ensures
        draws_during(m, atlas_id, shape, prims) == 0,
        !after_pushes(m, atlas_id, shape, prims).state_pending(),
        !after_pushes(m, atlas_id, shape, prims).queue_differs(atlas_id, shape),
    decreases prims.len(),
{
    if prims.len() > 0 {
        lemma_pushes_without_change(m, atlas_id, shape, prims.drop_last());
    }
}

impl RendererImpl {
    /// Empties the vertex queue into one draw call; nothing is to be drawn
    /// when the queue is empty.
    pub fn flush_queue(&mut self) -> (call: Option<DrawCall>)
        ensures
            draw_of(call) == old(self)@.flushed(),
            final(self)@ == old(self)@.after_flush(),
    {
        if self.vertex_queue.len() == 0 {
            assert(self@.vertex_queue =~= Seq::empty());
            None
        } else {
            let mut vertices: Vec<Vertex> = Vec::new();
            std::mem::swap(&mut self.vertex_queue, &mut vertices);
            Some(
                DrawCall {
                    atlas_id: self.current_atlas,
                    shape: self.queue_type,
                    interpolate: self.queue_render_state.interpolate_pixels,
                    vertices,
                },
            )
        }
    }

    /// Brings the GPU's state up to date. Where the caller has set a state
    /// that differs from the one the GPU has, what is queued is drawn under
    /// the old state and the new one is taken up.
    pub fn update_render_state(&mut self) -> (update: Option<StateUpdate>)
        ensures
            update_matches(update, old(self)@),
            final(self)@ == old(self)@.after_update(),
    {
        if self.render_state_updated && !self.queue_render_state.same_as(&self.next_render_state) {
            let flush = self.flush_queue();
            let change = self.queue_render_state.change_to(&self.next_render_state);
            self.queue_render_state = self.next_render_state;
            self.render_state_updated = false;
            Some(StateUpdate { flush, change })
        } else {
            None
        }
    }

    /// Records the combined view and projection matrix that was computed
    /// for the state just taken up.
    pub fn store_viewproj(&mut self, viewproj: [u32; 16])
        ensures
            final(self)@ == (RendererModel {
                queued: RenderState { viewproj_matrix: viewproj, ..old(self)@.queued },
                next: RenderState { viewproj_matrix: viewproj, ..old(self)@.next },
                ..old(self)@
            }),
    {
        self.queue_render_state = RenderState { viewproj_matrix: viewproj, ..self.queue_render_state };
        self.next_render_state = RenderState { viewproj_matrix: viewproj, ..self.next_render_state };
    }

    /// Makes the queue ready for vertices of `atlas_id` and `queue_type`.
    pub fn setup_queue(&mut self, atlas_id: u32, queue_type: PrimitiveShape) -> (setup: QueueSetup)
        ensures
            setup.is_setup_of(old(self)@, atlas_id, queue_type),
            final(self)@ == old(self)@.after_setup(atlas_id, queue_type),
    {
        let update = self.update_render_state();
        if atlas_id != self.current_atlas || self.queue_type != queue_type {
            let flush = self.flush_queue();
            self.current_atlas = atlas_id;
            self.queue_type = queue_type;
            QueueSetup { update, flush }
        } else {
            QueueSetup { update, flush: None }
        }
    }

    /// Queues the vertices of `builder`.
    pub fn push_primitive(&mut self, builder: &PrimitiveBuilder) -> (setup: QueueSetup)
        ensures
            setup.is_setup_of(old(self)@, builder@.atlas_ref.atlas_id, builder@.ptype.shape()),
            final(self)@ == old(self)@.after_push(
                builder@.atlas_ref.atlas_id,
                builder@.ptype.shape(),
                builder@.vertices,
            ),
    {
        let setup = self.setup_queue(builder.get_atlas_id(), builder.get_shape());
        let vertices = builder.get_vertices();
        let ghost before = self.vertex_queue@;
        let mut i: usize = 0;
        while i < vertices.len()
            invariant
                i <= vertices@.len(),
                self.vertex_queue@ == before + vertices@.subrange(0, i as int),
                self@ == (RendererModel { vertex_queue: self.vertex_queue@, ..old(self)@.after_setup(
                    builder.atlas_ref().atlas_id,
                    builder.ptype().shape(),
                ) }),
            decreases vertices@.len() - i,
        {
            self.vertex_queue.push(vertices[i]);
            assert(vertices@.subrange(0, i + 1) =~= vertices@.subrange(0, i as int).push(
                vertices@[i as int],
            ));
            i += 1;
        }
        assert(vertices@.subrange(0, vertices@.len() as int) =~= vertices@);
        setup
    }
}

} // verus!
