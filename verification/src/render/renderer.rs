use crate::render::primitive::{Primitive, PrimitiveBuilder};
use crate::render::state::{initial_state, same_state, state_change, RenderState, StateChange};
use crate::render::types::{AtlasRect, PrimitiveShape, PrimitiveType, RendererOptions, Vertex};
use rect_packer::DensePacker;
use vstd::prelude::*;

pub mod drawing;
pub mod message;
pub mod queue;
pub mod registry;
pub mod settings;
pub mod snapshot;
pub mod surface;

verus! {

/// `DensePacker` of the crate `rect_packer`, a rectangle packer. The
/// renderer keeps the packers of the stock atlases and asks them only for
/// their size; what is inside one is not seen here.
#[verifier::external_type_specification]
#[verifier::external_body]
pub struct ExDensePacker(rect_packer::DensePacker);

/// The GPU objects of one framebuffer: colour texture, depth texture and
/// the framebuffer object that holds both.
#[derive(Clone, Copy, Debug, PartialEq, Eq, Structural)]
pub struct Framebuffer {
    pub texture: u32,
    pub zbuf: u32,
    pub fbo: u32,
}

/// One draw call: the vertices are whole points, lines or triangles of one
/// atlas, drawn with or without interpolation between texels.
#[derive(Debug)]
pub struct DrawCall {
    pub atlas_id: u32,
    pub shape: PrimitiveShape,
    pub interpolate: bool,
    pub vertices: Vec<Vertex>,
}

/// A draw call as a value.
pub struct Draw {
    pub atlas_id: u32,
    pub shape: PrimitiveShape,
    pub interpolate: bool,
    pub vertices: Seq<Vertex>,
}

impl View for DrawCall {
    type V = Draw;

    open spec fn view(&self) -> Draw {
        Draw {
            atlas_id: self.atlas_id,
            shape: self.shape,
            interpolate: self.interpolate,
            vertices: self.vertices@,
        }
    }
}

/// The draw call of an optional `DrawCall`, as a value.
pub open spec fn draw_of(d: Option<DrawCall>) -> Option<Draw> {
    match d {
        Some(d) => Some(d@),
        None => None,
    }
}

/// What `update_render_state` asks of the GPU: draw what was queued under
/// the old state, then take up the new one.
#[derive(Debug)]
pub struct StateUpdate {
    pub flush: Option<DrawCall>,
    pub change: StateChange,
}

/// What queueing a primitive asks of the GPU before the primitive is
/// queued: a state update where the state changed, then a draw call where
/// the queue held vertices of another atlas or shape.
#[derive(Debug)]
pub struct QueueSetup {
    pub update: Option<StateUpdate>,
    pub flush: Option<DrawCall>,
}

/// The renderer's state as a value.
pub struct RendererModel {
    pub atlas_packers: Seq<DensePacker>,
    pub texture_ids: Seq<Option<u32>>,
    pub zbuf_ids: Seq<Option<u32>>,
    pub fbo_ids: Seq<Option<u32>>,
    pub texture_rects: Seq<Option<AtlasRect>>,
    pub stock_texture_count: nat,
    pub stock_atlas_count: u32,
    pub current_atlas: u32,
    pub framebuffer: Framebuffer,
    pub stored_framebuffer: Option<Framebuffer>,
    pub zbuf_24: bool,
    pub zbuf_trashed: bool,
    pub white_pixel: AtlasRect,
    pub vertex_queue: Seq<Vertex>,
    pub queue_type: PrimitiveShape,
    pub queued: RenderState,
    pub next: RenderState,
    pub dirty: bool,
    pub circle_precision: i32,
    pub using_3d: bool,
    pub perspective: bool,
    pub depth: u32,
    pub primitive_2d: Primitive,
    pub primitive_3d: Primitive,
}

/// The part of the renderer that lives beside the GPU: the registry of
/// sprites and surfaces, the vertex queue, the render state that the GPU
/// has (`queued`) and the one that the caller has set (`next`).
pub struct RendererImpl {
    atlas_packers: Vec<DensePacker>,
    texture_ids: Vec<Option<u32>>,
    zbuf_ids: Vec<Option<u32>>,
    fbo_ids: Vec<Option<u32>>,
    texture_rects: Vec<Option<AtlasRect>>,
    stock_texture_count: usize,
    stock_atlas_count: u32,
    current_atlas: u32,
    framebuffer: Framebuffer,
    stored_framebuffer: Option<Framebuffer>,
    zbuf_24: bool,
    zbuf_trashed: bool,
    white_pixel: AtlasRect,
    vertex_queue: Vec<Vertex>,
    queue_type: PrimitiveShape,
    queue_render_state: RenderState,
    next_render_state: RenderState,
    render_state_updated: bool,
    circle_precision: i32,
    using_3d: bool,
    perspective: bool,
    depth: u32,
    primitive_2d: PrimitiveBuilder,
    primitive_3d: PrimitiveBuilder,
}

impl View for RendererImpl {
    type V = RendererModel;

    closed spec fn view(&self) -> RendererModel {
        RendererModel {
            atlas_packers: self.atlas_packers@,
            texture_ids: self.texture_ids@,
            zbuf_ids: self.zbuf_ids@,
            fbo_ids: self.fbo_ids@,
            texture_rects: self.texture_rects@,
            stock_texture_count: self.stock_texture_count as nat,
            stock_atlas_count: self.stock_atlas_count,
            current_atlas: self.current_atlas,
            framebuffer: self.framebuffer,
            stored_framebuffer: self.stored_framebuffer,
            zbuf_24: self.zbuf_24,
            zbuf_trashed: self.zbuf_trashed,
            white_pixel: self.white_pixel,
            vertex_queue: self.vertex_queue@,
            queue_type: self.queue_type,
            queued: self.queue_render_state,
            next: self.next_render_state,
            dirty: self.render_state_updated,
            circle_precision: self.circle_precision,
            using_3d: self.using_3d,
            perspective: self.perspective,
            depth: self.depth,
            primitive_2d: self.primitive_2d@,
            primitive_3d: self.primitive_3d@,
        }
    }
}

impl RendererModel {
    /// The three lists of GPU objects name one object of each kind per
    /// atlas, and the stock sprites are among the registered rectangles.
    pub open spec fn wf(self) -> bool {
        &&& self.zbuf_ids.len() == self.texture_ids.len()
        &&& self.fbo_ids.len() == self.texture_ids.len()
        &&& self.stock_texture_count <= self.texture_rects.len()
    }

    /// The draw call that empties the queue, if the queue holds anything.
    pub open spec fn flushed(self) -> Option<Draw> {
        if self.vertex_queue.len() == 0 {
            None
        } else {
            Some(
                Draw {
                    atlas_id: self.current_atlas,
                    shape: self.queue_type,
                    interpolate: self.queued.interpolate_pixels,
                    vertices: self.vertex_queue,
                },
            )
        }
    }

    pub open spec fn after_flush(self) -> RendererModel {
        RendererModel { vertex_queue: Seq::empty(), ..self }
    }

    /// Whether the GPU has to be told of a change of state.
    pub open spec fn state_pending(self) -> bool {
        self.dirty && !same_state(self.queued, self.next)
    }

    pub open spec fn after_update(self) -> RendererModel {
        if self.state_pending() {
            RendererModel { vertex_queue: Seq::empty(), queued: self.next, dirty: false, ..self }
        } else {
            self
        }
    }

    /// Whether vertices of `atlas_id` and `shape` cannot join the queue.
    pub open spec fn queue_differs(self, atlas_id: u32, shape: PrimitiveShape) -> bool {
        atlas_id != self.current_atlas || shape != self.queue_type
    }

    /// The state once the queue is ready for vertices of `atlas_id` and
    /// `shape`.
    pub open spec fn after_setup(self, atlas_id: u32, shape: PrimitiveShape) -> RendererModel {
        let m = self.after_update();
        if m.queue_differs(atlas_id, shape) {
            RendererModel { current_atlas: atlas_id, queue_type: shape, ..m.after_flush() }
        } else {
            m
        }
    }

    /// The draw call that a change of atlas or shape forces, after the
    /// state was brought up to date.
    pub open spec fn setup_flush(self, atlas_id: u32, shape: PrimitiveShape) -> Option<Draw> {
        let m = self.after_update();
        if m.queue_differs(atlas_id, shape) {
            m.flushed()
        } else {
            None
        }
    }

    /// The state once `vertices` of `atlas_id` and `shape` are queued.
    pub open spec fn after_push(self, atlas_id: u32, shape: PrimitiveShape, vertices: Seq<Vertex>) -> RendererModel {
        let m = self.after_setup(atlas_id, shape);
        RendererModel { vertex_queue: m.vertex_queue + vertices, ..m }
    }
}

impl StateUpdate {
    /// Whether this value is the update that takes the GPU from state `m`.
    pub open spec fn is_update_of(self, m: RendererModel) -> bool {
        &&& draw_of(self.flush) == m.flushed()
        &&& self.change == state_change(m.queued, m.next)
    }
}

/// Whether the optional update `u` is what state `m` asks for.
pub open spec fn update_matches(u: Option<StateUpdate>, m: RendererModel) -> bool {
    match u {
        Some(u) => m.state_pending() && u.is_update_of(m),
        None => !m.state_pending(),
    }
}

impl QueueSetup {
    /// Whether this value is what state `m` asks for before vertices of
    /// `atlas_id` and `shape` are queued.
    pub open spec fn is_setup_of(self, m: RendererModel, atlas_id: u32, shape: PrimitiveShape) -> bool {
        &&& update_matches(self.update, m)
        &&& draw_of(self.flush) == m.setup_flush(atlas_id, shape)
    }

    /// How many draw calls this value asks for.
    pub open spec fn draw_calls(self) -> nat {
        (match self.update {
            Some(u) => if u.flush is Some {
                1nat
            } else {
                0nat
            },
            None => 0nat,
        }) + if self.flush is Some {
            1nat
        } else {
            0nat
        }
    }
}

/// A primitive of type `ptype` on `atlas_ref` that holds no vertex yet.
pub open spec fn fresh_primitive(atlas_ref: AtlasRect, ptype: PrimitiveType) -> Primitive {
    Primitive { vertices: Seq::empty(), ptype, atlas_ref }
}

/// Whether a GL context of version `major.minor` can run the renderer:
/// version 3.3 or later.
pub fn supports_gl_version(major: i32, minor: i32) -> (ok: bool)
    ensures
        ok == ((major == 3 && minor >= 3) || major > 3),
{
    (major == 3 && minor >= 3) || major > 3
}

/// The greatest texture size to be used where the GPU reports `reported`:
/// a GPU of the vendor Intel that reports 16384 takes no more than 8192,
/// and a negative report counts as 0.
pub fn usable_texture_size(reported: i32, intel: bool) -> (size: u32)
    ensures
        size == if reported == 16384 && intel {
            8192
        } else if reported < 0 {
            0
        } else {
            reported as int
        },
{
    if reported == 16384 && intel {
        8192
    } else if reported < 0 {
        0
    } else {
        reported as u32
    }
}

/// The swap interval that stands for vsync on or off.
pub fn swap_interval(vsync: bool) -> (interval: i32)
    ensures
        interval == if vsync {
            1i32
        } else {
            0i32
        },
{
    if vsync {
        1
    } else {
        0
    }
}

impl RendererImpl {
    /// The renderer over a fresh main framebuffer.
    pub fn new(options: &RendererOptions, framebuffer: Framebuffer) -> (r: Self)
        ensures
            r@.wf(),
            r@.atlas_packers.len() == 0,
            r@.texture_ids.len() == 0,
            r@.texture_rects.len() == 0,
            r@.stock_texture_count == 0,
            r@.stock_atlas_count == 0,
            r@.current_atlas == 0,
            r@.framebuffer == framebuffer,
            r@.stored_framebuffer is None,
            r@.zbuf_24 == options.zbuf_24,
            !r@.zbuf_trashed,
            r@.white_pixel == (AtlasRect { atlas_id: 0, x: 0, y: 0, w: 0, h: 0, origin_x: 0, origin_y: 0 }),
            r@.vertex_queue.len() == 0,
            r@.queue_type == PrimitiveShape::Triangle,
            r@.queued == (RenderState { interpolate_pixels: options.interpolate_pixels, ..initial_state() }),
            r@.next == r@.queued,
            !r@.dirty,
            r@.circle_precision == 24,
            !r@.using_3d,
            !r@.perspective,
            r@.depth == 0,
            r@.primitive_2d == fresh_primitive(r@.white_pixel, PrimitiveType::PointList),
            r@.primitive_3d == fresh_primitive(r@.white_pixel, PrimitiveType::PointList),
    {
        let mut state = RenderState::new();
        state.interpolate_pixels = options.interpolate_pixels;
        Self {
            atlas_packers: Vec::new(),
            texture_ids: Vec::new(),
            zbuf_ids: Vec::new(),
            fbo_ids: Vec::new(),
            texture_rects: Vec::new(),
            stock_texture_count: 0,
            stock_atlas_count: 0,
            current_atlas: 0,
            framebuffer,
            stored_framebuffer: None,
            zbuf_24: options.zbuf_24,
            zbuf_trashed: false,
            white_pixel: AtlasRect::default(),
            vertex_queue: Vec::with_capacity(1536),
            queue_type: PrimitiveShape::Triangle,
            queue_render_state: state,
            next_render_state: state,
            render_state_updated: false,
            circle_precision: 24,
            using_3d: false,
            perspective: false,
            depth: 0,
            primitive_2d: PrimitiveBuilder::new(AtlasRect::default(), PrimitiveType::PointList),
            primitive_3d: PrimitiveBuilder::new(AtlasRect::default(), PrimitiveType::PointList),
        }
    }
}

} // verus!
