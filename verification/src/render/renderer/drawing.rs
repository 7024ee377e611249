use crate::render::primitive::{pushed, Primitive, PrimitiveBuilder, VertexBuffer};
use crate::render::renderer::surface::ReadRegion;
use crate::render::renderer::{
    draw_of, fresh_primitive, update_matches, DrawCall, QueueSetup, RendererImpl, RendererModel,
    StateUpdate,
};
use crate::render::types::{AtlasRect, AtlasRef, PrimitiveShape, PrimitiveType, Vertex};
use vstd::prelude::*;

verus! {

/// What playing back a vertex buffer asks of the GPU: draw what is queued,
/// take up a changed state, then draw each list that `points`, `lines` and
/// `tris` name, with the texture of atlas `atlas_id`.
#[derive(Debug)]
pub struct BufferDraws {
    pub flush: Option<DrawCall>,
    pub update: Option<StateUpdate>,
    pub atlas_id: u32,
    pub interpolate: bool,
    pub points: bool,
    pub lines: bool,
    pub tris: bool,
}

/// A vertex of a 2D primitive: at depth `depth`, without a normal.
pub open spec fn vertex_flat(
    x: u32,
    y: u32,
    depth: u32,
    xtex: u32,
    ytex: u32,
    blend: [u32; 4],
    atlas_ref: AtlasRect,
) -> Vertex {
    Vertex {
        pos: [x, y, depth],
        tex_coord: [xtex, ytex],
        blend,
        atlas_xywh: atlas_ref.xywh(),
        normal: [0u32, 0u32, 0u32],
    }
}

/// `p` with one more vertex pushed.
pub open spec fn with_vertex(p: Primitive, v: Vertex) -> Primitive {
    Primitive { vertices: pushed(p.vertices, p.ptype, v), ..p }
}

impl RendererModel {
    /// The rectangle that a primitive on `atlas_ref` is textured with: that
    /// of the sprite, or the white pixel where there is no such sprite.
    pub open spec fn rect_or_white(self, atlas_ref: Option<AtlasRef>) -> AtlasRect {
        match atlas_ref {
            Some(r) => match self.rect(r) {
                Some(rect) => rect,
                None => self.white_pixel,
            },
            None => self.white_pixel,
        }
    }

    /// The part `(part_x, part_y, part_w, part_h)` of sprite `atlas_ref`, as
    /// a rectangle of its atlas.
    pub open spec fn region(self, atlas_ref: AtlasRef, part_x: i32, part_y: i32, part_w: i32, part_h: i32) -> Option<
        ReadRegion,
    > {
        match self.rect(atlas_ref) {
            Some(rect) => Some(
                ReadRegion {
                    fbo: self.fbo_of(rect),
                    x: (rect.x + part_x) as i32,
                    y: (rect.y + part_y) as i32,
                    w: part_w,
                    h: part_h,
                },
            ),
            None => None,
        }
    }
}

impl ReadRegion {
    /// How many bytes the pixels of the region take, four per pixel; none
    /// where a side is negative or the count does not fit.
    pub open spec fn bytes(self) -> Option<usize> {
        if self.w >= 0 && self.h >= 0 && self.w * self.h * 4 <= i32::MAX {
            Some((self.w * self.h * 4) as usize)
        } else {
            None
        }
    }

    pub fn byte_len(&self) -> (n: Option<usize>)
        ensures
            n == self.bytes(),
    {
        if self.w >= 0 && self.h >= 0 {
            assert(0 <= self.w * self.h <= 0x7fff_ffff * 0x7fff_ffff) by (nonlinear_arith)
                requires
                    0 <= self.w <= 0x7fff_ffff,
                    0 <= self.h <= 0x7fff_ffff,
            ;
            let pixels: i64 = self.w as i64 * self.h as i64;
            if pixels <= (i32::MAX as i64) / 4 {
                Some((pixels * 4) as usize)
            } else {
                None
            }
        } else {
            None
        }
    }
}

impl RendererImpl {
    fn rect_or_white_pixel(&self, atlas_ref: Option<AtlasRef>) -> (rect: AtlasRect)
        ensures
            rect == self@.rect_or_white(atlas_ref),
    {
        match atlas_ref {
            Some(r) => match self.get_rect(r) {
                Some(rect) => rect,
                None => self.white_pixel,
            },
            None => self.white_pixel,
        }
    }

    /// Starts the 2D primitive anew, with type `ptype`, on sprite
    /// `atlas_ref` or on the white pixel.
    pub fn reset_primitive_2d(&mut self, ptype: PrimitiveType, atlas_ref: Option<AtlasRef>)
        ensures
            final(self)@ == (RendererModel {
                primitive_2d: fresh_primitive(old(self)@.rect_or_white(atlas_ref), ptype),
                ..old(self)@
            }),
    {
        self.primitive_2d = PrimitiveBuilder::new(self.rect_or_white_pixel(atlas_ref), ptype);
    }

    /// Pushes a vertex of the 2D primitive, at the current depth; all
    /// numbers are 32-bit patterns.
    pub fn vertex_2d(&mut self, x: u32, y: u32, xtex: u32, ytex: u32, blend: [u32; 4])
        ensures
            final(self)@ == (RendererModel {
                primitive_2d: with_vertex(
                    old(self)@.primitive_2d,
                    vertex_flat(
                        x,
                        y,
                        old(self)@.depth,
                        xtex,
                        ytex,
                        blend,
                        old(self)@.primitive_2d.atlas_ref,
                    ),
                ),
                ..old(self)@
            }),
    {
        self.primitive_2d.push_vertex([x, y, self.depth], [xtex, ytex], blend, [0, 0, 0]);
    }

    /// Queues the 2D primitive; it stays as it is.
    pub fn draw_primitive_2d(&mut self) -> (setup: QueueSetup)
        ensures
            setup.is_setup_of(
                old(self)@,
                old(self)@.primitive_2d.atlas_ref.atlas_id,
                old(self)@.primitive_2d.ptype.shape(),
            ),
            final(self)@ == old(self)@.after_push(
                old(self)@.primitive_2d.atlas_ref.atlas_id,
                old(self)@.primitive_2d.ptype.shape(),
                old(self)@.primitive_2d.vertices,
            ),
    {
        let prim = self.primitive_2d.clone();
        self.push_primitive(&prim)
    }

    pub fn get_primitive_2d(&self) -> (prim: PrimitiveBuilder)
        ensures
            prim@ == self@.primitive_2d,
    {
        self.primitive_2d.clone()
    }

    pub fn set_primitive_2d(&mut self, prim: PrimitiveBuilder)
        ensures
            final(self)@ == (RendererModel { primitive_2d: prim@, ..old(self)@ }),
    {
        self.primitive_2d = prim;
    }

    /// Starts the 3D primitive anew, with type `ptype`, on sprite
    /// `atlas_ref` or on the white pixel.
    pub fn reset_primitive_3d(&mut self, ptype: PrimitiveType, atlas_ref: Option<AtlasRef>)
        ensures
            final(self)@ == (RendererModel {
                primitive_3d: fresh_primitive(old(self)@.rect_or_white(atlas_ref), ptype),
                ..old(self)@
            }),
    {
        self.primitive_3d = PrimitiveBuilder::new(self.rect_or_white_pixel(atlas_ref), ptype);
    }

    /// Pushes a vertex of the 3D primitive; all numbers are 32-bit
    /// patterns.
    pub fn vertex_3d(&mut self, pos: [u32; 3], normal: [u32; 3], xtex: u32, ytex: u32, blend: [u32; 4])
        ensures
            final(self)@ == (RendererModel {
                primitive_3d: with_vertex(
                    old(self)@.primitive_3d,
                    Vertex {
                        pos,
                        tex_coord: [xtex, ytex],
                        blend,
                        atlas_xywh: old(self)@.primitive_3d.atlas_ref.xywh(),
                        normal,
                    },
                ),
                ..old(self)@
            }),
    {
        self.primitive_3d.push_vertex(pos, [xtex, ytex], blend, normal);
    }

    /// Queues the 3D primitive; it stays as it is.
    pub fn draw_primitive_3d(&mut self) -> (setup: QueueSetup)
        ensures
            setup.is_setup_of(
                old(self)@,
                old(self)@.primitive_3d.atlas_ref.atlas_id,
                old(self)@.primitive_3d.ptype.shape(),
            ),
            final(self)@ == old(self)@.after_push(
                old(self)@.primitive_3d.atlas_ref.atlas_id,
                old(self)@.primitive_3d.ptype.shape(),
                old(self)@.primitive_3d.vertices,
            ),
    {
        let prim = self.primitive_3d.clone();
        self.push_primitive(&prim)
    }

    pub fn get_primitive_3d(&self) -> (prim: PrimitiveBuilder)
        ensures
            prim@ == self@.primitive_3d,
    {
        self.primitive_3d.clone()
    }

    pub fn set_primitive_3d(&mut self, prim: PrimitiveBuilder)
        ensures
            final(self)@ == (RendererModel { primitive_3d: prim@, ..old(self)@ }),
    {
        self.primitive_3d = prim;
    }

    /// Queues one point at `(x, y)`, given as 32-bit patterns, on the white
    /// pixel.
    pub fn draw_point(&mut self, x: u32, y: u32, blend: [u32; 4]) -> (setup: QueueSetup)
        ensures
            setup.is_setup_of(old(self)@, old(self)@.white_pixel.atlas_id, PrimitiveShape::Point),
            final(self)@ == old(self)@.after_push(
                old(self)@.white_pixel.atlas_id,
                PrimitiveShape::Point,
                seq![vertex_flat(x, y, old(self)@.depth, 0, 0, blend, old(self)@.white_pixel)],
            ),
    {
        let setup = self.setup_queue(self.white_pixel.atlas_id, PrimitiveShape::Point);
        let ghost before = self.vertex_queue@;
        self.vertex_queue.push(
            Vertex {
                pos: [x, y, self.depth],
                tex_coord: [0, 0],
                blend,
                atlas_xywh: self.white_pixel.to_xywh(),
                normal: [0, 0, 0],
            },
        );
        assert(self.vertex_queue@ =~= before + seq![
            vertex_flat(x, y, old(self)@.depth, 0, 0, blend, old(self)@.white_pixel),
        ]);
        setup
    }

    /// Appends the whole points, lines or triangles of the 3D primitive to
    /// `buf`.
    pub fn extend_buffers(&self, buf: &mut VertexBuffer)
        ensures
            final(buf).list(self@.primitive_3d.ptype.shape()) == old(buf).list(
                self@.primitive_3d.ptype.shape(),
            ) + crate::render::primitive::whole_primitives(
                self@.primitive_3d.vertices,
                self@.primitive_3d.ptype.shape(),
            ),
            forall|s: PrimitiveShape|
                s != self@.primitive_3d.ptype.shape() ==> final(buf).list(s) == old(buf).list(s),
    {
        buf.extend(&self.primitive_3d);
    }

    /// Plays `buf` back on sprite `atlas_ref`, or on the white pixel: one
    /// draw call for each of its lists that holds vertices, after what is
    /// queued was drawn and a changed state was taken up.
    pub fn draw_buffers(&mut self, atlas_ref: Option<AtlasRef>, buf: &VertexBuffer) -> (draws: BufferDraws)
        ensures
            final(self)@ == old(self)@.after_flush().after_update(),
            draw_of(draws.flush) == old(self)@.flushed(),
            update_matches(draws.update, old(self)@.after_flush()),
            draws.atlas_id == old(self)@.rect_or_white(atlas_ref).atlas_id,
            draws.interpolate == final(self)@.queued.interpolate_pixels,
            draws.points == (buf.points().len() > 0),
            draws.lines == (buf.lines().len() > 0),
            draws.tris == (buf.tris().len() > 0),
    {
        let flush = self.flush_queue();
        let update = self.update_render_state();
        BufferDraws {
            flush,
            update,
            atlas_id: self.rect_or_white_pixel(atlas_ref).atlas_id,
            interpolate: self.queue_render_state.interpolate_pixels,
            points: buf.get_points().len() > 0,
            lines: buf.get_lines().len() > 0,
            tris: buf.get_tris().len() > 0,
        }
    }

    /// The texture of atlas `atlas_id`, which a draw call binds.
    pub fn texture_of(&self, atlas_id: u32) -> (texture: Option<u32>)
        ensures
            texture == if atlas_id < self@.texture_ids.len() {
                self@.texture_ids[atlas_id as int]
            } else {
                None
            },
    {
        if (atlas_id as usize) < self.texture_ids.len() {
            self.texture_ids[atlas_id as usize]
        } else {
            None
        }
    }

    /// The part `(part_x, part_y, part_w, part_h)` of sprite `texture` that
    /// is to be read back; none for a handle that names no sprite.
    pub fn dump_sprite_part(&self, texture: AtlasRef, part_x: i32, part_y: i32, part_w: i32, part_h: i32) -> (region:
        Option<ReadRegion>)
        requires
            match self@.rect(texture) {
                Some(rect) => i32::MIN <= rect.x + part_x <= i32::MAX && i32::MIN <= rect.y + part_y
                    <= i32::MAX,
                None => true,
            },
        ensures
            region == self@.region(texture, part_x, part_y, part_w, part_h),
    {
        match self.get_rect(texture) {
            Some(rect) => {
                let fbo = if (rect.atlas_id as usize) < self.fbo_ids.len() {
                    self.fbo_ids[rect.atlas_id as usize]
                } else {
                    None
                };
                Some(ReadRegion { fbo, x: rect.x + part_x, y: rect.y + part_y, w: part_w, h: part_h })
            },
            None => None,
        }
    }

    /// The whole of sprite `atlas_ref`, to be read back; none for a handle
    /// that names no sprite.
    pub fn dump_sprite(&self, atlas_ref: AtlasRef) -> (region: Option<ReadRegion>)
        ensures
            region == match self@.rect(atlas_ref) {
                Some(rect) => self@.region(atlas_ref, 0, 0, rect.w, rect.h),
                None => None,
            },
    {
        match self.get_rect(atlas_ref) {
            Some(rect) => self.dump_sprite_part(atlas_ref, 0, 0, rect.w, rect.h),
            None => None,
        }
    }
}

} // verus!
