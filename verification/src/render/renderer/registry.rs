use crate::render::primitive::PrimitiveBuilder;
use crate::render::renderer::{draw_of, fresh_primitive, DrawCall, RendererImpl, RendererModel};
use crate::render::types::{AtlasRect, AtlasRef, PrimitiveType};
use rect_packer::DensePacker;
use vstd::prelude::*;

verus! {

/// The step of GPU work at which an error was reported.
#[derive(Clone, Copy, Debug, PartialEq, Eq, Structural)]
pub enum GlStage {
    /// Allocating a texture.
    AllocTexture,
    /// Uploading the pixels of one sprite.
    UploadTexture,
    /// Uploading the pixels of the stock sprites.
    UploadTextures,
    /// Generating the framebuffer of one surface.
    GenFramebuffer,
    /// Generating the framebuffers of the stock atlases.
    GenFramebuffers,
    /// Generating the depth buffer of a surface.
    GenDepthBuffer,
    /// Copying one texture into another.
    DuplicateTexture,
    /// Setting up the context.
    Init,
}

/// An error code that the GPU reported at one step of work.
#[derive(Clone, Copy, Debug, PartialEq, Eq, Structural)]
pub struct GlFailure {
    pub stage: GlStage,
    pub code: u32,
}

/// Why the registry could not take a sprite or a surface.
#[derive(Clone, Copy, Debug, PartialEq, Eq, Structural)]
pub enum RenderError {
    /// The atlases have no room for the white pixel.
    WhitePixel,
    /// The GPU reported an error.
    Gl(GlFailure),
}

/// The GPU objects made for one surface.
#[derive(Clone, Copy, Debug, PartialEq, Eq, Structural)]
pub struct SurfaceObjects {
    pub texture: u32,
    pub fbo: u32,
    pub zbuf: Option<u32>,
}

/// The GPU objects made for the stock atlases: one texture and one
/// framebuffer per atlas.
#[derive(Debug)]
pub struct AtlasObjects {
    pub textures: Vec<u32>,
    pub fbos: Vec<u32>,
}

/// GPU objects to delete.
#[derive(Debug)]
pub struct DynamicObjects {
    pub textures: Vec<u32>,
    pub fbos: Vec<u32>,
    pub zbufs: Vec<u32>,
}

/// What deleting a sprite asks of the GPU: draw what is queued, then delete
/// the objects named.
#[derive(Debug)]
pub struct SpriteRemoval {
    pub flush: Option<DrawCall>,
    pub texture: Option<u32>,
    pub zbuf: Option<u32>,
    pub fbo: Option<u32>,
}

/// `i` is the atlas slot that the next surface takes: the lowest one without
/// a texture, or a new one behind the last.
pub open spec fn is_free_slot(ids: Seq<Option<u32>>, i: int) -> bool {
    &&& 0 <= i <= ids.len()
    &&& forall|j: int| 0 <= j < i ==> (#[trigger] ids[j]) is Some
    &&& i < ids.len() ==> ids[i] is None
}

/// The atlas slot that the next surface takes.
pub open spec fn free_slot(ids: Seq<Option<u32>>) -> int {
    choose|i: int| is_free_slot(ids, i)
}

/// The slot for the next surface is the only one of its kind.
pub proof fn lemma_free_slot(ids: Seq<Option<u32>>, i: int)
    requires
        is_free_slot(ids, i),
    ensures
        free_slot(ids) == i,
{
    let c = free_slot(ids);
    if c < i {
        assert(ids[c] is Some);
    } else if i < c {
        assert(ids[i] is Some);
    }
}

/// There always is a slot for the next surface.
pub proof fn lemma_free_slot_exists(ids: Seq<Option<u32>>)
    ensures
        is_free_slot(ids, free_slot(ids)),
    decreases ids.len(),
{
    if ids.len() == 0 {
        assert(is_free_slot(ids, 0));
    } else {
        let init = ids.drop_last();
        lemma_free_slot_exists(init);
        let i = free_slot(init);
        if i < init.len() {
            assert(is_free_slot(ids, i)) by {
                assert forall|j: int| 0 <= j < i implies (#[trigger] ids[j]) is Some by {
                    assert(init[j] is Some);
                }
                assert(ids[i] == init[i]);
            }
        } else if ids.last() is None {
            assert(is_free_slot(ids, i)) by {
                assert forall|j: int| 0 <= j < i implies (#[trigger] ids[j]) is Some by {
                    assert(init[j] is Some);
                }
            }
        } else {
            assert(is_free_slot(ids, i + 1)) by {
                assert forall|j: int| 0 <= j < i + 1 implies (#[trigger] ids[j]) is Some by {
                    if j < i {
                        assert(init[j] is Some);
                    }
                }
            }
        }
    }
}

/// A list of objects with slot `i` set to `v`, grown by one slot where `i`
/// is behind the last.
pub open spec fn with_slot(ids: Seq<Option<u32>>, i: int, v: Option<u32>) -> Seq<Option<u32>> {
    if i == ids.len() {
        ids.push(v)
    } else {
        ids.update(i, v)
    }
}

/// The values that a list of optional values holds, in order.
pub open spec fn present(ids: Seq<Option<u32>>) -> Seq<u32>
    decreases ids.len(),
{
    if ids.len() == 0 {
        Seq::empty()
    } else {
        match ids.last() {
            Some(v) => present(ids.drop_last()).push(v),
            None => present(ids.drop_last()),
        }
    }
}

/// The entries of `s` from `from` on; none where `from` is behind the end.
pub open spec fn tail<T>(s: Seq<T>, from: int) -> Seq<T> {
    if 0 <= from <= s.len() {
        s.subrange(from, s.len() as int)
    } else {
        Seq::empty()
    }
}

/// The first `count` entries of `ids`, filled up with empty slots where
/// `ids` is shorter.
pub open spec fn stock_part(ids: Seq<Option<u32>>, count: int) -> Seq<Option<u32>> {
    Seq::new(
        count as nat,
        |i: int|
            if i < ids.len() {
                ids[i]
            } else {
                None
            },
    )
}

/// The width and height of the rectangle that a packer packs into.
pub uninterp spec fn packer_size(packer: DensePacker) -> (i32, i32);

/// `DensePacker::size`, from the crate `rect_packer`: the width and height
/// that the packer was made with or last resized to. Taken on trust.
#[verifier::external_body]
fn size_of_packer(packer: &DensePacker) -> (size: (i32, i32))
    ensures
        size == packer_size(*packer),
{
    packer.size()
}

/// The sizes of the textures that hold the atlases of `packers`.
pub fn atlas_sizes(packers: &Vec<DensePacker>) -> (sizes: Vec<(i32, i32)>)
    ensures
        sizes@ == packers@.map_values(|p: DensePacker| packer_size(p)),
{
    let mut sizes: Vec<(i32, i32)> = Vec::new();
    let mut i: usize = 0;
    while i < packers.len()
        invariant
            i <= packers@.len(),
            sizes@ == packers@.subrange(0, i as int).map_values(|p: DensePacker| packer_size(p)),
        decreases packers@.len() - i,
    {
        sizes.push(size_of_packer(&packers[i]));
        assert(sizes@ =~= packers@.subrange(0, i + 1).map_values(|p: DensePacker| packer_size(p)));
        i += 1;
    }
    assert(packers@.subrange(0, packers@.len() as int) =~= packers@);
    sizes
}

/// Every value of `v` as a filled slot.
pub open spec fn filled(v: Seq<u32>) -> Seq<Option<u32>> {
    v.map_values(|x: u32| Some(x))
}

fn fill_all(v: &Vec<u32>) -> (r: Vec<Option<u32>>)
    ensures
        r@ == filled(v@),
{
    let mut r: Vec<Option<u32>> = Vec::new();
    let mut i: usize = 0;
    while i < v.len()
        invariant
            i <= v@.len(),
            r@ == filled(v@.subrange(0, i as int)),
        decreases v@.len() - i,
    {
        r.push(Some(v[i]));
        assert(r@ =~= filled(v@.subrange(0, i + 1)));
        i += 1;
    }
    assert(v@.subrange(0, v@.len() as int) =~= v@);
    r
}

fn stock_of(ids: &Vec<Option<u32>>, count: usize) -> (r: Vec<Option<u32>>)
    ensures
        r@ == stock_part(ids@, count as int),
{
    let mut r: Vec<Option<u32>> = Vec::new();
    let mut i: usize = 0;
    while i < count
        invariant
            i <= count,
            r@ == stock_part(ids@, i as int),
        decreases count - i,
    {
        if i < ids.len() {
            r.push(ids[i]);
        } else {
            r.push(None);
        }
        assert(r@ =~= stock_part(ids@, i + 1));
        i += 1;
    }
    r
}

fn present_from(ids: &Vec<Option<u32>>, from: usize) -> (r: Vec<u32>)
    ensures
        r@ == present(tail(ids@, from as int)),
{
    let mut r: Vec<u32> = Vec::new();
    if from > ids.len() {
        return r;
    }
    let mut i: usize = from;
    while i < ids.len()
        invariant
            from <= i <= ids@.len(),
            r@ == present(ids@.subrange(from as int, i as int)),
        decreases ids@.len() - i,
    {
        assert(ids@.subrange(from as int, i + 1).drop_last() =~= ids@.subrange(from as int, i as int));
        match ids[i] {
            Some(v) => {
                r.push(v);
            },
            None => {},
        }
        i += 1;
    }
    r
}

/// The rectangles of `sprites`, each registered.
pub open spec fn registered(sprites: Seq<AtlasRect>) -> Seq<Option<AtlasRect>> {
    sprites.map_values(|r: AtlasRect| Some(r))
}

/// The atlas whose texture is bound once the stock sprites are uploaded:
/// that of the last sprite.
pub open spec fn bound_after_upload(current: u32, sprites: Seq<AtlasRect>) -> u32 {
    if sprites.len() == 0 {
        current
    } else {
        sprites.last().atlas_id
    }
}

/// The atlas whose texture is bound once the atlas textures are allocated:
/// the last one.
pub open spec fn bound_after_alloc(current: u32, atlases: nat) -> u32 {
    if atlases == 0 {
        current
    } else {
        (atlases - 1) as u32
    }
}

/// What the entries of the dynamic atlases are, as a texture and its depth
/// texture where the atlas has them.
pub open spec fn dynamic_slots(m: RendererModel) -> Seq<Option<(u32, Option<u32>)>> {
    let from = m.stock_atlas_count as int;
    Seq::new(
        if m.texture_ids.len() > from {
            (m.texture_ids.len() - from) as nat
        } else {
            0nat
        },
        |k: int|
            match m.texture_ids[from + k] {
                Some(texture) => Some((texture, m.zbuf_ids[from + k])),
                None => None,
            },
    )
}

/// The texture of each slot made.
pub open spec fn made_textures(made: Seq<Option<SurfaceObjects>>) -> Seq<Option<u32>> {
    made.map_values(
        |o: Option<SurfaceObjects>|
            match o {
                Some(o) => Some(o.texture),
                None => None,
            },
    )
}

/// The framebuffer of each slot made.
pub open spec fn made_fbos(made: Seq<Option<SurfaceObjects>>) -> Seq<Option<u32>> {
    made.map_values(
        |o: Option<SurfaceObjects>|
            match o {
                Some(o) => Some(o.fbo),
                None => None,
            },
    )
}

/// The depth texture of each slot made.
pub open spec fn made_zbufs(made: Seq<Option<SurfaceObjects>>) -> Seq<Option<u32>> {
    made.map_values(
        |o: Option<SurfaceObjects>|
            match o {
                Some(o) => o.zbuf,
                None => None,
            },
    )
}

impl RendererModel {
    /// Whether deleting the sprite `rect` frees the GPU objects of its atlas:
    /// it does for an atlas that is not a stock atlas.
    pub open spec fn frees_atlas(self, rect: AtlasRect) -> bool {
        rect.atlas_id >= self.stock_atlas_count && rect.atlas_id < self.texture_ids.len()
    }

    /// The state after sprite `r` was deleted.
    pub open spec fn without_sprite(self, r: AtlasRef) -> RendererModel {
        let m = self.after_flush();
        match self.rect(r) {
            None => m,
            Some(rect) => {
                let a = rect.atlas_id as int;
                let rects = m.texture_rects.update(r.0 as int, None);
                if self.frees_atlas(rect) {
                    RendererModel {
                        texture_rects: rects,
                        texture_ids: m.texture_ids.update(a, None),
                        zbuf_ids: m.zbuf_ids.update(a, None),
                        fbo_ids: m.fbo_ids.update(a, None),
                        ..m
                    }
                } else {
                    RendererModel { texture_rects: rects, ..m }
                }
            },
        }
    }

    /// The state after the stock atlases were handed over. Without a white
    /// pixel nothing changes. With one, both primitives under construction
    /// start anew, on the white pixel known so far; the objects and the
    /// rectangles are registered where the GPU made all objects.
    pub open spec fn with_atlases(
        self,
        packers: Seq<DensePacker>,
        sprites: Seq<AtlasRect>,
        white_pixel_ref: Option<AtlasRef>,
        made: Result<(Seq<u32>, Seq<u32>), GlFailure>,
    ) -> RendererModel {
        match white_pixel_ref {
            None => self,
            Some(white) => {
                let begun = RendererModel {
                    primitive_2d: fresh_primitive(self.white_pixel, PrimitiveType::PointList),
                    primitive_3d: fresh_primitive(self.white_pixel, PrimitiveType::PointList),
                    white_pixel: sprites[white.0 as int],
                    current_atlas: bound_after_alloc(self.current_atlas, packers.len()),
                    ..self
                };
                match made {
                    Err(f) => if f.stage == GlStage::AllocTexture {
                        begun
                    } else {
                        RendererModel {
                            current_atlas: bound_after_upload(begun.current_atlas, sprites),
                            ..begun
                        }
                    },
                    Ok((textures, fbos)) => RendererModel {
                        current_atlas: bound_after_upload(begun.current_atlas, sprites),
                        texture_ids: filled(textures),
                        zbuf_ids: stock_part(self.zbuf_ids, textures.len() as int),
                        fbo_ids: filled(fbos),
                        stock_atlas_count: (textures.len() + 2) as u32,
                        atlas_packers: packers,
                        texture_rects: registered(sprites),
                        stock_texture_count: sprites.len(),
                        ..begun
                    },
                }
            },
        }
    }
}

impl AtlasObjects {
    pub open spec fn lists(self) -> (Seq<u32>, Seq<u32>) {
        (self.textures@, self.fbos@)
    }
}

/// The lists of an outcome, as values.
pub open spec fn atlas_outcome(made: Result<AtlasObjects, GlFailure>) -> Result<
    (Seq<u32>, Seq<u32>),
    GlFailure,
> {
    match made {
        Ok(o) => Ok(o.lists()),
        Err(f) => Err(f),
    }
}

impl RendererModel {
    /// The rectangle registered under `id`.
    pub open spec fn rect(self, id: AtlasRef) -> Option<AtlasRect> {
        if 0 <= id.0 < self.texture_rects.len() {
            self.texture_rects[id.0 as int]
        } else {
            None
        }
    }

    /// The state after a surface of the given size was asked for: the slot
    /// is taken in any case, the objects and the rectangle are registered
    /// where the GPU made the surface.
    pub open spec fn with_surface(
        self,
        width: i32,
        height: i32,
        origin_x: u32,
        origin_y: u32,
        made: Result<SurfaceObjects, GlFailure>,
    ) -> RendererModel {
        let slot = free_slot(self.texture_ids);
        match made {
            Ok(objects) => RendererModel {
                texture_ids: with_slot(self.texture_ids, slot, Some(objects.texture)),
                fbo_ids: with_slot(self.fbo_ids, slot, Some(objects.fbo)),
                zbuf_ids: with_slot(
                    self.zbuf_ids,
                    slot,
                    if objects.zbuf is Some || slot == self.zbuf_ids.len() {
                        objects.zbuf
                    } else {
                        self.zbuf_ids[slot]
                    },
                ),
                texture_rects: self.texture_rects.push(
                    Some(
                        AtlasRect {
                            atlas_id: slot as u32,
                            x: 0,
                            y: 0,
                            w: width,
                            h: height,
                            origin_x,
                            origin_y,
                        },
                    ),
                ),
                ..self
            },
            Err(_) => if slot == self.texture_ids.len() {
                RendererModel {
                    texture_ids: self.texture_ids.push(None),
                    fbo_ids: self.fbo_ids.push(None),
                    zbuf_ids: self.zbuf_ids.push(None),
                    ..self
                }
            } else {
                self
            },
        }
    }
}

impl RendererImpl {
    /// How many atlases there are, stock or not, with or without a texture.
    pub fn atlas_count(&self) -> (n: usize)
        ensures
            n == self@.texture_ids.len(),
    {
        self.texture_ids.len()
    }

    /// How many sprite handles were given out, stock or not, deleted or
    /// not.
    pub fn sprite_count(&self) -> (n: usize)
        ensures
            n == self@.texture_rects.len(),
    {
        self.texture_rects.len()
    }

    /// The sprite that shapes without a texture are drawn with.
    pub fn white_pixel(&self) -> (rect: AtlasRect)
        ensures
            rect == self@.white_pixel,
    {
        self.white_pixel
    }

    /// Whether the stock atlases were handed over.
    pub fn has_atlases(&self) -> (b: bool)
        ensures
            b == (self@.atlas_packers.len() > 0),
    {
        self.atlas_packers.len() > 0
    }

    /// The rectangle registered under `id`, if there is one.
    pub fn get_rect(&self, id: AtlasRef) -> (r: Option<AtlasRect>)
        ensures
            r == self@.rect(id),
    {
        if id.0 >= 0 && (id.0 as usize) < self.texture_rects.len() {
            self.texture_rects[id.0 as usize]
        } else {
            None
        }
    }

    /// The atlas slot for the next surface; the three object lists grow by an
    /// empty slot where no slot is free.
    fn reserve_slot(&mut self) -> (slot: usize)
        requires
            old(self)@.wf(),
        ensures
            slot == free_slot(old(self)@.texture_ids),
            is_free_slot(old(self)@.texture_ids, slot as int),
            slot < final(self)@.texture_ids.len(),
            final(self)@ == if slot == old(self)@.texture_ids.len() {
                RendererModel {
                    texture_ids: old(self)@.texture_ids.push(None),
                    fbo_ids: old(self)@.fbo_ids.push(None),
                    zbuf_ids: old(self)@.zbuf_ids.push(None),
                    ..old(self)@
                }
            } else {
                old(self)@
            },
    {
        let n = self.texture_ids.len();
        let mut slot: usize = 0;
        while slot < n && self.texture_ids[slot].is_some()
            invariant
                slot <= n,
                n == self.texture_ids@.len(),
                forall|j: int| 0 <= j < slot ==> (#[trigger] self.texture_ids@[j]) is Some,
            decreases n - slot,
        {
            slot += 1;
        }
        proof {
            lemma_free_slot(self.texture_ids@, slot as int);
        }
        if slot == n {
            self.texture_ids.push(None);
            self.zbuf_ids.push(None);
            self.fbo_ids.push(None);
        }
        slot
    }

    /// Registers a surface of `width` by `height` that the GPU was asked to
    /// make, with the outcome `made`. The surface takes the lowest free atlas
    /// slot; its handle is a new one.
    pub fn create_surface(
        &mut self,
        width: i32,
        height: i32,
        made: Result<SurfaceObjects, GlFailure>,
    ) -> (r: Result<AtlasRef, RenderError>)
        requires
            old(self)@.wf(),
            old(self)@.texture_ids.len() < u32::MAX,
            old(self)@.texture_rects.len() < i32::MAX,
        ensures
            final(self)@.wf(),
            is_free_slot(old(self)@.texture_ids, free_slot(old(self)@.texture_ids)),
            final(self)@ == old(self)@.with_surface(width, height, 0, 0, made),
            r == match made {
                Ok(_) => Ok::<AtlasRef, RenderError>(AtlasRef(old(self)@.texture_rects.len() as i32)),
                Err(f) => Err(RenderError::Gl(f)),
            },
    {
        self.register_surface(width, height, 0, 0, made)
    }

    fn register_surface(
        &mut self,
        width: i32,
        height: i32,
        origin_x: u32,
        origin_y: u32,
        made: Result<SurfaceObjects, GlFailure>,
    ) -> (r: Result<AtlasRef, RenderError>)
        requires
            old(self)@.wf(),
            old(self)@.texture_ids.len() < u32::MAX,
            old(self)@.texture_rects.len() < i32::MAX,
        ensures
            final(self)@.wf(),
            is_free_slot(old(self)@.texture_ids, free_slot(old(self)@.texture_ids)),
            final(self)@ == old(self)@.with_surface(width, height, origin_x, origin_y, made),
            r == match made {
                Ok(_) => Ok::<AtlasRef, RenderError>(AtlasRef(old(self)@.texture_rects.len() as i32)),
                Err(f) => Err(RenderError::Gl(f)),
            },
    {
        let slot = self.reserve_slot();
        match made {
            Err(f) => Err(RenderError::Gl(f)),
            Ok(objects) => {
                if objects.zbuf.is_some() {
                    self.zbuf_ids[slot] = objects.zbuf;
                }
                self.texture_ids[slot] = Some(objects.texture);
                self.fbo_ids[slot] = Some(objects.fbo);
                let id = self.texture_rects.len() as i32;
                self.texture_rects.push(
                    Some(
                        AtlasRect {
                            atlas_id: slot as u32,
                            x: 0,
                            y: 0,
                            w: width,
                            h: height,
                            origin_x,
                            origin_y,
                        },
                    ),
                );
                proof {
                    let m = old(self)@;
                    let want = m.with_surface(width, height, origin_x, origin_y, made);
                    assert(self@.texture_ids =~= want.texture_ids);
                    assert(self@.fbo_ids =~= want.fbo_ids);
                    assert(self@.zbuf_ids =~= want.zbuf_ids);
                }
                Ok(AtlasRef(id))
            },
        }
    }

    /// Registers a sprite of `width` by `height` whose texture the GPU was
    /// asked to make, with the outcome `made`. The origin is given as a
    /// fraction of the size, in 32-bit patterns.
    pub fn upload_sprite(
        &mut self,
        width: i32,
        height: i32,
        origin_x: u32,
        origin_y: u32,
        made: Result<SurfaceObjects, GlFailure>,
    ) -> (r: Result<AtlasRef, RenderError>)
        requires
            old(self)@.wf(),
            old(self)@.texture_ids.len() < u32::MAX,
            old(self)@.texture_rects.len() < i32::MAX,
        ensures
            final(self)@.wf(),
            is_free_slot(old(self)@.texture_ids, free_slot(old(self)@.texture_ids)),
            final(self)@ == old(self)@.with_surface(width, height, origin_x, origin_y, made),
            r == match made {
                Ok(_) => Ok::<AtlasRef, RenderError>(AtlasRef(old(self)@.texture_rects.len() as i32)),
                Err(f) => Err(RenderError::Gl(f)),
            },
    {
        self.register_surface(width, height, origin_x, origin_y, made)
    }

    /// Takes sprite `atlas_ref` out of the registry. What is queued is drawn
    /// first. The GPU objects of the sprite's atlas are to be deleted unless
    /// the atlas is a stock atlas. A handle that names no sprite only
    /// empties the queue.
    pub fn delete_sprite(&mut self, atlas_ref: AtlasRef) -> (removal: SpriteRemoval)
        requires
            old(self)@.wf(),
        ensures
            final(self)@.wf(),
            final(self)@ == old(self)@.without_sprite(atlas_ref),
            draw_of(removal.flush) == old(self)@.flushed(),
            match old(self)@.rect(atlas_ref) {
                Some(rect) if old(self)@.frees_atlas(rect) => {
                    &&& removal.texture == old(self)@.texture_ids[rect.atlas_id as int]
                    &&& removal.zbuf == old(self)@.zbuf_ids[rect.atlas_id as int]
                    &&& removal.fbo == old(self)@.fbo_ids[rect.atlas_id as int]
                },
                _ => removal.texture is None && removal.zbuf is None && removal.fbo is None,
            },
    {
        let flush = self.flush_queue();
        match self.get_rect(atlas_ref) {
            Some(rect) => {
                self.texture_rects[atlas_ref.0 as usize] = None;
                let a = rect.atlas_id as usize;
                if rect.atlas_id >= self.stock_atlas_count && a < self.texture_ids.len() {
                    let texture = self.texture_ids[a];
                    let zbuf = self.zbuf_ids[a];
                    let fbo = self.fbo_ids[a];
                    self.texture_ids[a] = None;
                    self.zbuf_ids[a] = None;
                    self.fbo_ids[a] = None;
                    SpriteRemoval { flush, texture, zbuf, fbo }
                } else {
                    SpriteRemoval { flush, texture: None, zbuf: None, fbo: None }
                }
            },
            None => SpriteRemoval { flush, texture: None, zbuf: None, fbo: None },
        }
    }

    /// The rectangles of the sprites and surfaces made after the stock ones.
    pub fn get_texture_rects(&self) -> (rects: Vec<Option<AtlasRect>>)
        requires
            self@.wf(),
        ensures
            rects@ == tail(self@.texture_rects, self@.stock_texture_count as int),
    {
        let mut rects: Vec<Option<AtlasRect>> = Vec::new();
        let mut i: usize = self.stock_texture_count;
        while i < self.texture_rects.len()
            invariant
                self.stock_texture_count <= i <= self.texture_rects@.len(),
                rects@ == self.texture_rects@.subrange(self.stock_texture_count as int, i as int),
            decreases self.texture_rects@.len() - i,
        {
            rects.push(self.texture_rects[i]);
            assert(rects@ =~= self.texture_rects@.subrange(
                self.stock_texture_count as int,
                i + 1,
            ));
            i += 1;
        }
        rects
    }

    /// Exchanges the rectangles made after the stock ones for `rects`.
    pub fn set_texture_rects(&mut self, rects: &Vec<Option<AtlasRect>>)
        requires
            old(self)@.wf(),
        ensures
            final(self)@.wf(),
            final(self)@ == (RendererModel {
                texture_rects: old(self)@.texture_rects.take(old(self)@.stock_texture_count as int)
                    + rects@,
                ..old(self)@
            }),
    {
        self.texture_rects.truncate(self.stock_texture_count);
        let ghost kept = self.texture_rects@;
        let mut i: usize = 0;
        while i < rects.len()
            invariant
                i <= rects@.len(),
                self.texture_rects@ == kept + rects@.subrange(0, i as int),
                self@ == (RendererModel { texture_rects: self.texture_rects@, ..old(self)@ }),
            decreases rects@.len() - i,
        {
            self.texture_rects.push(rects[i]);
            assert(self.texture_rects@ =~= kept + rects@.subrange(0, i + 1));
            i += 1;
        }
        assert(rects@.subrange(0, rects@.len() as int) =~= rects@);
        assert(kept =~= old(self)@.texture_rects.take(old(self)@.stock_texture_count as int));
    }

    /// The textures of the dynamic atlases, whose pixels make up a saved
    /// state: for each atlas behind the stock ones its texture and, where
    /// it has one, its depth texture.
    pub fn dump_dynamic_textures(&self) -> (slots: Vec<Option<(u32, Option<u32>)>>)
        requires
            self@.wf(),
        ensures
            slots@ == dynamic_slots(self@),
    {
        let mut slots: Vec<Option<(u32, Option<u32>)>> = Vec::new();
        let from = self.stock_atlas_count as usize;
        if from >= self.texture_ids.len() {
            assert(slots@ =~= dynamic_slots(self@));
            return slots;
        }
        let mut i: usize = from;
        while i < self.texture_ids.len()
            invariant
                from <= i <= self.texture_ids@.len(),
                from == self.stock_atlas_count,
                self.zbuf_ids@.len() == self.texture_ids@.len(),
                slots@.len() == i - from,
                forall|k: int|
                    0 <= k < i - from ==> slots@[k] == match self.texture_ids@[from + k] {
                        Some(texture) => Some((texture, self.zbuf_ids@[from + k])),
                        None => None,
                    },
            decreases self.texture_ids@.len() - i,
        {
            match self.texture_ids[i] {
                Some(texture) => {
                    slots.push(Some((texture, self.zbuf_ids[i])));
                },
                None => {
                    slots.push(None);
                },
            }
            i += 1;
        }
        assert(slots@ =~= dynamic_slots(self@));
        slots
    }

    /// The GPU objects of the dynamic atlases, which are to be deleted
    /// before saved textures take their place.
    pub fn dynamic_objects(&self) -> (objects: DynamicObjects)
        ensures
            objects.textures@ == present(tail(self@.texture_ids, self@.stock_atlas_count as int)),
            objects.fbos@ == present(tail(self@.fbo_ids, self@.stock_atlas_count as int)),
            objects.zbufs@ == present(tail(self@.zbuf_ids, self@.stock_atlas_count as int)),
    {
        let from = self.stock_atlas_count as usize;
        DynamicObjects {
            textures: present_from(&self.texture_ids, from),
            fbos: present_from(&self.fbo_ids, from),
            zbufs: present_from(&self.zbuf_ids, from),
        }
    }

    /// Exchanges the dynamic atlases for saved ones: `made` holds, for each
    /// saved texture in turn, the GPU objects made for it, and nothing where
    /// the saved state has no texture.
    pub fn upload_dynamic_textures(&mut self, made: &Vec<Option<SurfaceObjects>>)
        requires
            old(self)@.wf(),
        ensures
            final(self)@.wf(),
            final(self)@ == (RendererModel {
                texture_ids: stock_part(
                    old(self)@.texture_ids,
                    old(self)@.stock_atlas_count as int,
                ) + made_textures(made@),
                fbo_ids: stock_part(old(self)@.fbo_ids, old(self)@.stock_atlas_count as int)
                    + made_fbos(made@),
                zbuf_ids: stock_part(old(self)@.zbuf_ids, old(self)@.stock_atlas_count as int)
                    + made_zbufs(made@),
                ..old(self)@
            }),
    {
        let stock = self.stock_atlas_count as usize;
        let mut textures = stock_of(&self.texture_ids, stock);
        let mut fbos = stock_of(&self.fbo_ids, stock);
        let mut zbufs = stock_of(&self.zbuf_ids, stock);
        let ghost t0 = textures@;
        let ghost f0 = fbos@;
        let ghost z0 = zbufs@;
        let mut i: usize = 0;
        while i < made.len()
            invariant
                i <= made@.len(),
                textures@ == t0 + made_textures(made@.subrange(0, i as int)),
                fbos@ == f0 + made_fbos(made@.subrange(0, i as int)),
                zbufs@ == z0 + made_zbufs(made@.subrange(0, i as int)),
            decreases made@.len() - i,
        {
            match made[i] {
                Some(o) => {
                    textures.push(Some(o.texture));
                    fbos.push(Some(o.fbo));
                    zbufs.push(o.zbuf);
                },
                None => {
                    textures.push(None);
                    fbos.push(None);
                    zbufs.push(None);
                },
            }
            assert(textures@ =~= t0 + made_textures(made@.subrange(0, i + 1)));
            assert(fbos@ =~= f0 + made_fbos(made@.subrange(0, i + 1)));
            assert(zbufs@ =~= z0 + made_zbufs(made@.subrange(0, i + 1)));
            i += 1;
        }
        assert(made@.subrange(0, made@.len() as int) =~= made@);
        self.texture_ids = textures;
        self.fbo_ids = fbos;
        self.zbuf_ids = zbufs;
    }

    /// Hands over the stock atlases. `packers` and `sprites` are what the
    /// atlas builder yields, `white_pixel_ref` is the handle under which it
    /// packed the white pixel, if it could, and `made` is the outcome of
    /// making one texture and one framebuffer per atlas on the GPU. To be
    /// called once.
    #[verifier::rlimit(50)]
    pub fn push_atlases(
        &mut self,
        packers: Vec<DensePacker>,
        sprites: Vec<AtlasRect>,
        white_pixel_ref: Option<AtlasRef>,
        made: Result<AtlasObjects, GlFailure>,
    ) -> (r: Result<(), RenderError>)
        requires
            old(self)@.wf(),
            old(self)@.atlas_packers.len() == 0,
            packers@.len() + 2 <= u32::MAX,
            match white_pixel_ref {
                Some(white) => 0 <= white.0 < sprites@.len(),
                None => true,
            },
            match made {
                Ok(o) => o.textures@.len() == packers@.len() && o.fbos@.len() == packers@.len(),
                Err(_) => true,
            },
        ensures
            final(self)@.wf(),
            r == match white_pixel_ref {
                None => Err::<(), RenderError>(RenderError::WhitePixel),
                Some(_) => match made {
                    Ok(_) => Ok(()),
                    Err(f) => Err(RenderError::Gl(f)),
                },
            },
            final(self)@ == old(self)@.with_atlases(
                packers@,
                sprites@,
                white_pixel_ref,
                atlas_outcome(made),
            ),
    {
        let white = match white_pixel_ref {
            Some(white) => white,
            None => {
                return Err(RenderError::WhitePixel);
            },
        };
        self.begin_atlases(sprites[white.0 as usize], packers.len());
        let bound = if sprites.len() > 0 {
            sprites[sprites.len() - 1].atlas_id
        } else {
            self.current_atlas
        };
        match made {
            Err(f) => {
                if f.stage != GlStage::AllocTexture {
                    self.current_atlas = bound;
                }
                Err(RenderError::Gl(f))
            },
            Ok(objects) => {
                self.current_atlas = bound;
                self.store_atlases(packers, &sprites, &objects);
                Ok(())
            },
        }
    }

    /// What handing over the atlases does before anything is made on the
    /// GPU: both primitives start anew on the white pixel known so far, the
    /// white pixel becomes `white`, and the last atlas counts as bound.
    fn begin_atlases(&mut self, white: AtlasRect, atlases: usize)
        requires
            old(self)@.wf(),
            atlases <= u32::MAX,
        ensures
            final(self)@ == (RendererModel {
                primitive_2d: fresh_primitive(old(self)@.white_pixel, PrimitiveType::PointList),
                primitive_3d: fresh_primitive(old(self)@.white_pixel, PrimitiveType::PointList),
                white_pixel: white,
                current_atlas: bound_after_alloc(old(self)@.current_atlas, atlases as nat),
                ..old(self)@
            }),
    {
        self.primitive_2d = PrimitiveBuilder::new(self.white_pixel, PrimitiveType::PointList);
        self.primitive_3d = PrimitiveBuilder::new(self.white_pixel, PrimitiveType::PointList);
        self.white_pixel = white;
        if atlases > 0 {
            self.current_atlas = (atlases - 1) as u32;
        }
    }

    /// Registers the objects that the GPU made for the atlases, and the
    /// stock sprites.
    fn store_atlases(&mut self, packers: Vec<DensePacker>, sprites: &Vec<AtlasRect>, objects: &AtlasObjects)
        requires
            old(self)@.wf(),
            objects.textures@.len() == packers@.len(),
            objects.fbos@.len() == packers@.len(),
            packers@.len() + 2 <= u32::MAX,
        ensures
            final(self)@ == (RendererModel {
                texture_ids: filled(objects.textures@),
                zbuf_ids: stock_part(old(self)@.zbuf_ids, objects.textures@.len() as int),
                fbo_ids: filled(objects.fbos@),
                stock_atlas_count: (objects.textures@.len() + 2) as u32,
                atlas_packers: packers@,
                texture_rects: registered(sprites@),
                stock_texture_count: sprites@.len(),
                ..old(self)@
            }),
    {
        self.texture_ids = fill_all(&objects.textures);
        self.zbuf_ids = stock_of(&self.zbuf_ids, objects.textures.len());
        self.fbo_ids = fill_all(&objects.fbos);
        self.stock_atlas_count = (objects.textures.len() + 2) as u32;
        self.atlas_packers = packers;
        let mut rects: Vec<Option<AtlasRect>> = Vec::new();
        let mut i: usize = 0;
        while i < sprites.len()
            invariant
                i <= sprites@.len(),
                rects@ == registered(sprites@.subrange(0, i as int)),
            decreases sprites@.len() - i,
        {
            rects.push(Some(sprites[i]));
            assert(rects@ =~= registered(sprites@.subrange(0, i + 1)));
            i += 1;
        }
        assert(sprites@.subrange(0, sprites@.len() as int) =~= sprites@);
        self.texture_rects = rects;
        self.stock_texture_count = sprites.len();
    }

    /// Registers a copy of the sprite `atlas_ref`: a surface of the same
    /// size and origin. A handle that names no sprite gives the handle -1
    /// and changes nothing.
    pub fn duplicate_sprite(
        &mut self,
        atlas_ref: AtlasRef,
        made: Result<SurfaceObjects, GlFailure>,
    ) -> (r: Result<AtlasRef, RenderError>)
        requires
            old(self)@.wf(),
            old(self)@.texture_ids.len() < u32::MAX,
            old(self)@.texture_rects.len() < i32::MAX,
        ensures
            final(self)@.wf(),
            is_free_slot(old(self)@.texture_ids, free_slot(old(self)@.texture_ids)),
            match old(self)@.rect(atlas_ref) {
                Some(rect) => {
                    &&& final(self)@ == old(self)@.with_surface(
                        rect.w,
                        rect.h,
                        rect.origin_x,
                        rect.origin_y,
                        made,
                    )
                    &&& r == match made {
                        Ok(_) => Ok::<AtlasRef, RenderError>(
                            AtlasRef(old(self)@.texture_rects.len() as i32),
                        ),
                        Err(f) => Err(RenderError::Gl(f)),
                    }
                },
                None => final(self)@ == old(self)@ && r == Ok::<AtlasRef, RenderError>(AtlasRef(-1i32)),
            },
    {
        match self.get_rect(atlas_ref) {
            Some(rect) => self.register_surface(rect.w, rect.h, rect.origin_x, rect.origin_y, made),
            None => {
                proof {
                    lemma_free_slot_exists(self@.texture_ids);
                }
                Ok(AtlasRef(-1))
            },
        }
    }
}

} // verus!
