use crate::render::renderer::{draw_of, DrawCall, Framebuffer, RendererImpl, RendererModel};
use crate::render::types::{AtlasRect, AtlasRef};
use vstd::prelude::*;

verus! {

/// What resizing the main framebuffer asks of the GPU: draw what is queued,
/// copy the top left `copy_width` by `copy_height` pixels of `source` into
/// the new framebuffer, then delete `delete`.
#[derive(Debug)]
pub struct Resize {
    pub flush: Option<DrawCall>,
    pub source: Framebuffer,
    pub copy_width: i32,
    pub copy_height: i32,
    pub delete: Option<Framebuffer>,
}

/// What drawing the stored framebuffer asks of the GPU: draw what is
/// queued, then copy all of `source` onto the rectangle from `(x0, y0)` to
/// `(x1, y1)` of `target`.
#[derive(Debug)]
pub struct StoredBlit {
    pub flush: Option<DrawCall>,
    pub source: Framebuffer,
    pub target: Framebuffer,
    pub x0: i32,
    pub y0: i32,
    pub x1: i32,
    pub y1: i32,
}

/// What changing whether the depth buffer is trashed asks of the GPU: draw
/// what is queued, then attach depth texture `attach` (0 for none) to
/// framebuffer object `fbo`.
#[derive(Debug)]
pub struct ZbufSwitch {
    pub flush: Option<DrawCall>,
    pub fbo: u32,
    pub attach: u32,
}

/// A surface to draw on: its framebuffer object and the rectangle that is
/// viewport, scissor box and view.
#[derive(Clone, Copy, Debug, PartialEq, Eq, Structural)]
pub struct Target {
    pub fbo: u32,
    pub x: i32,
    pub y: i32,
    pub w: i32,
    pub h: i32,
    /// Whether the view is projected in perspective.
    pub perspective: bool,
}

/// What changing the draw target asks of the GPU: draw what is queued,
/// then, where the handle named a surface, draw on it.
#[derive(Debug)]
pub struct TargetSwitch {
    pub flush: Option<DrawCall>,
    pub target: Option<Target>,
}

/// What setting a view asks of the GPU: draw what is queued, set viewport
/// and scissor box where `viewport` names them as `(x, y, w, h)`, and
/// project in perspective or orthographically.
#[derive(Debug)]
pub struct ViewSwitch {
    pub flush: Option<DrawCall>,
    pub viewport: Option<(i32, i32, i32, i32)>,
    pub perspective: bool,
}

/// What clearing the depth buffer asks of the GPU: outside 3D mode nothing,
/// in 3D mode to draw what is queued and then clear.
#[derive(Debug)]
pub struct ZbufClear {
    pub clear: bool,
    pub flush: Option<DrawCall>,
}

/// A copy between two surfaces: `width` by `height` pixels from
/// `(src_x, src_y)` of `src_fbo` to `(dest_x, dest_y)` of `dest_fbo`.
#[derive(Clone, Copy, Debug, PartialEq, Eq, Structural)]
pub struct SurfaceCopy {
    pub src_fbo: u32,
    pub dest_fbo: u32,
    pub src_x: i32,
    pub src_y: i32,
    pub dest_x: i32,
    pub dest_y: i32,
    pub width: i32,
    pub height: i32,
}

/// A part of a sprite to read back: the framebuffer object of its atlas,
/// where there is one, and the rectangle within the atlas.
#[derive(Clone, Copy, Debug, PartialEq, Eq, Structural)]
pub struct ReadRegion {
    pub fbo: Option<u32>,
    pub x: i32,
    pub y: i32,
    pub w: i32,
    pub h: i32,
}

/// The greatest of three.
pub open spec fn max3(a: int, b: int, c: int) -> int {
    if a >= b && a >= c {
        a
    } else if b >= c {
        b
    } else {
        c
    }
}

/// The least of three.
pub open spec fn min3(a: int, b: int, c: int) -> int {
    if a <= b && a <= c {
        a
    } else if b <= c {
        b
    } else {
        c
    }
}

/// Where a copy along one axis starts in the source: `len` pixels were
/// asked for from `src` to `dest`; nothing is read before the source's
/// first pixel nor written before the destination's.
pub open spec fn clip_start(src: int, dest: int) -> int {
    max3(src, 0, src - dest)
}

/// Where a copy along one axis ends in the source: nothing is read behind
/// the source's last pixel nor written behind the destination's.
pub open spec fn clip_end(src: int, dest: int, len: int, src_len: int, dest_len: int) -> int {
    min3(src + len, src_len, dest_len + src - dest)
}

/// How many pixels a copy along one axis moves; none where this is not
/// positive.
pub open spec fn clip_len(src: int, dest: int, len: int, src_len: int, dest_len: int) -> int {
    clip_end(src, dest, len, src_len, dest_len) - clip_start(src, dest)
}

/// What is left of a copy along one axis: the start in the source, the
/// start in the destination, and the length.
fn clip_axis(src: i32, dest: i32, len: i32, src_len: i32, dest_len: i32) -> (r: (i64, i64, i64))
    ensures
        r.0 == clip_start(src as int, dest as int),
        r.1 == clip_start(src as int, dest as int) + dest - src,
        r.2 == clip_len(src as int, dest as int, len as int, src_len as int, dest_len as int),
{
    let mut s: i64 = src as i64;
    let mut d: i64 = dest as i64;
    let mut n: i64 = len as i64;
    if s < 0 {
        d = d - s;
        n = n + s;
        s = 0;
    }
    if s + n > src_len as i64 {
        n = src_len as i64 - s;
    }
    if d < 0 {
        s = s - d;
        n = n + d;
        d = 0;
    }
    if d + n > dest_len as i64 {
        n = dest_len as i64 - d;
    }
    (s, d, n)
}

/// A clipped copy stays inside both surfaces and keeps the offset between
/// source and destination.
pub proof fn law_clip_stays_inside(src: int, dest: int, len: int, src_len: int, dest_len: int)
    requires
        clip_len(src, dest, len, src_len, dest_len) > 0,
    ensures
        0 <= clip_start(src, dest),
        clip_start(src, dest) + clip_len(src, dest, len, src_len, dest_len) <= src_len,
        0 <= clip_start(src, dest) + dest - src,
        clip_start(src, dest) + dest - src + clip_len(src, dest, len, src_len, dest_len) <= dest_len,
        src <= clip_start(src, dest),
        clip_start(src, dest) + clip_len(src, dest, len, src_len, dest_len) <= src + len,
{
}

/// A copy that lies inside both surfaces is made as it was asked for.
pub proof fn law_clip_keeps_inner_copy(src: int, dest: int, len: int, src_len: int, dest_len: int)
    requires
        0 <= src,
        0 <= dest,
        src + len <= src_len,
        dest + len <= dest_len,
    ensures
        clip_start(src, dest) == src,
        clip_len(src, dest, len, src_len, dest_len) == len,
{
}

/// Half of `a`, rounded towards zero.
pub open spec fn half(a: int) -> int {
    if a >= 0 {
        a / 2
    } else {
        -((-a) / 2)
    }
}

/// How the framebuffer is placed in the window. A fixed scale comes with
/// the size that the framebuffer has at that scale.
#[derive(Clone, Copy, Debug, PartialEq, Eq, Structural)]
pub enum Placement {
    Fixed { width: i32, height: i32 },
    Aspect,
    Full,
}

/// The rectangle `(x, y, w, h)` of the window that shows a framebuffer of
/// `fb_w` by `fb_h`: at a fixed scale centred, whatever its size; with the
/// aspect kept, as wide or as high as the window and centred along the
/// other axis; else the whole window.
pub open spec fn placed(placement: Placement, fb_w: int, fb_h: int, win_w: int, win_h: int) -> (
    int,
    int,
    int,
    int,
) {
    match placement {
        Placement::Fixed { width, height } => (
            half(win_w - width),
            half(win_h - height),
            width as int,
            height as int,
        ),
        Placement::Aspect => if fb_w > 0 && fb_h > 0 {
            let fixed_width = win_h * fb_w / fb_h;
            if fixed_width < win_w {
                (half(win_w - fixed_width), 0, fixed_width, win_h)
            } else {
                let fixed_height = win_w * fb_h / fb_w;
                (0, half(win_h - fixed_height), win_w, fixed_height)
            }
        } else {
            (0, 0, fb_w, fb_h)
        },
        Placement::Full => (0, 0, win_w, win_h),
    }
}

/// With the aspect kept, the framebuffer fills the window along one axis
/// and fits into it along the other.
pub proof fn law_aspect_fits(fb_w: int, fb_h: int, win_w: int, win_h: int)
    requires
        fb_w > 0,
        fb_h > 0,
        win_w > 0,
        win_h > 0,
    ensures
        ({
            let (x, y, w, h) = placed(Placement::Aspect, fb_w, fb_h, win_w, win_h);
            &&& 0 <= x && 0 <= y && 0 <= w && 0 <= h
            &&& x + w <= win_w
            &&& y + h <= win_h
            &&& w == win_w || h == win_h
            &&& x == (win_w - w) / 2
            &&& y == (win_h - h) / 2
        }),
{
    let fixed_width = win_h * fb_w / fb_h;
    assert(win_h * fb_w >= 0) by (nonlinear_arith)
        requires
            win_h > 0,
            fb_w > 0,
    ;
    assert(fixed_width >= 0) by (nonlinear_arith)
        requires
            win_h * fb_w >= 0,
            fb_h > 0,
            fixed_width == win_h * fb_w / fb_h,
    ;
    if fixed_width >= win_w {
        let fixed_height = win_w * fb_h / fb_w;
        assert(win_w * fb_h >= 0) by (nonlinear_arith)
            requires
                win_w > 0,
                fb_h > 0,
        ;
        assert(fixed_height >= 0) by (nonlinear_arith)
            requires
                win_w * fb_h >= 0,
                fb_w > 0,
                fixed_height == win_w * fb_h / fb_w,
        ;
        assert(fixed_height <= win_h) by (nonlinear_arith)
            requires
                fixed_width >= win_w,
                fixed_width == win_h * fb_w / fb_h,
                fixed_height == win_w * fb_h / fb_w,
                fb_w > 0,
                fb_h > 0,
                win_w > 0,
                win_h > 0,
        ;
    }
}

/// What presenting the frame asks of the GPU: draw what is queued, clear
/// the window, then copy the framebuffer, turned upside down, onto the
/// rectangle from `(x0, y0)` to `(x1, y1)` of the window.
#[derive(Debug)]
pub struct Presentation {
    pub flush: Option<DrawCall>,
    pub source: Framebuffer,
    pub x0: i32,
    pub y0: i32,
    pub x1: i32,
    pub y1: i32,
    pub interpolate: bool,
}

impl RendererModel {
    /// The framebuffer that `draw_stored` draws and a saved state holds:
    /// the stored one, or the main one while none is stored.
    pub open spec fn stored_or_main(self) -> Framebuffer {
        match self.stored_framebuffer {
            Some(f) => f,
            None => self.framebuffer,
        }
    }

    /// The framebuffer object of sprite `r`'s atlas.
    pub open spec fn fbo_of(self, rect: AtlasRect) -> Option<u32> {
        if rect.atlas_id < self.fbo_ids.len() {
            self.fbo_ids[rect.atlas_id as int]
        } else {
            None
        }
    }

    /// The copy that `copy_surface` makes, if it makes one.
    pub open spec fn surface_copy(
        self,
        dest: AtlasRef,
        dest_x: i32,
        dest_y: i32,
        src: AtlasRef,
        src_x: i32,
        src_y: i32,
        width: i32,
        height: i32,
    ) -> Option<SurfaceCopy> {
        match (self.rect(src), self.rect(dest)) {
            (Some(s), Some(d)) => {
                let w = clip_len(src_x as int, dest_x as int, width as int, s.w as int, d.w as int);
                let h = clip_len(src_y as int, dest_y as int, height as int, s.h as int, d.h as int);
                let sx = clip_start(src_x as int, dest_x as int);
                let sy = clip_start(src_y as int, dest_y as int);
                if w > 0 && h > 0 {
                    match (self.fbo_of(s), self.fbo_of(d)) {
                        (Some(src_fbo), Some(dest_fbo)) => Some(
                            SurfaceCopy {
                                src_fbo,
                                dest_fbo,
                                src_x: sx as i32,
                                src_y: sy as i32,
                                dest_x: (sx + dest_x - src_x) as i32,
                                dest_y: (sy + dest_y - src_y) as i32,
                                width: w as i32,
                                height: h as i32,
                            },
                        ),
                        _ => None,
                    }
                } else {
                    None
                }
            },
            _ => None,
        }
    }
}

impl RendererImpl {
    /// Exchanges the main framebuffer for `fresh`, of `width` by `height`,
    /// where the old one was `old_width` by `old_height`. The old one is
    /// stored for `draw_stored` if `store` is set, in place of the one
    /// stored before; else it is deleted.
    pub fn resize_framebuffer(
        &mut self,
        fresh: Framebuffer,
        old_width: i32,
        old_height: i32,
        width: u32,
        height: u32,
        store: bool,
    ) -> (resize: Resize)
        requires
            old_width >= 0,
            old_height >= 0,
        ensures
            final(self)@ == (RendererModel {
                framebuffer: fresh,
                stored_framebuffer: if store {
                    Some(old(self)@.framebuffer)
                } else {
                    old(self)@.stored_framebuffer
                },
                ..old(self)@.after_flush()
            }),
            draw_of(resize.flush) == old(self)@.flushed(),
            resize.source == old(self)@.framebuffer,
            resize.copy_width == if width < old_width {
                width as int
            } else {
                old_width as int
            },
            resize.copy_height == if height < old_height {
                height as int
            } else {
                old_height as int
            },
            resize.delete == if store {
                old(self)@.stored_framebuffer
            } else {
                Some(old(self)@.framebuffer)
            },
    {
        let flush = self.flush_queue();
        let source = self.framebuffer;
        let copy_width: i32 = if (width as i64) < (old_width as i64) {
            width as i32
        } else {
            old_width
        };
        let copy_height: i32 = if (height as i64) < (old_height as i64) {
            height as i32
        } else {
            old_height
        };
        self.framebuffer = fresh;
        let delete = if store {
            let previous = self.stored_framebuffer;
            self.stored_framebuffer = Some(source);
            previous
        } else {
            Some(source)
        };
        Resize { flush, source, copy_width, copy_height, delete }
    }

    /// Stores `fresh`, a framebuffer restored from a saved state, for
    /// `draw_stored`, and hands back the one stored before, to be deleted.
    pub fn set_stored(&mut self, fresh: Framebuffer) -> (previous: Option<Framebuffer>)
        ensures
            final(self)@ == (RendererModel { stored_framebuffer: Some(fresh), ..old(self)@ }),
            previous == old(self)@.stored_framebuffer,
    {
        let previous = self.stored_framebuffer;
        self.stored_framebuffer = Some(fresh);
        previous
    }

    /// The framebuffer whose pixels and depths a saved state holds.
    pub fn stored_framebuffer(&self) -> (f: Framebuffer)
        ensures
            f == self@.stored_or_main(),
    {
        match self.stored_framebuffer {
            Some(f) => f,
            None => self.framebuffer,
        }
    }

    /// The framebuffer that the game is drawn on.
    pub fn main_framebuffer(&self) -> (f: Framebuffer)
        ensures
            f == self@.framebuffer,
    {
        self.framebuffer
    }

    /// Draws the stored framebuffer onto `w` by `h` pixels at `(x, y)` of
    /// the main framebuffer. Nothing happens where the rectangle is empty or
    /// no framebuffer is stored.
    pub fn draw_stored(&mut self, x: i32, y: i32, w: u32, h: u32) -> (blit: Option<StoredBlit>)
        requires
            x + w <= i32::MAX,
            y + h <= i32::MAX,
        ensures
            match blit {
                Some(b) => {
                    &&& w != 0 && h != 0
                    &&& old(self)@.stored_framebuffer == Some(b.source)
                    &&& b.target == old(self)@.framebuffer
                    &&& draw_of(b.flush) == old(self)@.flushed()
                    &&& b.x0 == x && b.y0 == y && b.x1 == x + w && b.y1 == y + h
                    &&& final(self)@ == old(self)@.after_flush()
                },
                None => (w == 0 || h == 0 || old(self)@.stored_framebuffer is None) && final(self)@
                    == old(self)@,
            },
    {
        if w == 0 || h == 0 {
            return None;
        }
        let source = match self.stored_framebuffer {
            Some(f) => f,
            None => {
                return None;
            },
        };
        let flush = self.flush_queue();
        Some(
            StoredBlit {
                flush,
                source,
                target: self.framebuffer,
                x0: x,
                y0: y,
                x1: (x as i64 + w as i64) as i32,
                y1: (y as i64 + h as i64) as i32,
            },
        )
    }

    /// Detaches the main depth buffer (`trashed`) or attaches it again.
    /// Nothing happens where that is how things are.
    pub fn set_zbuf_trashed(&mut self, trashed: bool) -> (switch: Option<ZbufSwitch>)
        ensures
            match switch {
                Some(s) => {
                    &&& trashed != old(self)@.zbuf_trashed
                    &&& draw_of(s.flush) == old(self)@.flushed()
                    &&& s.fbo == old(self)@.framebuffer.fbo
                    &&& s.attach == if trashed {
                        0
                    } else {
                        old(self)@.framebuffer.zbuf
                    }
                    &&& final(self)@ == (RendererModel {
                        zbuf_trashed: trashed,
                        ..old(self)@.after_flush()
                    })
                },
                None => trashed == old(self)@.zbuf_trashed && final(self)@ == old(self)@,
            },
    {
        if trashed != self.zbuf_trashed {
            let flush = self.flush_queue();
            self.zbuf_trashed = trashed;
            Some(
                ZbufSwitch {
                    flush,
                    fbo: self.framebuffer.fbo,
                    attach: if trashed {
                        0
                    } else {
                        self.framebuffer.zbuf
                    },
                },
            )
        } else {
            None
        }
    }

    /// Makes the surface `atlas_ref` the draw target. A handle that names
    /// no surface with a framebuffer object only empties the queue.
    pub fn set_target(&mut self, atlas_ref: AtlasRef) -> (switch: TargetSwitch)
        ensures
            final(self)@ == old(self)@.after_flush(),
            draw_of(switch.flush) == old(self)@.flushed(),
            switch.target == match old(self)@.rect(atlas_ref) {
                Some(rect) => match old(self)@.fbo_of(rect) {
                    Some(fbo) => Some(
                        Target {
                            fbo,
                            x: rect.x,
                            y: rect.y,
                            w: rect.w,
                            h: rect.h,
                            perspective: old(self)@.using_3d && old(self)@.perspective,
                        },
                    ),
                    None => None,
                },
                None => None,
            },
    {
        let flush = self.flush_queue();
        let target = match self.get_rect(atlas_ref) {
            Some(rect) => match self.fbo_for(&rect) {
                Some(fbo) => Some(
                    Target {
                        fbo,
                        x: rect.x,
                        y: rect.y,
                        w: rect.w,
                        h: rect.h,
                        perspective: self.using_3d && self.perspective,
                    },
                ),
                None => None,
            },
            None => None,
        };
        TargetSwitch { flush, target }
    }

    fn fbo_for(&self, rect: &AtlasRect) -> (fbo: Option<u32>)
        ensures
            fbo == self@.fbo_of(*rect),
    {
        if (rect.atlas_id as usize) < self.fbo_ids.len() {
            self.fbo_ids[rect.atlas_id as usize]
        } else {
            None
        }
    }

    /// Sets the view port `(port_x, port_y, port_w, port_h)` while
    /// `bound_fbo` is the framebuffer object drawn on. The view port is set
    /// only on the main framebuffer, and only where none of its numbers is
    /// negative; the projection is in perspective in 3D mode with
    /// perspective on.
    pub fn set_view(&mut self, bound_fbo: u32, port_x: i32, port_y: i32, port_w: i32, port_h: i32) -> (switch:
        ViewSwitch)
        ensures
            final(self)@ == old(self)@.after_flush(),
            draw_of(switch.flush) == old(self)@.flushed(),
            switch.viewport == if bound_fbo == old(self)@.framebuffer.fbo && port_x >= 0 && port_y >= 0
                && port_w >= 0 && port_h >= 0 {
                Some((port_x, port_y, port_w, port_h))
            } else {
                None
            },
            switch.perspective == (old(self)@.using_3d && old(self)@.perspective),
    {
        let flush = self.flush_queue();
        let viewport = if bound_fbo == self.framebuffer.fbo && port_x >= 0 && port_y >= 0 && port_w
            >= 0 && port_h >= 0 {
            Some((port_x, port_y, port_w, port_h))
        } else {
            None
        };
        ViewSwitch { flush, viewport, perspective: self.using_3d && self.perspective }
    }

    /// Makes the main framebuffer, of `fb_width` by `fb_height`, the draw
    /// target again, with all of it in view.
    pub fn reset_target(&mut self, fb_width: i32, fb_height: i32) -> (switch: ViewSwitch)
        ensures
            final(self)@ == old(self)@.after_flush(),
            draw_of(switch.flush) == old(self)@.flushed(),
            switch.viewport == if fb_width >= 0 && fb_height >= 0 {
                Some((0i32, 0i32, fb_width, fb_height))
            } else {
                None
            },
            switch.perspective == (old(self)@.using_3d && old(self)@.perspective),
    {
        let fbo = self.framebuffer.fbo;
        self.set_view(fbo, 0, 0, fb_width, fb_height)
    }

    /// Clears the depth buffer, which there is in 3D mode only.
    pub fn clear_zbuf(&mut self) -> (clear: ZbufClear)
        ensures
            clear.clear == old(self)@.using_3d,
            old(self)@.using_3d ==> draw_of(clear.flush) == old(self)@.flushed() && final(self)@
                == old(self)@.after_flush(),
            !old(self)@.using_3d ==> clear.flush is None && final(self)@ == old(self)@,
    {
        if self.using_3d {
            let flush = self.flush_queue();
            ZbufClear { clear: true, flush }
        } else {
            ZbufClear { clear: false, flush: None }
        }
    }

    /// The copy of `width` by `height` pixels from `(src_x, src_y)` of
    /// surface `src` to `(dest_x, dest_y)` of surface `dest`, clipped to
    /// both surfaces. There is none where a handle names no surface, a
    /// surface has no framebuffer object or nothing is left after clipping.
    pub fn copy_surface(
        &self,
        dest: AtlasRef,
        dest_x: i32,
        dest_y: i32,
        src: AtlasRef,
        src_x: i32,
        src_y: i32,
        width: i32,
        height: i32,
    ) -> (copy: Option<SurfaceCopy>)
        ensures
            copy == self@.surface_copy(dest, dest_x, dest_y, src, src_x, src_y, width, height),
    {
        let (src_rect, dest_rect) = match (self.get_rect(src), self.get_rect(dest)) {
            (Some(s), Some(d)) => (s, d),
            _ => {
                return None;
            },
        };
        let (sx, dx, w) = clip_axis(src_x, dest_x, width, src_rect.w, dest_rect.w);
        let (sy, dy, h) = clip_axis(src_y, dest_y, height, src_rect.h, dest_rect.h);
        if w > 0 && h > 0 {
            match (self.fbo_for(&src_rect), self.fbo_for(&dest_rect)) {
                (Some(src_fbo), Some(dest_fbo)) => Some(
                    SurfaceCopy {
                        src_fbo,
                        dest_fbo,
                        src_x: sx as i32,
                        src_y: sy as i32,
                        dest_x: dx as i32,
                        dest_y: dy as i32,
                        width: w as i32,
                        height: h as i32,
                    },
                ),
                _ => None,
            }
        } else {
            None
        }
    }

    /// Ends the frame: the framebuffer, of `fb_width` by `fb_height`, is
    /// shown in a window of `window_width` by `window_height`. Nothing
    /// happens for a window without pixels.
    pub fn present(
        &mut self,
        fb_width: i32,
        fb_height: i32,
        window_width: u32,
        window_height: u32,
        placement: Placement,
    ) -> (shown: Option<Presentation>)
        requires
            window_width <= i32::MAX,
            window_height <= i32::MAX,
        ensures
            match shown {
                Some(p) => {
                    let (x, y, w, h) = placed(
                        placement,
                        fb_width as int,
                        fb_height as int,
                        window_width as int,
                        window_height as int,
                    );
                    &&& window_width != 0 && window_height != 0
                    &&& draw_of(p.flush) == old(self)@.flushed()
                    &&& p.source == old(self)@.framebuffer
                    &&& p.interpolate == old(self)@.next.interpolate_pixels
                    &&& p.x0 == x && p.y0 == y && p.x1 == x + w && p.y1 == y + h
                    &&& final(self)@ == old(self)@.after_flush()
                },
                None => (window_width == 0 || window_height == 0) && final(self)@ == old(self)@,
            },
    {
        if window_width == 0 || window_height == 0 {
            return None;
        }
        let flush = self.flush_queue();
        let win_w: i64 = window_width as i64;
        let win_h: i64 = window_height as i64;
        let fb_w: i64 = fb_width as i64;
        let fb_h: i64 = fb_height as i64;
        let (x, y, w, h): (i64, i64, i64, i64) = match placement {
            Placement::Fixed { width, height } => (
                (win_w - width as i64) / 2,
                (win_h - height as i64) / 2,
                width as i64,
                height as i64,
            ),
            Placement::Aspect => {
                if fb_w > 0 && fb_h > 0 {
                    proof {
                        law_aspect_fits(fb_w as int, fb_h as int, win_w as int, win_h as int);
                    }
                    assert(0 <= win_h * fb_w <= 0x7fff_ffff * 0x7fff_ffff) by (nonlinear_arith)
                        requires
                            0 < win_h <= 0x7fff_ffff,
                            0 < fb_w <= 0x7fff_ffff,
                    ;
                    assert(0 <= win_w * fb_h <= 0x7fff_ffff * 0x7fff_ffff) by (nonlinear_arith)
                        requires
                            0 < win_w <= 0x7fff_ffff,
                            0 < fb_h <= 0x7fff_ffff,
                    ;
                    let fixed_width: i64 = win_h * fb_w / fb_h;
                    if fixed_width < win_w {
                        ((win_w - fixed_width) / 2, 0, fixed_width, win_h)
                    } else {
                        let fixed_height: i64 = win_w * fb_h / fb_w;
                        (0, (win_h - fixed_height) / 2, win_w, fixed_height)
                    }
                } else {
                    (0, 0, fb_w, fb_h)
                }
            },
            Placement::Full => (0, 0, win_w, win_h),
        };
        Some(
            Presentation {
                flush,
                source: self.framebuffer,
                x0: x as i32,
                y0: y as i32,
                x1: (x + w) as i32,
                y1: (y + h) as i32,
                interpolate: self.next_render_state.interpolate_pixels,
            },
        )
    }
}

} // verus!
