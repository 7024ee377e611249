use crate::render::primitive::{Primitive, PrimitiveBuilder};
use crate::render::renderer::settings::{circle_steps, clamped_depth, lights_of, lights_set};
use crate::render::renderer::surface::ZbufSwitch;
use crate::render::renderer::{draw_of, RendererImpl, RendererModel};
use crate::render::state::{join_rgb, split_rgb, RenderState};
use crate::render::types::{AtlasRect, BlendType, Fog, Light};
use vstd::prelude::*;

verus! {

/// All the parts of the renderer which need saving in saved states; each
/// can be queried on its own too. Numbers are bit patterns.
#[derive(Debug)]
pub struct RendererState {
    pub model_matrix: [u32; 16],
    pub alpha_blending: bool,
    pub blend_mode: (BlendType, BlendType),
    pub pixel_interpolation: bool,
    pub texture_repeat: bool,
    pub texture_rects: Vec<Option<AtlasRect>>,
    pub vsync: bool,
    pub ambient_colour: i32,
    pub using_3d: bool,
    pub depth: u32,
    pub depth_test: bool,
    pub write_depth: bool,
    pub culling: bool,
    pub perspective: bool,
    pub fog: Option<Fog>,
    pub gouraud: bool,
    pub lighting_enabled: bool,
    pub lights: [(bool, Light); 8],
    pub circle_precision: i32,
    pub primitive_2d: PrimitiveBuilder,
    pub primitive_3d: PrimitiveBuilder,
    pub zbuf_trashed: bool,
}

/// A saved state as a value.
pub struct SavedState {
    pub model_matrix: [u32; 16],
    pub alpha_blending: bool,
    pub blend_mode: (BlendType, BlendType),
    pub pixel_interpolation: bool,
    pub texture_repeat: bool,
    pub texture_rects: Seq<Option<AtlasRect>>,
    pub vsync: bool,
    pub ambient_colour: i32,
    pub using_3d: bool,
    pub depth: u32,
    pub depth_test: bool,
    pub write_depth: bool,
    pub culling: bool,
    pub perspective: bool,
    pub fog: Option<Fog>,
    pub gouraud: bool,
    pub lighting_enabled: bool,
    pub lights: [(bool, Light); 8],
    pub circle_precision: i32,
    pub primitive_2d: Primitive,
    pub primitive_3d: Primitive,
    pub zbuf_trashed: bool,
}

impl View for RendererState {
    type V = SavedState;

    open spec fn view(&self) -> SavedState {
        SavedState {
            model_matrix: self.model_matrix,
            alpha_blending: self.alpha_blending,
            blend_mode: self.blend_mode,
            pixel_interpolation: self.pixel_interpolation,
            texture_repeat: self.texture_repeat,
            texture_rects: self.texture_rects@,
            vsync: self.vsync,
            ambient_colour: self.ambient_colour,
            using_3d: self.using_3d,
            depth: self.depth,
            depth_test: self.depth_test,
            write_depth: self.write_depth,
            culling: self.culling,
            perspective: self.perspective,
            fog: self.fog,
            gouraud: self.gouraud,
            lighting_enabled: self.lighting_enabled,
            lights: self.lights,
            circle_precision: self.circle_precision,
            primitive_2d: self.primitive_2d@,
            primitive_3d: self.primitive_3d@,
            zbuf_trashed: self.zbuf_trashed,
        }
    }
}

impl RendererModel {
    /// What is saved of the renderer, beside the pixels; whether vsync is
    /// on is the window's to tell.
    pub open spec fn saved(self, vsync: bool) -> SavedState {
        SavedState {
            model_matrix: self.next.model_matrix,
            alpha_blending: self.next.alpha_blending,
            blend_mode: self.next.blend_mode,
            pixel_interpolation: self.next.interpolate_pixels,
            texture_repeat: self.next.texture_repeat,
            texture_rects: crate::render::renderer::registry::tail(
                self.texture_rects,
                self.stock_texture_count as int,
            ),
            vsync,
            ambient_colour: join_rgb(self.next.ambient_colour) as i32,
            using_3d: self.using_3d,
            depth: self.depth,
            depth_test: self.next.depth_test,
            write_depth: self.next.write_depth,
            culling: self.next.culling,
            perspective: self.perspective,
            fog: if self.next.fog_enabled {
                Some(
                    Fog {
                        colour: join_rgb(self.next.fog_colour) as i32,
                        begin: self.next.fog_begin,
                        end: self.next.fog_end,
                    },
                )
            } else {
                None
            },
            gouraud: self.next.gouraud,
            lighting_enabled: self.next.lighting,
            lights: lights_of(self.next.lights),
            circle_precision: self.circle_precision,
            primitive_2d: self.primitive_2d,
            primitive_3d: self.primitive_3d,
            zbuf_trashed: self.zbuf_trashed,
        }
    }

    /// The render state that the caller has set once `s` is restored: all
    /// that is saved of it is as saved, the view and the projection stay.
    pub open spec fn restored_next(self, s: SavedState) -> RenderState {
        let fogged = match s.fog {
            Some(f) => RenderState {
                fog_enabled: true,
                fog_colour: split_rgb(f.colour),
                fog_begin: f.begin,
                fog_end: f.end,
                ..self.next
            },
            None => RenderState { fog_enabled: false, ..self.next },
        };
        RenderState {
            model_matrix: s.model_matrix,
            alpha_blending: s.alpha_blending,
            blend_mode: s.blend_mode,
            interpolate_pixels: s.pixel_interpolation,
            texture_repeat: s.texture_repeat,
            ambient_colour: split_rgb(s.ambient_colour),
            depth_test: s.depth_test && s.using_3d,
            write_depth: s.write_depth,
            culling: s.culling,
            gouraud: s.gouraud,
            lighting: s.lighting_enabled,
            lights: lights_set(self.next.lights, s.lights),
            ..fogged
        }
    }

    /// The renderer once `s` is restored. What is queued is drawn first
    /// where the depth buffer is attached or detached.
    pub open spec fn restored(self, s: SavedState) -> RendererModel {
        RendererModel {
            next: self.restored_next(s),
            dirty: true,
            texture_rects: self.texture_rects.take(self.stock_texture_count as int) + s.texture_rects,
            using_3d: s.using_3d,
            depth: if s.using_3d {
                clamped_depth(s.depth)
            } else {
                0
            },
            perspective: s.perspective,
            circle_precision: circle_steps(s.circle_precision) as i32,
            primitive_2d: s.primitive_2d,
            primitive_3d: s.primitive_3d,
            zbuf_trashed: s.zbuf_trashed,
            vertex_queue: if s.zbuf_trashed != self.zbuf_trashed {
                Seq::empty()
            } else {
                self.vertex_queue
            },
            ..self
        }
    }
}

impl RendererImpl {
    /// What is to be saved of the renderer, beside the pixels.
    pub fn state(&self, vsync: bool) -> (state: RendererState)
        requires
            self@.wf(),
        ensures
            state@ == self@.saved(vsync),
    {
        RendererState {
            model_matrix: self.get_model_matrix(),
            alpha_blending: self.get_alpha_blending(),
            blend_mode: self.get_blend_mode(),
            pixel_interpolation: self.get_pixel_interpolation(),
            texture_repeat: self.get_texture_repeat(),
            texture_rects: self.get_texture_rects(),
            vsync,
            ambient_colour: self.get_ambient_colour(),
            using_3d: self.get_3d(),
            depth: self.get_depth(),
            depth_test: self.get_depth_test(),
            write_depth: self.get_write_depth(),
            culling: self.get_culling(),
            perspective: self.get_perspective(),
            fog: self.get_fog(),
            gouraud: self.get_gouraud(),
            lighting_enabled: self.get_lighting_enabled(),
            lights: self.get_lights(),
            circle_precision: self.get_circle_precision(),
            primitive_2d: self.get_primitive_2d(),
            primitive_3d: self.get_primitive_3d(),
            zbuf_trashed: self.get_zbuf_trashed(),
        }
    }

    fn restore_blending(&mut self, state: &RendererState)
        ensures
            final(self)@ == (RendererModel {
                dirty: true,
                next: RenderState {
                    model_matrix: state.model_matrix,
                    alpha_blending: state.alpha_blending,
                    blend_mode: state.blend_mode,
                    interpolate_pixels: state.pixel_interpolation,
                    texture_repeat: state.texture_repeat,
                    ..old(self)@.next
                },
                ..old(self)@
            }),
    {
        self.set_model_matrix(state.model_matrix);
        self.set_alpha_blending(state.alpha_blending);
        self.set_blend_mode(state.blend_mode.0, state.blend_mode.1);
        self.set_pixel_interpolation(state.pixel_interpolation);
        self.set_texture_repeat(state.texture_repeat);
    }

    fn restore_depth(&mut self, state: &RendererState)
        ensures
            final(self)@ == (RendererModel {
                dirty: true,
                using_3d: state.using_3d,
                perspective: state.perspective,
                depth: if state.using_3d {
                    clamped_depth(state.depth)
                } else {
                    0
                },
                next: RenderState {
                    ambient_colour: split_rgb(state.ambient_colour),
                    depth_test: state.depth_test && state.using_3d,
                    write_depth: state.write_depth,
                    culling: state.culling,
                    ..old(self)@.next
                },
                ..old(self)@
            }),
    {
        self.set_ambient_colour(state.ambient_colour);
        self.set_3d(state.using_3d);
        self.set_depth(state.depth);
        self.set_depth_test(state.depth_test);
        self.set_write_depth(state.write_depth);
        self.set_culling(state.culling);
        self.set_perspective(state.perspective);
    }

    fn restore_lighting(&mut self, state: &RendererState)
        ensures
            final(self)@ == (RendererModel {
                dirty: true,
                next: RenderState {
                    gouraud: state.gouraud,
                    lighting: state.lighting_enabled,
                    lights: lights_set(old(self)@.next.lights, state.lights),
                    ..match state.fog {
                        Some(f) => RenderState {
                            fog_enabled: true,
                            fog_colour: split_rgb(f.colour),
                            fog_begin: f.begin,
                            fog_end: f.end,
                            ..old(self)@.next
                        },
                        None => RenderState { fog_enabled: false, ..old(self)@.next },
                    }
                },
                ..old(self)@
            }),
    {
        self.set_fog(state.fog);
        self.set_gouraud(state.gouraud);
        self.set_lighting_enabled(state.lighting_enabled);
        self.set_lights(state.lights);
    }

    /// Restores a saved state, value by value. Vsync is the window's to
    /// set; the depth buffer is to be attached or detached as the result
    /// says.
    #[verifier::rlimit(50)]
    pub fn set_state(&mut self, state: &RendererState) -> (switch: Option<ZbufSwitch>)
        requires
            old(self)@.wf(),
        ensures
            final(self)@.wf(),
            final(self)@ == old(self)@.restored(state@),
            match switch {
                Some(s) => {
                    &&& state.zbuf_trashed != old(self)@.zbuf_trashed
                    &&& draw_of(s.flush) == old(self)@.flushed()
                    &&& s.fbo == old(self)@.framebuffer.fbo
                    &&& s.attach == if state.zbuf_trashed {
                        0
                    } else {
                        old(self)@.framebuffer.zbuf
                    }
                },
                None => state.zbuf_trashed == old(self)@.zbuf_trashed,
            },
    {
        self.restore_blending(state);
        self.set_texture_rects(&state.texture_rects);
        self.restore_depth(state);
        self.restore_lighting(state);
        self.set_circle_precision(state.circle_precision);
        self.set_primitive_2d(state.primitive_2d.clone());
        self.set_primitive_3d(state.primitive_3d.clone());
        proof {
            let want = old(self)@.restored(state@);
            assert(self@.next.lights =~= want.next.lights);
            assert(self@.next == want.next);
        }
        self.set_zbuf_trashed(state.zbuf_trashed)
    }
}

} // verus!
