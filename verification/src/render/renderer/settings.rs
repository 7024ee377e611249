use crate::ieee::{is_nan_single, less_single, single_is_nan, single_less};
use crate::render::renderer::{RendererImpl, RendererModel};
use crate::render::state::{join_colour, join_rgb, split_colour, split_rgb, GlLight, RenderState};
use crate::render::types::{AtlasRef, BlendType, Fog, Light};
use vstd::prelude::*;

verus! {

/// Bit pattern of the 32-bit number 16000, the deepest depth.
pub const DEPTH_MAX: u32 = 0x467a_0000;

/// Bit pattern of the 32-bit number -16000, the shallowest depth.
pub const DEPTH_MIN: u32 = 0xc67a_0000;

/// A depth brought into the range from -16000 to 16000; a NaN becomes
/// -16000.
pub open spec fn clamped_depth(depth: u32) -> u32 {
    if single_is_nan(depth) || single_less(depth, DEPTH_MIN) {
        DEPTH_MIN
    } else if single_less(DEPTH_MAX, depth) {
        DEPTH_MAX
    } else {
        depth
    }
}

/// The precision of circles that a request for `prec` gives: brought into
/// the range from 4 to 64 and down to a multiple of 4.
pub open spec fn circle_steps(prec: i32) -> int {
    let c = if prec < 4 {
        4
    } else if prec > 64 {
        64
    } else {
        prec as int
    };
    c - c % 4
}

/// The light that a caller sees in the shader's light `l`.
pub open spec fn light_of(l: GlLight) -> (bool, Light) {
    let position = [l.pos[0], l.pos[1], l.pos[2]];
    let colour = join_rgb(l.colour) as i32;
    (
        l.enabled,
        if l.is_point {
            Light::Point { position, range: l.range, colour }
        } else {
            Light::Directional { direction: position, colour }
        },
    )
}

/// The shader's light `l` after the caller set it to `light`; a directional
/// light leaves the range as it was.
pub open spec fn with_light(l: GlLight, light: Light) -> GlLight {
    match light {
        Light::Directional { direction, colour } => GlLight {
            is_point: false,
            pos: [direction[0], direction[1], direction[2], l.pos[3]],
            colour: split_rgb(colour),
            ..l
        },
        Light::Point { position, range, colour } => GlLight {
            is_point: true,
            pos: [position[0], position[1], position[2], l.pos[3]],
            colour: split_rgb(colour),
            range,
            ..l
        },
    }
}

/// The eight lights with light `id` exchanged for `l`.
pub open spec fn lights_with(lights: [GlLight; 8], id: int, l: GlLight) -> [GlLight; 8] {
    [
        if id == 0 { l } else { lights[0] },
        if id == 1 { l } else { lights[1] },
        if id == 2 { l } else { lights[2] },
        if id == 3 { l } else { lights[3] },
        if id == 4 { l } else { lights[4] },
        if id == 5 { l } else { lights[5] },
        if id == 6 { l } else { lights[6] },
        if id == 7 { l } else { lights[7] },
    ]
}

/// The shader's light `l` after it was switched on or off and set to
/// `light`.
pub open spec fn relit(l: GlLight, setting: (bool, Light)) -> GlLight {
    with_light(GlLight { enabled: setting.0, ..l }, setting.1)
}

/// The eight lights after each was switched and set as `settings` says.
pub open spec fn lights_set(lights: [GlLight; 8], settings: [(bool, Light); 8]) -> [GlLight; 8] {
    [
        relit(lights[0], settings[0]),
        relit(lights[1], settings[1]),
        relit(lights[2], settings[2]),
        relit(lights[3], settings[3]),
        relit(lights[4], settings[4]),
        relit(lights[5], settings[5]),
        relit(lights[6], settings[6]),
        relit(lights[7], settings[7]),
    ]
}

/// The eight lights as a caller sees them.
pub open spec fn lights_of(lights: [GlLight; 8]) -> [(bool, Light); 8] {
    [
        light_of(lights[0]),
        light_of(lights[1]),
        light_of(lights[2]),
        light_of(lights[3]),
        light_of(lights[4]),
        light_of(lights[5]),
        light_of(lights[6]),
        light_of(lights[7]),
    ]
}

fn see_light(l: &GlLight) -> (r: (bool, Light))
    ensures
        r == light_of(*l),
{
    let position = [l.pos[0], l.pos[1], l.pos[2]];
    let colour = join_colour(&l.colour);
    (
        l.enabled,
        if l.is_point {
            Light::Point { position, range: l.range, colour }
        } else {
            Light::Directional { direction: position, colour }
        },
    )
}

fn relight(l: &GlLight, setting: &(bool, Light)) -> (r: GlLight)
    ensures
        r == relit(*l, *setting),
{
    match setting.1 {
        Light::Directional { direction, colour } => GlLight {
            enabled: setting.0,
            is_point: false,
            pos: [direction[0], direction[1], direction[2], l.pos[3]],
            colour: split_colour(colour),
            range: l.range,
        },
        Light::Point { position, range, colour } => GlLight {
            enabled: setting.0,
            is_point: true,
            pos: [position[0], position[1], position[2], l.pos[3]],
            colour: split_colour(colour),
            range,
        },
    }
}

/// The state that the caller has set, after one more change to it.
pub open spec fn with_next(m: RendererModel, next: RenderState) -> RendererModel {
    RendererModel { next, dirty: true, ..m }
}

impl RendererImpl {
    pub fn get_alpha_blending(&self) -> (b: bool)
        ensures
            b == self@.next.alpha_blending,
    {
        self.next_render_state.alpha_blending
    }

    pub fn set_alpha_blending(&mut self, alphablend: bool)
        ensures
            final(self)@ == with_next(
                old(self)@,
                RenderState { alpha_blending: alphablend, ..old(self)@.next },
            ),
    {
        self.next_render_state = RenderState { alpha_blending: alphablend, ..self.next_render_state };
        self.render_state_updated = true;
    }

    pub fn get_blend_mode(&self) -> (mode: (BlendType, BlendType))
        ensures
            mode == self@.next.blend_mode,
    {
        self.next_render_state.blend_mode
    }

    pub fn set_blend_mode(&mut self, src: BlendType, dst: BlendType)
        ensures
            final(self)@ == with_next(
                old(self)@,
                RenderState { blend_mode: (src, dst), ..old(self)@.next },
            ),
    {
        self.next_render_state = RenderState { blend_mode: (src, dst), ..self.next_render_state };
        self.render_state_updated = true;
    }

    pub fn get_pixel_interpolation(&self) -> (b: bool)
        ensures
            b == self@.next.interpolate_pixels,
    {
        self.next_render_state.interpolate_pixels
    }

    pub fn set_pixel_interpolation(&mut self, lerping: bool)
        ensures
            final(self)@ == with_next(
                old(self)@,
                RenderState { interpolate_pixels: lerping, ..old(self)@.next },
            ),
    {
        self.next_render_state = RenderState { interpolate_pixels: lerping, ..self.next_render_state };
        self.render_state_updated = true;
    }

    pub fn get_texture_repeat(&self) -> (b: bool)
        ensures
            b == self@.next.texture_repeat,
    {
        self.next_render_state.texture_repeat
    }

    pub fn set_texture_repeat(&mut self, repeat: bool)
        ensures
            final(self)@ == with_next(
                old(self)@,
                RenderState { texture_repeat: repeat, ..old(self)@.next },
            ),
    {
        self.next_render_state = RenderState { texture_repeat: repeat, ..self.next_render_state };
        self.render_state_updated = true;
    }

    pub fn set_view_matrix(&mut self, view: [u32; 16])
        ensures
            final(self)@ == with_next(old(self)@, RenderState { view_matrix: view, ..old(self)@.next }),
    {
        self.next_render_state = RenderState { view_matrix: view, ..self.next_render_state };
        self.render_state_updated = true;
    }

    pub fn set_viewproj_matrix(&mut self, view: [u32; 16], proj: [u32; 16])
        ensures
            final(self)@ == with_next(
                old(self)@,
                RenderState { view_matrix: view, proj_matrix: proj, ..old(self)@.next },
            ),
    {
        self.next_render_state = RenderState {
            view_matrix: view,
            proj_matrix: proj,
            ..self.next_render_state
        };
        self.render_state_updated = true;
    }

    pub fn get_model_matrix(&self) -> (model: [u32; 16])
        ensures
            model == self@.next.model_matrix,
    {
        self.next_render_state.model_matrix
    }

    pub fn set_model_matrix(&mut self, model: [u32; 16])
        ensures
            final(self)@ == with_next(
                old(self)@,
                RenderState { model_matrix: model, ..old(self)@.next },
            ),
    {
        self.next_render_state = RenderState { model_matrix: model, ..self.next_render_state };
        self.render_state_updated = true;
    }

    pub fn get_view_matrix(&self) -> (view: [u32; 16])
        ensures
            view == self@.next.view_matrix,
    {
        self.next_render_state.view_matrix
    }

    pub fn get_proj_matrix(&self) -> (proj: [u32; 16])
        ensures
            proj == self@.next.proj_matrix,
    {
        self.next_render_state.proj_matrix
    }

    /// The state that the GPU has, for the upload of the uniform block.
    pub fn queued_state(&self) -> (s: RenderState)
        ensures
            s == self@.queued,
    {
        self.queue_render_state
    }

    pub fn get_3d(&self) -> (b: bool)
        ensures
            b == self@.using_3d,
    {
        self.using_3d
    }

    /// Turns 3D mode on or off, and with it the depth test and the
    /// perspective projection.
    pub fn set_3d(&mut self, use_3d: bool)
        ensures
            final(self)@ == (RendererModel {
                using_3d: use_3d,
                perspective: use_3d,
                ..with_next(old(self)@, RenderState { depth_test: use_3d, ..old(self)@.next })
            }),
    {
        self.using_3d = use_3d;
        self.set_depth_test(use_3d);
        self.set_perspective(use_3d);
    }

    pub fn get_depth(&self) -> (depth: u32)
        ensures
            depth == self@.depth,
    {
        self.depth
    }

    /// Sets the depth at which 2D drawing happens: outside 3D mode always 0,
    /// in 3D mode `depth` brought into range.
    pub fn set_depth(&mut self, depth: u32)
        ensures
            final(self)@ == (RendererModel {
                depth: if old(self)@.using_3d {
                    clamped_depth(depth)
                } else {
                    0
                },
                ..old(self)@
            }),
    {
        self.depth = if self.using_3d {
            if is_nan_single(depth) || less_single(depth, DEPTH_MIN) {
                DEPTH_MIN
            } else if less_single(DEPTH_MAX, depth) {
                DEPTH_MAX
            } else {
                depth
            }
        } else {
            0
        };
    }

    pub fn get_depth_test(&self) -> (b: bool)
        ensures
            b == self@.next.depth_test,
    {
        self.next_render_state.depth_test
    }

    /// The depth test can be on in 3D mode only.
    pub fn set_depth_test(&mut self, depth_test: bool)
        ensures
            final(self)@ == with_next(
                old(self)@,
                RenderState { depth_test: depth_test && old(self)@.using_3d, ..old(self)@.next },
            ),
    {
        let depth_test = depth_test && self.using_3d;
        self.next_render_state = RenderState { depth_test, ..self.next_render_state };
        self.render_state_updated = true;
    }

    pub fn get_write_depth(&self) -> (b: bool)
        ensures
            b == self@.next.write_depth,
    {
        self.next_render_state.write_depth
    }

    pub fn set_write_depth(&mut self, write_depth: bool)
        ensures
            final(self)@ == with_next(old(self)@, RenderState { write_depth, ..old(self)@.next }),
    {
        self.next_render_state = RenderState { write_depth, ..self.next_render_state };
        self.render_state_updated = true;
    }

    pub fn get_culling(&self) -> (b: bool)
        ensures
            b == self@.next.culling,
    {
        self.next_render_state.culling
    }

    pub fn set_culling(&mut self, culling: bool)
        ensures
            final(self)@ == with_next(old(self)@, RenderState { culling, ..old(self)@.next }),
    {
        self.next_render_state = RenderState { culling, ..self.next_render_state };
        self.render_state_updated = true;
    }

    pub fn get_perspective(&self) -> (b: bool)
        ensures
            b == self@.perspective,
    {
        self.perspective
    }

    /// Affects only the projection that the next `set_view` picks.
    pub fn set_perspective(&mut self, perspective: bool)
        ensures
            final(self)@ == (RendererModel { perspective, ..old(self)@ }),
    {
        self.perspective = perspective;
    }

    pub fn get_fog(&self) -> (fog: Option<Fog>)
        ensures
            fog == if self@.next.fog_enabled {
                Some(
                    Fog {
                        colour: join_rgb(self@.next.fog_colour) as i32,
                        begin: self@.next.fog_begin,
                        end: self@.next.fog_end,
                    },
                )
            } else {
                None
            },
    {
        if self.next_render_state.fog_enabled {
            Some(
                Fog {
                    colour: join_colour(&self.next_render_state.fog_colour),
                    begin: self.next_render_state.fog_begin,
                    end: self.next_render_state.fog_end,
                },
            )
        } else {
            None
        }
    }

    /// Turns fog on with the given settings, or off, which leaves the
    /// settings as they were.
    pub fn set_fog(&mut self, fog: Option<Fog>)
        ensures
            final(self)@ == with_next(
                old(self)@,
                match fog {
                    Some(f) => RenderState {
                        fog_enabled: true,
                        fog_colour: split_rgb(f.colour),
                        fog_begin: f.begin,
                        fog_end: f.end,
                        ..old(self)@.next
                    },
                    None => RenderState { fog_enabled: false, ..old(self)@.next },
                },
            ),
    {
        match fog {
            Some(f) => {
                self.next_render_state = RenderState {
                    fog_enabled: true,
                    fog_colour: split_colour(f.colour),
                    fog_begin: f.begin,
                    fog_end: f.end,
                    ..self.next_render_state
                };
            },
            None => {
                self.next_render_state = RenderState { fog_enabled: false, ..self.next_render_state };
            },
        }
        self.render_state_updated = true;
    }

    pub fn get_gouraud(&self) -> (b: bool)
        ensures
            b == self@.next.gouraud,
    {
        self.next_render_state.gouraud
    }

    pub fn set_gouraud(&mut self, gouraud: bool)
        ensures
            final(self)@ == with_next(old(self)@, RenderState { gouraud, ..old(self)@.next }),
    {
        self.next_render_state = RenderState { gouraud, ..self.next_render_state };
        self.render_state_updated = true;
    }

    pub fn get_lighting_enabled(&self) -> (b: bool)
        ensures
            b == self@.next.lighting,
    {
        self.next_render_state.lighting
    }

    pub fn set_lighting_enabled(&mut self, enabled: bool)
        ensures
            final(self)@ == with_next(old(self)@, RenderState { lighting: enabled, ..old(self)@.next }),
    {
        self.next_render_state = RenderState { lighting: enabled, ..self.next_render_state };
        self.render_state_updated = true;
    }

    pub fn get_ambient_colour(&self) -> (colour: i32)
        ensures
            colour == join_rgb(self@.next.ambient_colour),
    {
        join_colour(&self.next_render_state.ambient_colour)
    }

    pub fn set_ambient_colour(&mut self, colour: i32)
        ensures
            final(self)@ == with_next(
                old(self)@,
                RenderState { ambient_colour: split_rgb(colour), ..old(self)@.next },
            ),
    {
        self.next_render_state = RenderState {
            ambient_colour: split_colour(colour),
            ..self.next_render_state
        };
        self.render_state_updated = true;
    }

    pub fn set_light_enabled(&mut self, id: usize, enabled: bool)
        requires
            id < 8,
        ensures
            final(self)@ == with_next(
                old(self)@,
                RenderState {
                    lights: lights_with(
                        old(self)@.next.lights,
                        id as int,
                        GlLight { enabled, ..old(self)@.next.lights[id as int] },
                    ),
                    ..old(self)@.next
                },
            ),
    {
        let l = self.next_render_state.lights[id];
        let mut lights = self.next_render_state.lights;
        lights[id] = GlLight { enabled, ..l };
        assert(lights =~= lights_with(old(self)@.next.lights, id as int, GlLight { enabled, ..l }));
        self.next_render_state = RenderState { lights, ..self.next_render_state };
        self.render_state_updated = true;
    }

    pub fn set_light(&mut self, id: usize, light: Light)
        requires
            id < 8,
        ensures
            final(self)@ == with_next(
                old(self)@,
                RenderState {
                    lights: lights_with(
                        old(self)@.next.lights,
                        id as int,
                        with_light(old(self)@.next.lights[id as int], light),
                    ),
                    ..old(self)@.next
                },
            ),
    {
        let l = self.next_render_state.lights[id];
        let updated = match light {
            Light::Directional { direction, colour } => GlLight {
                is_point: false,
                pos: [direction[0], direction[1], direction[2], l.pos[3]],
                colour: split_colour(colour),
                ..l
            },
            Light::Point { position, range, colour } => GlLight {
                is_point: true,
                pos: [position[0], position[1], position[2], l.pos[3]],
                colour: split_colour(colour),
                range,
                ..l
            },
        };
        let mut lights = self.next_render_state.lights;
        lights[id] = updated;
        assert(lights =~= lights_with(old(self)@.next.lights, id as int, updated));
        self.next_render_state = RenderState { lights, ..self.next_render_state };
        self.render_state_updated = true;
    }

    pub fn get_lights(&self) -> (lights: [(bool, Light); 8])
        ensures
            lights == lights_of(self@.next.lights),
    {
        let ls = &self.next_render_state.lights;
        [
            see_light(&ls[0]),
            see_light(&ls[1]),
            see_light(&ls[2]),
            see_light(&ls[3]),
            see_light(&ls[4]),
            see_light(&ls[5]),
            see_light(&ls[6]),
            see_light(&ls[7]),
        ]
    }

    /// Switches and sets all eight lights.
    pub fn set_lights(&mut self, lights: [(bool, Light); 8])
        ensures
            final(self)@ == with_next(
                old(self)@,
                RenderState { lights: lights_set(old(self)@.next.lights, lights), ..old(self)@.next },
            ),
    {
        let ls = self.next_render_state.lights;
        let updated = [
            relight(&ls[0], &lights[0]),
            relight(&ls[1], &lights[1]),
            relight(&ls[2], &lights[2]),
            relight(&ls[3], &lights[3]),
            relight(&ls[4], &lights[4]),
            relight(&ls[5], &lights[5]),
            relight(&ls[6], &lights[6]),
            relight(&ls[7], &lights[7]),
        ];
        self.next_render_state = RenderState { lights: updated, ..self.next_render_state };
        self.render_state_updated = true;
    }

    pub fn set_circle_precision(&mut self, prec: i32)
        ensures
            final(self)@ == (RendererModel {
                circle_precision: circle_steps(prec) as i32,
                ..old(self)@
            }),
            4 <= final(self)@.circle_precision <= 64,
            final(self)@.circle_precision % 4 == 0,
    {
        let c: i32 = if prec < 4 {
            4
        } else if prec > 64 {
            64
        } else {
            prec
        };
        self.circle_precision = c - c % 4;
    }

    pub fn get_circle_precision(&self) -> (prec: i32)
        ensures
            prec == self@.circle_precision,
    {
        self.circle_precision
    }

    pub fn get_zbuf_trashed(&self) -> (b: bool)
        ensures
            b == self@.zbuf_trashed,
    {
        self.zbuf_trashed
    }

    /// The number by which scripts know a texture: the handle's own.
    pub fn get_texture_id(&self, atl_ref: AtlasRef) -> (id: i32)
        ensures
            id == atl_ref.0,
    {
        atl_ref.0
    }

    pub fn get_texture_from_id(&self, id: i32) -> (r: Option<AtlasRef>)
        ensures
            r == Some(AtlasRef(id)),
    {
        Some(AtlasRef(id))
    }
}

} // verus!
