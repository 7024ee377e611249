use crate::ieee::{equal_single, single_equal};
use crate::render::types::{BlendType, SINGLE_ONE};
use vstd::prelude::*;

verus! {

/// The low 24 bits of a colour, where its three channels live.
pub open spec fn colour_bits(rgb: i32) -> int {
    (if rgb < 0 {
        rgb + 0x1_0000_0000
    } else {
        rgb as int
    }) % 0x100_0000
}

/// A `0xBBGGRR` colour as red, green, blue and full alpha, each in 255ths.
pub open spec fn split_rgb(rgb: i32) -> [u8; 4] {
    let c = colour_bits(rgb);
    [(c % 256) as u8, (c / 256 % 256) as u8, (c / 65536) as u8, 255u8]
}

/// The `0xBBGGRR` colour of three channels; the alpha is not part of it.
pub open spec fn join_rgb(c: [u8; 4]) -> int {
    c[0] + 256 * c[1] + 65536 * c[2]
}

/// Decomposes a `0xBBGGRR` colour into channels in 255ths, with full alpha.
pub fn split_colour(rgb: i32) -> (c: [u8; 4])
    ensures
        c == split_rgb(rgb),
        join_rgb(c) == colour_bits(rgb),
{
    let wide: i64 = if rgb < 0 {
        rgb as i64 + 0x1_0000_0000
    } else {
        rgb as i64
    };
    let low: i64 = wide % 0x100_0000;
    let c = [(low % 256) as u8, (low / 256 % 256) as u8, (low / 65536) as u8, 255u8];
    assert(c =~= split_rgb(rgb));
    c
}

/// Recomposes the `0xBBGGRR` colour of three channels.
pub fn join_colour(c: &[u8; 4]) -> (rgb: i32)
    ensures
        rgb == join_rgb(*c),
{
    c[0] as i32 + 256 * (c[1] as i32) + 65536 * (c[2] as i32)
}

/// A colour read back is the colour that was set, less the bits above its
/// three channels.
pub proof fn law_colour_round_trip(rgb: i32)
    ensures
        join_rgb(split_rgb(rgb)) == colour_bits(rgb),
        0 <= rgb < 0x100_0000 ==> join_rgb(split_rgb(rgb)) == rgb,
{
}

/// One light as the shader reads it. Position (or direction) and range are
/// 32-bit patterns, the colour is in 255ths.
#[derive(Clone, Copy, Debug)]
pub struct GlLight {
    pub pos: [u32; 4],
    pub colour: [u8; 4],
    pub enabled: bool,
    pub is_point: bool,
    pub range: u32,
}

/// Everything the GPU pipeline is told: the shader's uniform block (from the
/// model matrix to the fog colour) and the switches set by separate calls.
/// Matrices and fog distances are 32-bit patterns, colours are in 255ths.
#[derive(Clone, Copy, Debug)]
pub struct RenderState {
    pub model_matrix: [u32; 16],
    pub viewproj_matrix: [u32; 16],
    pub lights: [GlLight; 8],
    pub ambient_colour: [u8; 4],
    pub lighting: bool,
    pub gouraud: bool,
    pub texture_repeat: bool,
    pub interpolate_pixels: bool,
    pub depth_test: bool,
    pub fog_enabled: bool,
    pub fog_begin: u32,
    pub fog_end: u32,
    pub fog_colour: [u8; 4],
    pub view_matrix: [u32; 16],
    pub proj_matrix: [u32; 16],
    pub alpha_blending: bool,
    pub blend_mode: (BlendType, BlendType),
    pub write_depth: bool,
    pub culling: bool,
}

/// The identity matrix.
pub open spec fn identity_matrix() -> [u32; 16] {
    [
        SINGLE_ONE,
        0u32,
        0u32,
        0u32,
        0u32,
        SINGLE_ONE,
        0u32,
        0u32,
        0u32,
        0u32,
        SINGLE_ONE,
        0u32,
        0u32,
        0u32,
        0u32,
        SINGLE_ONE,
    ]
}

/// A light that is off, at the origin, black.
pub open spec fn dark_light() -> GlLight {
    GlLight {
        pos: [0u32, 0u32, 0u32, 0u32],
        colour: [0u8, 0u8, 0u8, 0u8],
        enabled: false,
        is_point: false,
        range: 0,
    }
}

/// The state a renderer starts in.
pub open spec fn initial_state() -> RenderState {
    RenderState {
        model_matrix: identity_matrix(),
        viewproj_matrix: identity_matrix(),
        lights: [
            dark_light(),
            dark_light(),
            dark_light(),
            dark_light(),
            dark_light(),
            dark_light(),
            dark_light(),
            dark_light(),
        ],
        ambient_colour: [0u8, 0u8, 0u8, 0u8],
        lighting: false,
        gouraud: true,
        texture_repeat: false,
        interpolate_pixels: false,
        depth_test: false,
        fog_enabled: false,
        fog_begin: 0,
        fog_end: 0,
        fog_colour: [0u8, 0u8, 0u8, 0u8],
        view_matrix: identity_matrix(),
        proj_matrix: identity_matrix(),
        alpha_blending: true,
        blend_mode: (BlendType::SrcAlpha, BlendType::InvSrcAlpha),
        write_depth: false,
        culling: false,
    }
}

/// Two runs of 32-bit patterns that hold the same numbers.
pub open spec fn same_numbers(a: Seq<u32>, b: Seq<u32>) -> bool {
    &&& a.len() == b.len()
    &&& forall|i: int| 0 <= i < a.len() ==> single_equal(#[trigger] a[i], b[i])
}

/// Whether two lights tell the shader the same.
pub open spec fn same_light(a: GlLight, b: GlLight) -> bool {
    &&& same_numbers(a.pos@, b.pos@)
    &&& a.colour == b.colour
    &&& a.enabled == b.enabled
    &&& a.is_point == b.is_point
    &&& single_equal(a.range, b.range)
}

/// Whether two states tell the GPU the same: numbers compare as numbers, so
/// a state that holds a NaN differs from every state, itself included.
pub open spec fn same_state(a: RenderState, b: RenderState) -> bool {
    &&& same_numbers(a.model_matrix@, b.model_matrix@)
    &&& same_numbers(a.viewproj_matrix@, b.viewproj_matrix@)
    &&& forall|i: int| 0 <= i < 8 ==> same_light(#[trigger] a.lights[i], b.lights[i])
    &&& a.ambient_colour == b.ambient_colour
    &&& a.lighting == b.lighting
    &&& a.gouraud == b.gouraud
    &&& a.texture_repeat == b.texture_repeat
    &&& a.interpolate_pixels == b.interpolate_pixels
    &&& a.depth_test == b.depth_test
    &&& a.fog_enabled == b.fog_enabled
    &&& single_equal(a.fog_begin, b.fog_begin)
    &&& single_equal(a.fog_end, b.fog_end)
    &&& a.fog_colour == b.fog_colour
    &&& same_numbers(a.view_matrix@, b.view_matrix@)
    &&& same_numbers(a.proj_matrix@, b.proj_matrix@)
    &&& a.alpha_blending == b.alpha_blending
    &&& a.blend_mode == b.blend_mode
    &&& a.write_depth == b.write_depth
    &&& a.culling == b.culling
}

/// What the GPU has to be told when its state goes from `queued` to `next`.
/// A switch is named only where it changes; the uniform block is uploaded
/// whole in any case.
#[derive(Clone, Copy, Debug)]
pub struct StateChange {
    /// The view or the projection changed: the combined matrix is out of
    /// date and has to be computed anew before the upload.
    pub viewproj_stale: bool,
    pub alpha_blending: Option<bool>,
    pub blend_mode: Option<(BlendType, BlendType)>,
    pub depth_test: Option<bool>,
    pub culling: Option<bool>,
    pub write_depth: Option<bool>,
}

/// What the GPU has to be told when its state goes from `queued` to `next`.
pub open spec fn state_change(queued: RenderState, next: RenderState) -> StateChange {
    StateChange {
        viewproj_stale: !same_numbers(queued.view_matrix@, next.view_matrix@) || !same_numbers(
            queued.proj_matrix@,
            next.proj_matrix@,
        ),
        alpha_blending: if queued.alpha_blending != next.alpha_blending {
            Some(next.alpha_blending)
        } else {
            None
        },
        blend_mode: if queued.blend_mode != next.blend_mode {
            Some(next.blend_mode)
        } else {
            None
        },
        depth_test: if queued.depth_test != next.depth_test {
            Some(next.depth_test)
        } else {
            None
        },
        culling: if queued.culling != next.culling {
            Some(next.culling)
        } else {
            None
        },
        write_depth: if queued.write_depth != next.write_depth {
            Some(next.write_depth)
        } else {
            None
        },
    }
}

fn same_bytes(a: &[u8; 4], b: &[u8; 4]) -> (r: bool)
    ensures
        r == (*a == *b),
{
    let r = a[0] == b[0] && a[1] == b[1] && a[2] == b[2] && a[3] == b[3];
    assert(r ==> *a =~= *b);
    r
}

fn same_matrix(a: &[u32; 16], b: &[u32; 16]) -> (r: bool)
    ensures
        r == same_numbers(a@, b@),
{
    let mut i: usize = 0;
    while i < 16
        invariant
            i <= 16,
            forall|k: int| 0 <= k < i ==> single_equal(#[trigger] a@[k], b@[k]),
        decreases 16 - i,
    {
        if !equal_single(a[i], b[i]) {
            return false;
        }
        i += 1;
    }
    true
}

fn same_light_exec(a: &GlLight, b: &GlLight) -> (r: bool)
    ensures
        r == same_light(*a, *b),
{
    let pos = equal_single(a.pos[0], b.pos[0]) && equal_single(a.pos[1], b.pos[1]) && equal_single(
        a.pos[2],
        b.pos[2],
    ) && equal_single(a.pos[3], b.pos[3]);
    pos && same_bytes(&a.colour, &b.colour) && a.enabled == b.enabled && a.is_point == b.is_point
        && equal_single(a.range, b.range)
}

fn same_lights(a: &[GlLight; 8], b: &[GlLight; 8]) -> (r: bool)
    ensures
        r == (forall|i: int| 0 <= i < 8 ==> same_light(#[trigger] a[i], b[i])),
{
    let mut i: usize = 0;
    while i < 8
        invariant
            i <= 8,
            forall|k: int| 0 <= k < i ==> same_light(#[trigger] a[k], b[k]),
        decreases 8 - i,
    {
        if !same_light_exec(&a[i], &b[i]) {
            return false;
        }
        i += 1;
    }
    true
}

fn same_blend_mode(a: (BlendType, BlendType), b: (BlendType, BlendType)) -> (r: bool)
    ensures
        r == (a == b),
{
    a.0 == b.0 && a.1 == b.1
}

impl RenderState {
    pub fn new() -> (s: Self)
        ensures
            s == initial_state(),
    {
        let identity: [u32; 16] = [
            SINGLE_ONE,
            0,
            0,
            0,
            0,
            SINGLE_ONE,
            0,
            0,
            0,
            0,
            SINGLE_ONE,
            0,
            0,
            0,
            0,
            SINGLE_ONE,
        ];
        let dark = GlLight {
            pos: [0, 0, 0, 0],
            colour: [0, 0, 0, 0],
            enabled: false,
            is_point: false,
            range: 0,
        };
        RenderState {
            model_matrix: identity,
            viewproj_matrix: identity,
            lights: [dark, dark, dark, dark, dark, dark, dark, dark],
            ambient_colour: [0, 0, 0, 0],
            lighting: false,
            gouraud: true,
            texture_repeat: false,
            interpolate_pixels: false,
            depth_test: false,
            fog_enabled: false,
            fog_begin: 0,
            fog_end: 0,
            fog_colour: [0, 0, 0, 0],
            view_matrix: identity,
            proj_matrix: identity,
            alpha_blending: true,
            blend_mode: (BlendType::SrcAlpha, BlendType::InvSrcAlpha),
            write_depth: false,
            culling: false,
        }
    }

    /// Whether `self` and `other` tell the GPU the same.
    pub fn same_as(&self, other: &RenderState) -> (r: bool)
        ensures
            r == same_state(*self, *other),
    {
        same_matrix(&self.model_matrix, &other.model_matrix) && same_matrix(
            &self.viewproj_matrix,
            &other.viewproj_matrix,
        ) && same_lights(&self.lights, &other.lights) && same_bytes(
            &self.ambient_colour,
            &other.ambient_colour,
        ) && self.lighting == other.lighting && self.gouraud == other.gouraud && self.texture_repeat
            == other.texture_repeat && self.interpolate_pixels == other.interpolate_pixels
            && self.depth_test == other.depth_test && self.fog_enabled == other.fog_enabled
            && equal_single(self.fog_begin, other.fog_begin) && equal_single(
            self.fog_end,
            other.fog_end,
        ) && same_bytes(&self.fog_colour, &other.fog_colour) && same_matrix(
            &self.view_matrix,
            &other.view_matrix,
        ) && same_matrix(&self.proj_matrix, &other.proj_matrix) && self.alpha_blending
            == other.alpha_blending && same_blend_mode(self.blend_mode, other.blend_mode)
            && self.write_depth == other.write_depth && self.culling == other.culling
    }

    /// What the GPU has to be told to get from `self` to `next`.
    pub fn change_to(&self, next: &RenderState) -> (c: StateChange)
        ensures
            c == state_change(*self, *next),
    {
        StateChange {
            viewproj_stale: !same_matrix(&self.view_matrix, &next.view_matrix) || !same_matrix(
                &self.proj_matrix,
                &next.proj_matrix,
            ),
            alpha_blending: if self.alpha_blending != next.alpha_blending {
                Some(next.alpha_blending)
            } else {
                None
            },
            blend_mode: if !same_blend_mode(self.blend_mode, next.blend_mode) {
                Some(next.blend_mode)
            } else {
                None
            },
            depth_test: if self.depth_test != next.depth_test {
                Some(next.depth_test)
            } else {
                None
            },
            culling: if self.culling != next.culling {
                Some(next.culling)
            } else {
                None
            },
            write_depth: if self.write_depth != next.write_depth {
                Some(next.write_depth)
            } else {
                None
            },
        }
    }
}

} // verus!
