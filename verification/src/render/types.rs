use vstd::prelude::*;

verus! {

/// Bit pattern of the 32-bit number 1.
pub const SINGLE_ONE: u32 = 0x3f80_0000;

/// Fog settings; `begin` and `end` are 32-bit patterns.
#[derive(Clone, Copy, Debug)]
pub struct Fog {
    pub colour: i32,
    pub begin: u32,
    pub end: u32,
}

/// A light source; directions, positions and ranges are 32-bit patterns.
#[derive(Clone, Copy, Debug)]
pub enum Light {
    Directional { direction: [u32; 3], colour: i32 },
    Point { position: [u32; 3], range: u32, colour: i32 },
}

/// A factor by which a colour is weighed when it is blended.
#[derive(Clone, Copy, Debug, PartialEq, Eq, Structural)]
pub enum BlendType {
    Zero,
    One,
    SrcColour,
    InvSrcColour,
    SrcAlpha,
    InvSrcAlpha,
    DestAlpha,
    InvDestAlpha,
    DestColour,
    InvDestColour,
    SrcAlphaSaturate,
}

/// How a run of vertices is read: as single points, lines or triangles,
/// or as a strip or fan that shares vertices.
#[derive(Clone, Copy, Debug, PartialEq, Eq, Structural)]
pub enum PrimitiveType {
    PointList,
    LineList,
    LineStrip,
    TriList,
    TriStrip,
    TriFan,
}

/// What the GPU is asked to assemble from a flat vertex list.
#[derive(Clone, Copy, Debug, PartialEq, Eq, Structural)]
pub enum PrimitiveShape {
    Point,
    Line,
    Triangle,
}

/// Handle of a sprite or surface in the registry.
#[derive(Clone, Copy, Debug, PartialEq, Eq, Structural)]
pub struct AtlasRef(pub i32);

/// A rectangle in one GPU texture. The origin is a pair of 32-bit patterns,
/// each the origin's offset as a fraction of the size. Two rectangles are
/// equal when all their numbers and patterns are.
#[derive(Clone, Copy, Debug, PartialEq, Eq, Structural)]
pub struct AtlasRect {
    pub atlas_id: u32,
    pub x: i32,
    pub y: i32,
    pub w: i32,
    pub h: i32,
    pub origin_x: u32,
    pub origin_y: u32,
}

/// One vertex as it is queued. Position, texture coordinate, blend colour
/// and normal are 32-bit patterns; the atlas rectangle is kept in texels.
#[derive(Clone, Copy, Debug)]
pub struct Vertex {
    pub pos: [u32; 3],
    pub tex_coord: [u32; 2],
    pub blend: [u32; 4],
    pub atlas_xywh: [i32; 4],
    pub normal: [u32; 3],
}

/// What a renderer is made with.
pub struct RendererOptions {
    pub size: (u32, u32),
    pub vsync: bool,
    pub interpolate_pixels: bool,
    pub normalize_normals: bool,
    pub zbuf_24: bool,
}

impl Default for RendererOptions {
    fn default() -> (o: Self)
        ensures
            o.size == (8u32, 8u32),
            o.vsync,
            !o.interpolate_pixels,
            !o.normalize_normals,
            !o.zbuf_24,
    {
        RendererOptions {
            size: (8, 8),
            vsync: true,
            interpolate_pixels: false,
            normalize_normals: false,
            zbuf_24: false,
        }
    }
}

impl Default for AtlasRect {
    fn default() -> (r: Self)
        ensures
            r == (AtlasRect { atlas_id: 0, x: 0, y: 0, w: 0, h: 0, origin_x: 0, origin_y: 0 }),
    {
        AtlasRect { atlas_id: 0, x: 0, y: 0, w: 0, h: 0, origin_x: 0, origin_y: 0 }
    }
}

impl AtlasRect {
    /// The rectangle as the four numbers a vertex carries.
    pub open spec fn xywh(self) -> [i32; 4] {
        [self.x, self.y, self.w, self.h]
    }

    pub fn to_xywh(&self) -> (a: [i32; 4])
        ensures
            a == self.xywh(),
    {
        [self.x, self.y, self.w, self.h]
    }
}

impl BlendType {
    /// The number by which the GPU knows this blend factor.
    pub open spec fn gl_code(self) -> u32 {
        match self {
            BlendType::Zero => 0u32,
            BlendType::One => 1u32,
            BlendType::SrcColour => 0x0300u32,
            BlendType::InvSrcColour => 0x0301u32,
            BlendType::SrcAlpha => 0x0302u32,
            BlendType::InvSrcAlpha => 0x0303u32,
            BlendType::DestAlpha => 0x0304u32,
            BlendType::InvDestAlpha => 0x0305u32,
            BlendType::DestColour => 0x0306u32,
            BlendType::InvDestColour => 0x0307u32,
            BlendType::SrcAlphaSaturate => 0x0308u32,
        }
    }

    pub fn gl_enum(self) -> (code: u32)
        ensures
            code == self.gl_code(),
    {
        match self {
            BlendType::Zero => 0,
            BlendType::One => 1,
            BlendType::SrcColour => 0x0300,
            BlendType::InvSrcColour => 0x0301,
            BlendType::SrcAlpha => 0x0302,
            BlendType::InvSrcAlpha => 0x0303,
            BlendType::DestAlpha => 0x0304,
            BlendType::InvDestAlpha => 0x0305,
            BlendType::DestColour => 0x0306,
            BlendType::InvDestColour => 0x0307,
            BlendType::SrcAlphaSaturate => 0x0308,
        }
    }

    /// The blend factor that the GPU knows by `code`, if it is one.
    pub fn from_gl_enum(code: u32) -> (bt: Option<BlendType>)
        ensures
            match bt {
                Some(b) => b.gl_code() == code,
                None => forall|b: BlendType| b.gl_code() != code,
            },
    {
        match code {
            0 => Some(BlendType::Zero),
            1 => Some(BlendType::One),
            0x0300 => Some(BlendType::SrcColour),
            0x0301 => Some(BlendType::InvSrcColour),
            0x0302 => Some(BlendType::SrcAlpha),
            0x0303 => Some(BlendType::InvSrcAlpha),
            0x0304 => Some(BlendType::DestAlpha),
            0x0305 => Some(BlendType::InvDestAlpha),
            0x0306 => Some(BlendType::DestColour),
            0x0307 => Some(BlendType::InvDestColour),
            0x0308 => Some(BlendType::SrcAlphaSaturate),
            _ => None,
        }
    }
}

impl PrimitiveShape {
    /// The number by which the GPU knows this shape.
    pub open spec fn gl_code(self) -> u32 {
        match self {
            PrimitiveShape::Point => 0u32,
            PrimitiveShape::Line => 1u32,
            PrimitiveShape::Triangle => 4u32,
        }
    }

    pub fn gl_enum(self) -> (code: u32)
        ensures
            code == self.gl_code(),
    {
        match self {
            PrimitiveShape::Point => 0,
            PrimitiveShape::Line => 1,
            PrimitiveShape::Triangle => 4,
        }
    }
}

impl PrimitiveType {
    /// The primitive type that a script's number names; any number without a
    /// meaning gives a point list, which draws nothing.
    pub open spec fn of_int(pt: i32) -> PrimitiveType {
        if pt == 2 {
            PrimitiveType::LineList
        } else if pt == 3 {
            PrimitiveType::LineStrip
        } else if pt == 4 {
            PrimitiveType::TriList
        } else if pt == 5 {
            PrimitiveType::TriStrip
        } else if pt == 6 {
            PrimitiveType::TriFan
        } else {
            PrimitiveType::PointList
        }
    }

    pub open spec fn shape(self) -> PrimitiveShape {
        match self {
            PrimitiveType::PointList => PrimitiveShape::Point,
            PrimitiveType::LineList | PrimitiveType::LineStrip => PrimitiveShape::Line,
            PrimitiveType::TriList | PrimitiveType::TriStrip | PrimitiveType::TriFan => PrimitiveShape::Triangle,
        }
    }
}

impl vstd::std_specs::convert::FromSpecImpl<i32> for PrimitiveType {
    open spec fn obeys_from_spec() -> bool {
        true
    }

    open spec fn from_spec(pt: i32) -> PrimitiveType {
        PrimitiveType::of_int(pt)
    }
}

impl vstd::std_specs::convert::FromSpecImpl<PrimitiveType> for PrimitiveShape {
    open spec fn obeys_from_spec() -> bool {
        true
    }

    open spec fn from_spec(pt: PrimitiveType) -> PrimitiveShape {
        pt.shape()
    }
}

impl From<i32> for PrimitiveType {
    fn from(pt: i32) -> (t: Self)
        ensures
            t == PrimitiveType::of_int(pt),
    {
        match pt {
            0 | 1 => PrimitiveType::PointList,
            2 => PrimitiveType::LineList,
            3 => PrimitiveType::LineStrip,
            4 => PrimitiveType::TriList,
            5 => PrimitiveType::TriStrip,
            6 => PrimitiveType::TriFan,
            _ => PrimitiveType::PointList,
        }
    }
}

impl From<PrimitiveType> for PrimitiveShape {
    fn from(pt: PrimitiveType) -> (s: Self)
        ensures
            s == pt.shape(),
    {
        match pt {
            PrimitiveType::PointList => PrimitiveShape::Point,
            PrimitiveType::LineList | PrimitiveType::LineStrip => PrimitiveShape::Line,
            PrimitiveType::TriList | PrimitiveType::TriStrip | PrimitiveType::TriFan => PrimitiveShape::Triangle,
        }
    }
}

} // verus!
