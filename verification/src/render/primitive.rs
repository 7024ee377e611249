use crate::ieee::{equal_single, single_equal};
use crate::render::types::{AtlasRect, PrimitiveShape, PrimitiveType, Vertex};
use vstd::prelude::*;

verus! {

/// The vertex list of a builder of type `ptype` that holds `vs`, after `v`
/// was pushed. Lists take the vertex as it is. A line strip repeats the
/// previous vertex first. A fan emits the previous rim vertex, the new one,
/// then the root; a strip emits a triangle of the last two vertices and the
/// new one, turned so that all triangles wind alike.
pub open spec fn pushed(vs: Seq<Vertex>, ptype: PrimitiveType, v: Vertex) -> Seq<Vertex> {
    let n = vs.len() as int;
    match ptype {
        PrimitiveType::PointList | PrimitiveType::LineList | PrimitiveType::TriList => vs.push(v),
        PrimitiveType::LineStrip => if n >= 2 {
            vs.push(vs[n - 1]).push(v)
        } else {
            vs.push(v)
        },
        PrimitiveType::TriFan => if n >= 3 {
            vs.push(vs[n - 2]).push(v).push(vs[n - 1])
        } else if n == 2 {
            seq![vs[1], v, vs[0]]
        } else {
            vs.push(v)
        },
        PrimitiveType::TriStrip => if n >= 3 {
            if (n + 3) % 6 == 3 {
                vs.push(vs[n - 1]).push(vs[n - 2]).push(v)
            } else {
                vs.push(vs[n - 2]).push(v).push(vs[n - 1])
            }
        } else {
            vs.push(v)
        },
    }
}

/// The vertex list of a fresh builder after `input` was pushed, vertex by
/// vertex.
pub open spec fn fed(ptype: PrimitiveType, input: Seq<Vertex>) -> Seq<Vertex>
    decreases input.len(),
{
    if input.len() == 0 {
        Seq::empty()
    } else {
        pushed(fed(ptype, input.drop_last()), ptype, input.last())
    }
}

/// How many vertices a builder holds after `n` were pushed.
pub open spec fn expanded_len(ptype: PrimitiveType, n: nat) -> nat {
    match ptype {
        PrimitiveType::PointList | PrimitiveType::LineList | PrimitiveType::TriList => n,
        PrimitiveType::LineStrip => if n < 2 {
            n
        } else {
            (2 * (n - 1)) as nat
        },
        PrimitiveType::TriStrip | PrimitiveType::TriFan => if n < 3 {
            n
        } else {
            (3 * (n - 2)) as nat
        },
    }
}

/// Which pushed vertex stands at place `k` of the expanded list of `n`
/// pushed vertices. Segment `j` of a line strip joins vertices `j` and
/// `j + 1`. Triangle `j` of a fan is rim vertex `j + 1`, rim vertex `j + 2`
/// and the root, vertex 0. Triangle `j` of a strip is made of vertices `j`,
/// `j + 1` and `j + 2`, the last two exchanged in every second triangle.
pub open spec fn source_index(ptype: PrimitiveType, n: nat, k: int) -> int {
    match ptype {
        PrimitiveType::PointList | PrimitiveType::LineList | PrimitiveType::TriList => k,
        PrimitiveType::LineStrip => if n < 2 {
            k
        } else {
            k / 2 + k % 2
        },
        PrimitiveType::TriFan => if n < 3 {
            k
        } else if k % 3 == 2 {
            0
        } else {
            k / 3 + 1 + k % 3
        },
        PrimitiveType::TriStrip => if n < 3 {
            k
        } else if (k / 3) % 2 == 0 {
            k / 3 + k % 3
        } else if k % 3 == 0 {
            k / 3
        } else if k % 3 == 1 {
            k / 3 + 2
        } else {
            k / 3 + 1
        },
    }
}

/// The flat list of independent points, lines or triangles that `input`
/// stands for when read as a primitive of type `ptype`.
pub open spec fn expanded(ptype: PrimitiveType, input: Seq<Vertex>) -> Seq<Vertex> {
    Seq::new(expanded_len(ptype, input.len()), |k: int| input[source_index(ptype, input.len(), k)])
}

/// Primitive expansion: pushing the vertices of a strip or fan one by one
/// leaves in the builder exactly the independent lines or triangles that the
/// strip or fan stands for.
#[verifier::rlimit(50)]
pub proof fn law_expansion(ptype: PrimitiveType, input: Seq<Vertex>)
    ensures
        fed(ptype, input) == expanded(ptype, input),
    decreases input.len(),
{
    if input.len() == 0 {
        assert(fed(ptype, input) =~= expanded(ptype, input));
    } else {
        let init = input.drop_last();
        law_expansion(ptype, init);
        let vs = expanded(ptype, init);
        let n = input.len() as int;
        let out = pushed(vs, ptype, input.last());
        let want = expanded(ptype, input);
        assert(out.len() == want.len());
        assert forall|k: int| 0 <= k < want.len() implies out[k] == want[k] by {
            let i = source_index(ptype, input.len(), k);
            if k < vs.len() && !(ptype == PrimitiveType::TriFan && n == 3) {
                let i0 = source_index(ptype, init.len(), k);
                assert(vs[k] == init[i0]);
                assert(i0 == i);
            }
        }
        assert(out =~= want);
    }
}

/// Primitive expansion, counted: a strip or fan of `N` vertices comes out as
/// `3 (N - 2)` vertices for triangles and `2 (N - 1)` for lines, once there
/// are enough vertices for one triangle or line.
pub proof fn law_expansion_count(ptype: PrimitiveType, input: Seq<Vertex>)
    ensures
        (ptype == PrimitiveType::TriStrip || ptype == PrimitiveType::TriFan) && input.len() >= 3
            ==> fed(ptype, input).len() == 3 * (input.len() - 2),
        ptype == PrimitiveType::LineStrip && input.len() >= 2 ==> fed(ptype, input).len() == 2 * (
        input.len() - 1),
        fed(ptype, input).len() == expanded_len(ptype, input.len()),
{
    law_expansion(ptype, input);
}

/// A builder to be used for building primitives.
#[derive(Debug)]
pub struct PrimitiveBuilder {
    vertices: Vec<Vertex>,
    ptype: PrimitiveType,
    atlas_ref: AtlasRect,
}

/// A primitive as a value: its expanded vertices, its type and the atlas
/// rectangle that its vertices are textured with.
pub struct Primitive {
    pub vertices: Seq<Vertex>,
    pub ptype: PrimitiveType,
    pub atlas_ref: AtlasRect,
}

impl View for PrimitiveBuilder {
    type V = Primitive;

    open spec fn view(&self) -> Primitive {
        Primitive { vertices: self.vertices(), ptype: self.ptype(), atlas_ref: self.atlas_ref() }
    }
}

impl Clone for PrimitiveBuilder {
    fn clone(&self) -> (r: Self)
        ensures
            r@ == self@,
    {
        let mut vertices: Vec<Vertex> = Vec::new();
        let mut i: usize = 0;
        while i < self.vertices.len()
            invariant
                i <= self.vertices@.len(),
                vertices@ == self.vertices@.subrange(0, i as int),
            decreases self.vertices@.len() - i,
        {
            vertices.push(self.vertices[i]);
            assert(vertices@ =~= self.vertices@.subrange(0, i + 1));
            i += 1;
        }
        assert(self.vertices@.subrange(0, self.vertices@.len() as int) =~= self.vertices@);
        Self { vertices, ptype: self.ptype, atlas_ref: self.atlas_ref }
    }
}

impl PrimitiveBuilder {
    pub closed spec fn vertices(&self) -> Seq<Vertex> {
        self.vertices@
    }

    pub closed spec fn ptype(&self) -> PrimitiveType {
        self.ptype
    }

    pub closed spec fn atlas_ref(&self) -> AtlasRect {
        self.atlas_ref
    }

    pub fn new(atlas_ref: AtlasRect, ptype: PrimitiveType) -> (b: Self)
        ensures
            b.vertices() == Seq::<Vertex>::empty(),
            b.ptype() == ptype,
            b.atlas_ref() == atlas_ref,
    {
        Self { vertices: Vec::new(), ptype, atlas_ref }
    }

    /// Rebuilds a builder from saved parts; the vertices are taken as the
    /// expanded list they were saved as.
    pub fn from_parts(vertices: Vec<Vertex>, ptype: PrimitiveType, atlas_ref: AtlasRect) -> (b: Self)
        ensures
            b.vertices() == vertices@,
            b.ptype() == ptype,
            b.atlas_ref() == atlas_ref,
    {
        Self { vertices, ptype, atlas_ref }
    }

    /// Pushes `v`, with the vertices that the primitive type repeats.
    pub fn push_vertex_raw(&mut self, v: Vertex)
        ensures
            final(self).vertices() == pushed(old(self).vertices(), old(self).ptype(), v),
            final(self).ptype() == old(self).ptype(),
            final(self).atlas_ref() == old(self).atlas_ref(),
    {
        let n = self.vertices.len();
        match self.ptype {
            PrimitiveType::PointList | PrimitiveType::LineList | PrimitiveType::TriList => {
                self.vertices.push(v);
            },
            PrimitiveType::LineStrip => {
                if n >= 2 {
                    let v1 = self.vertices[n - 1];
                    self.vertices.push(v1);
                }
                self.vertices.push(v);
            },
            PrimitiveType::TriFan => {
                if n >= 3 {
                    let v1 = self.vertices[n - 2];
                    let v2 = self.vertices[n - 1];
                    self.vertices.push(v1);
                    self.vertices.push(v);
                    self.vertices.push(v2);
                } else if n == 2 {
                    let a = self.vertices[0];
                    let b = self.vertices[1];
                    self.vertices.clear();
                    self.vertices.push(b);
                    self.vertices.push(v);
                    self.vertices.push(a);
                    assert(self.vertices@ =~= seq![b, v, a]);
                } else {
                    self.vertices.push(v);
                }
            },
            PrimitiveType::TriStrip => {
                if n >= 3 {
                    let v1 = self.vertices[n - 2];
                    let v2 = self.vertices[n - 1];
                    if (n % 6) == 0 {
                        self.vertices.push(v2);
                        self.vertices.push(v1);
                        self.vertices.push(v);
                    } else {
                        self.vertices.push(v1);
                        self.vertices.push(v);
                        self.vertices.push(v2);
                    }
                } else {
                    self.vertices.push(v);
                }
            },
        }
    }

    /// Pushes a vertex of this builder's atlas rectangle.
    pub fn push_vertex(&mut self, pos: [u32; 3], tex_coord: [u32; 2], blend: [u32; 4], normal: [u32; 3])
        ensures
            final(self).vertices() == pushed(
                old(self).vertices(),
                old(self).ptype(),
                (Vertex { pos, tex_coord, blend, atlas_xywh: old(self).atlas_ref().xywh(), normal }),
            ),
            final(self).ptype() == old(self).ptype(),
            final(self).atlas_ref() == old(self).atlas_ref(),
    {
        let atlas_xywh = self.atlas_ref.to_xywh();
        self.push_vertex_raw(Vertex { pos, tex_coord, blend, normal, atlas_xywh });
    }

    pub fn get_atlas_id(&self) -> (id: u32)
        ensures
            id == self.atlas_ref().atlas_id,
    {
        self.atlas_ref.atlas_id
    }

    pub fn get_atlas_ref(&self) -> (r: AtlasRect)
        ensures
            r == self.atlas_ref(),
    {
        self.atlas_ref
    }

    pub fn get_type(&self) -> (t: PrimitiveType)
        ensures
            t == self.ptype(),
    {
        self.ptype
    }

    pub fn get_shape(&self) -> (s: PrimitiveShape)
        ensures
            s == self.ptype().shape(),
    {
        PrimitiveShape::from(self.ptype)
    }

    pub fn get_vertices(&self) -> (vs: &Vec<Vertex>)
        ensures
            vs@ == self.vertices(),
    {
        &self.vertices
    }
}


/// A builder to be used for building basic shapes: a fan when filled, a
/// closed line strip when outlined.
#[derive(Debug)]
pub struct ShapeBuilder {
    primitive: PrimitiveBuilder,
    outline: bool,
    depth: u32,
}

/// The vertex of a basic shape at `(x, y)`: at the builder's depth, with no
/// texture coordinate and no normal.
pub open spec fn shape_vertex(x: u32, y: u32, depth: u32, blend: [u32; 4], atlas_ref: AtlasRect) -> Vertex {
    Vertex {
        pos: [x, y, depth],
        tex_coord: [0u32, 0u32],
        blend,
        atlas_xywh: atlas_ref.xywh(),
        normal: [0u32, 0u32, 0u32],
    }
}

/// The vertex list of a finished shape: an outline of three points or more
/// is closed by its first vertex.
pub open spec fn closed_shape(vs: Seq<Vertex>, ptype: PrimitiveType, outline: bool) -> Seq<Vertex> {
    if outline && vs.len() > 2 {
        pushed(vs, ptype, vs[0])
    } else {
        vs
    }
}

impl ShapeBuilder {
    pub closed spec fn primitive(&self) -> PrimitiveBuilder {
        self.primitive
    }

    pub closed spec fn outline(&self) -> bool {
        self.outline
    }

    pub closed spec fn depth(&self) -> u32 {
        self.depth
    }

    pub fn new(outline: bool, atlas_ref: AtlasRect, depth: u32) -> (b: Self)
        ensures
            b.outline() == outline,
            b.depth() == depth,
            b.primitive().vertices() == Seq::<Vertex>::empty(),
            b.primitive().atlas_ref() == atlas_ref,
            b.primitive().ptype() == if outline {
                PrimitiveType::LineStrip
            } else {
                PrimitiveType::TriFan
            },
    {
        Self {
            primitive: PrimitiveBuilder::new(
                atlas_ref,
                if outline {
                    PrimitiveType::LineStrip
                } else {
                    PrimitiveType::TriFan
                },
            ),
            outline,
            depth,
        }
    }

    /// Pushes the point `(x, y)`, given as 32-bit patterns, in colour `blend`.
    pub fn push_point(&mut self, x: u32, y: u32, blend: [u32; 4])
        ensures
            final(self).outline() == old(self).outline(),
            final(self).depth() == old(self).depth(),
            final(self).primitive().ptype() == old(self).primitive().ptype(),
            final(self).primitive().atlas_ref() == old(self).primitive().atlas_ref(),
            final(self).primitive().vertices() == pushed(
                old(self).primitive().vertices(),
                old(self).primitive().ptype(),
                shape_vertex(x, y, old(self).depth(), blend, old(self).primitive().atlas_ref()),
            ),
    {
        self.primitive.push_vertex([x, y, self.depth], [0, 0], blend, [0, 0, 0]);
    }

    /// Finishes the shape and hands out its primitive.
    pub fn build(self) -> (p: PrimitiveBuilder)
        ensures
            p.ptype() == self.primitive().ptype(),
            p.atlas_ref() == self.primitive().atlas_ref(),
            p.vertices() == closed_shape(
                self.primitive().vertices(),
                self.primitive().ptype(),
                self.outline(),
            ),
    {
        let mut primitive = self.primitive;
        if self.outline {
            if primitive.get_vertices().len() > 2 {
                let vertex = primitive.get_vertices()[0];
                primitive.push_vertex_raw(vertex);
            }
        }
        primitive
    }
}

/// Whether two blend colours are the same four numbers.
pub open spec fn same_blend(a: [u32; 4], b: [u32; 4]) -> bool {
    &&& single_equal(a[0], b[0])
    &&& single_equal(a[1], b[1])
    &&& single_equal(a[2], b[2])
    &&& single_equal(a[3], b[3])
}

/// `v` with blend colour `from` exchanged for `to`.
pub open spec fn recoloured(v: Vertex, from: [u32; 4], to: [u32; 4]) -> Vertex {
    if same_blend(v.blend, from) {
        Vertex { blend: to, ..v }
    } else {
        v
    }
}

/// The whole vertices of `vs`: as many as make up points, lines or triangles.
pub open spec fn whole_primitives(vs: Seq<Vertex>, shape: PrimitiveShape) -> Seq<Vertex> {
    match shape {
        PrimitiveShape::Point => vs,
        PrimitiveShape::Line => vs.subrange(0, (vs.len() / 2 * 2) as int),
        PrimitiveShape::Triangle => vs.subrange(0, (vs.len() / 3 * 3) as int),
    }
}

fn same_blend_exec(a: &[u32; 4], b: &[u32; 4]) -> (r: bool)
    ensures
        r == same_blend(*a, *b),
{
    equal_single(a[0], b[0]) && equal_single(a[1], b[1]) && equal_single(a[2], b[2]) && equal_single(
        a[3],
        b[3],
    )
}

fn recolour_all(vs: &mut Vec<Vertex>, from: &[u32; 4], to: &[u32; 4])
    ensures
        final(vs)@ == old(vs)@.map_values(|v: Vertex| recoloured(v, *from, *to)),
{
    let n = vs.len();
    let mut i: usize = 0;
    while i < n
        invariant
            i <= n,
            vs@.len() == n,
            n == old(vs)@.len(),
            forall|k: int| 0 <= k < i ==> vs@[k] == recoloured(old(vs)@[k], *from, *to),
            forall|k: int| i <= k < n ==> vs@[k] == old(vs)@[k],
        decreases n - i,
    {
        let v = vs[i];
        if same_blend_exec(&v.blend, from) {
            vs[i] = Vertex { blend: *to, ..v };
        }
        i += 1;
    }
    assert(vs@ =~= old(vs)@.map_values(|v: Vertex| recoloured(v, *from, *to)));
}

fn append_prefix(dst: &mut Vec<Vertex>, src: &Vec<Vertex>, count: usize)
    requires
        count <= src@.len(),
    ensures
        final(dst)@ == old(dst)@ + src@.subrange(0, count as int),
{
    let mut i: usize = 0;
    while i < count
        invariant
            i <= count,
            count <= src@.len(),
            dst@ == old(dst)@ + src@.subrange(0, i as int),
        decreases count - i,
    {
        dst.push(src[i]);
        assert(src@.subrange(0, i + 1) =~= src@.subrange(0, i as int).push(src@[i as int]));
        i += 1;
    }
}

/// Three independent vertex lists, one per shape, that a caller fills from
/// primitives and plays back later.
#[derive(Debug)]
pub struct VertexBuffer {
    points: Vec<Vertex>,
    lines: Vec<Vertex>,
    tris: Vec<Vertex>,
}

impl VertexBuffer {
    pub closed spec fn points(&self) -> Seq<Vertex> {
        self.points@
    }

    pub closed spec fn lines(&self) -> Seq<Vertex> {
        self.lines@
    }

    pub closed spec fn tris(&self) -> Seq<Vertex> {
        self.tris@
    }

    /// The list that holds vertices of `shape`.
    pub open spec fn list(&self, shape: PrimitiveShape) -> Seq<Vertex> {
        match shape {
            PrimitiveShape::Point => self.points(),
            PrimitiveShape::Line => self.lines(),
            PrimitiveShape::Triangle => self.tris(),
        }
    }

    pub fn new() -> (b: Self)
        ensures
            b.points() == Seq::<Vertex>::empty(),
            b.lines() == Seq::<Vertex>::empty(),
            b.tris() == Seq::<Vertex>::empty(),
    {
        VertexBuffer { points: Vec::new(), lines: Vec::new(), tris: Vec::new() }
    }

    pub fn from_parts(points: Vec<Vertex>, lines: Vec<Vertex>, tris: Vec<Vertex>) -> (b: Self)
        ensures
            b.points() == points@,
            b.lines() == lines@,
            b.tris() == tris@,
    {
        VertexBuffer { points, lines, tris }
    }

    pub fn get_points(&self) -> (vs: &Vec<Vertex>)
        ensures
            vs@ == self.points(),
    {
        &self.points
    }

    pub fn get_lines(&self) -> (vs: &Vec<Vertex>)
        ensures
            vs@ == self.lines(),
    {
        &self.lines
    }

    pub fn get_tris(&self) -> (vs: &Vec<Vertex>)
        ensures
            vs@ == self.tris(),
    {
        &self.tris
    }

    /// Appends the whole points, lines or triangles of `prim` to the list of
    /// its shape; a trailing vertex that completes none is left out.
    pub fn extend(&mut self, prim: &PrimitiveBuilder)
        ensures
            final(self).list(prim.ptype().shape()) == old(self).list(prim.ptype().shape())
                + whole_primitives(prim.vertices(), prim.ptype().shape()),
            forall|s: PrimitiveShape|
                s != prim.ptype().shape() ==> final(self).list(s) == old(self).list(s),
    {
        let verts = prim.get_vertices();
        match prim.get_shape() {
            PrimitiveShape::Point => {
                append_prefix(&mut self.points, verts, verts.len());
                assert(verts@.subrange(0, verts@.len() as int) =~= verts@);
            },
            PrimitiveShape::Line => {
                append_prefix(&mut self.lines, verts, verts.len() / 2 * 2);
            },
            PrimitiveShape::Triangle => {
                append_prefix(&mut self.tris, verts, verts.len() / 3 * 3);
            },
        }
    }

    /// Exchanges blend colour `from` for `to` in every vertex that has it.
    pub fn swap_colour(&mut self, from: [u32; 4], to: [u32; 4])
        ensures
            final(self).points() == old(self).points().map_values(|v: Vertex| recoloured(v, from, to)),
            final(self).lines() == old(self).lines().map_values(|v: Vertex| recoloured(v, from, to)),
            final(self).tris() == old(self).tris().map_values(|v: Vertex| recoloured(v, from, to)),
    {
        recolour_all(&mut self.points, &from, &to);
        recolour_all(&mut self.lines, &from, &to);
        recolour_all(&mut self.tris, &from, &to);
    }
}

} // verus!
