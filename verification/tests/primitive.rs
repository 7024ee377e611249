use gm8emulator::render::primitive::{PrimitiveBuilder, ShapeBuilder, VertexBuffer};
use gm8emulator::render::types::{AtlasRect, PrimitiveShape, PrimitiveType, Vertex};

fn rect() -> AtlasRect {
    AtlasRect { atlas_id: 2, x: 10, y: 20, w: 30, h: 40, origin_x: 0, origin_y: 0 }
}

fn v(n: u32) -> Vertex {
    Vertex {
        pos: [n, 0, 0],
        tex_coord: [0, 0],
        blend: [0, 0, 0, 0],
        atlas_xywh: [0, 0, 0, 0],
        normal: [0, 0, 0],
    }
}

fn fed(ptype: PrimitiveType, n: u32) -> Vec<u32> {
    let mut b = PrimitiveBuilder::new(rect(), ptype);
    for i in 0..n {
        b.push_vertex_raw(v(i));
    }
    b.get_vertices().iter().map(|v| v.pos[0]).collect()
}

#[test]
fn lists_are_not_expanded() {
    assert_eq!(fed(PrimitiveType::PointList, 4), vec![0, 1, 2, 3]);
    assert_eq!(fed(PrimitiveType::LineList, 5), vec![0, 1, 2, 3, 4]);
    assert_eq!(fed(PrimitiveType::TriList, 7), vec![0, 1, 2, 3, 4, 5, 6]);
}

#[test]
fn line_strip_repeats_the_previous_vertex() {
    assert_eq!(fed(PrimitiveType::LineStrip, 0), Vec::<u32>::new());
    assert_eq!(fed(PrimitiveType::LineStrip, 1), vec![0]);
    assert_eq!(fed(PrimitiveType::LineStrip, 2), vec![0, 1]);
    assert_eq!(fed(PrimitiveType::LineStrip, 4), vec![0, 1, 1, 2, 2, 3]);
}

#[test]
fn fan_emits_rim_rim_root() {
    assert_eq!(fed(PrimitiveType::TriFan, 2), vec![0, 1]);
    assert_eq!(fed(PrimitiveType::TriFan, 3), vec![1, 2, 0]);
    assert_eq!(fed(PrimitiveType::TriFan, 5), vec![1, 2, 0, 2, 3, 0, 3, 4, 0]);
}

#[test]
fn strip_turns_every_second_triangle() {
    assert_eq!(fed(PrimitiveType::TriStrip, 3), vec![0, 1, 2]);
    assert_eq!(fed(PrimitiveType::TriStrip, 4), vec![0, 1, 2, 1, 3, 2]);
    assert_eq!(
        fed(PrimitiveType::TriStrip, 7),
        vec![0, 1, 2, 1, 3, 2, 2, 3, 4, 3, 5, 4, 4, 5, 6]
    );
}

#[test]
fn expansion_counts() {
    for n in 3..40u32 {
        assert_eq!(fed(PrimitiveType::TriStrip, n).len() as u32, 3 * (n - 2));
        assert_eq!(fed(PrimitiveType::TriFan, n).len() as u32, 3 * (n - 2));
    }
    for n in 2..40u32 {
        assert_eq!(fed(PrimitiveType::LineStrip, n).len() as u32, 2 * (n - 1));
    }
}

#[test]
fn primitive_type_of_a_number() {
    assert_eq!(PrimitiveType::from(0), PrimitiveType::PointList);
    assert_eq!(PrimitiveType::from(1), PrimitiveType::PointList);
    assert_eq!(PrimitiveType::from(2), PrimitiveType::LineList);
    assert_eq!(PrimitiveType::from(3), PrimitiveType::LineStrip);
    assert_eq!(PrimitiveType::from(4), PrimitiveType::TriList);
    assert_eq!(PrimitiveType::from(5), PrimitiveType::TriStrip);
    assert_eq!(PrimitiveType::from(6), PrimitiveType::TriFan);
    assert_eq!(PrimitiveType::from(7), PrimitiveType::PointList);
    assert_eq!(PrimitiveType::from(-1), PrimitiveType::PointList);
}

#[test]
fn shape_of_a_primitive_type() {
    assert_eq!(PrimitiveShape::from(PrimitiveType::PointList), PrimitiveShape::Point);
    assert_eq!(PrimitiveShape::from(PrimitiveType::LineList), PrimitiveShape::Line);
    assert_eq!(PrimitiveShape::from(PrimitiveType::LineStrip), PrimitiveShape::Line);
    assert_eq!(PrimitiveShape::from(PrimitiveType::TriList), PrimitiveShape::Triangle);
    assert_eq!(PrimitiveShape::from(PrimitiveType::TriStrip), PrimitiveShape::Triangle);
    assert_eq!(PrimitiveShape::from(PrimitiveType::TriFan), PrimitiveShape::Triangle);
    assert_eq!(PrimitiveShape::Point.gl_enum(), 0);
    assert_eq!(PrimitiveShape::Line.gl_enum(), 1);
    assert_eq!(PrimitiveShape::Triangle.gl_enum(), 4);
}

#[test]
fn push_vertex_carries_the_atlas_rectangle() {
    let mut b = PrimitiveBuilder::new(rect(), PrimitiveType::PointList);
    b.push_vertex([1, 2, 3], [4, 5], [6, 7, 8, 9], [10, 11, 12]);
    let got = b.get_vertices()[0];
    assert_eq!(got.pos, [1, 2, 3]);
    assert_eq!(got.tex_coord, [4, 5]);
    assert_eq!(got.blend, [6, 7, 8, 9]);
    assert_eq!(got.normal, [10, 11, 12]);
    assert_eq!(got.atlas_xywh, [10, 20, 30, 40]);
    assert_eq!(b.get_atlas_id(), 2);
    assert_eq!(b.get_shape(), PrimitiveShape::Point);
    assert_eq!(b.get_type(), PrimitiveType::PointList);
    assert_eq!(b.get_atlas_ref().w, 30);
    let copy = b.clone();
    assert_eq!(copy.get_vertices().len(), 1);
    assert_eq!(copy.get_vertices()[0].blend, [6, 7, 8, 9]);
}

fn shape(outline: bool, points: u32) -> Vec<u32> {
    let mut s = ShapeBuilder::new(outline, rect(), 77);
    for i in 0..points {
        s.push_point(i, 100 + i, [1, 2, 3, 4]);
    }
    let built = s.build();
    assert_eq!(built.get_type(), if outline { PrimitiveType::LineStrip } else { PrimitiveType::TriFan });
    for v in built.get_vertices() {
        assert_eq!(v.pos[1], 100 + v.pos[0]);
        assert_eq!(v.pos[2], 77);
        assert_eq!(v.tex_coord, [0, 0]);
        assert_eq!(v.normal, [0, 0, 0]);
        assert_eq!(v.atlas_xywh, [10, 20, 30, 40]);
    }
    built.get_vertices().iter().map(|v| v.pos[0]).collect()
}

#[test]
fn outlines_of_three_points_or_more_are_closed() {
    assert_eq!(shape(true, 2), vec![0, 1]);
    assert_eq!(shape(true, 3), vec![0, 1, 1, 2, 2, 0]);
    assert_eq!(shape(true, 4), vec![0, 1, 1, 2, 2, 3, 3, 0]);
}

#[test]
fn filled_shapes_are_fans() {
    assert_eq!(shape(false, 4), vec![1, 2, 0, 2, 3, 0]);
    assert_eq!(shape(false, 3), vec![1, 2, 0]);
}

#[test]
fn vertex_buffer_takes_whole_primitives_only() {
    let mut buf = VertexBuffer::new();
    let mut lines = PrimitiveBuilder::new(rect(), PrimitiveType::LineList);
    for i in 0..5 {
        lines.push_vertex_raw(v(i));
    }
    let mut tris = PrimitiveBuilder::new(rect(), PrimitiveType::TriList);
    for i in 0..8 {
        tris.push_vertex_raw(v(10 + i));
    }
    let mut points = PrimitiveBuilder::new(rect(), PrimitiveType::PointList);
    for i in 0..3 {
        points.push_vertex_raw(v(20 + i));
    }
    buf.extend(&lines);
    buf.extend(&tris);
    buf.extend(&points);
    buf.extend(&lines);
    let xs = |vs: &Vec<Vertex>| vs.iter().map(|v| v.pos[0]).collect::<Vec<_>>();
    assert_eq!(xs(buf.get_lines()), vec![0, 1, 2, 3, 0, 1, 2, 3]);
    assert_eq!(xs(buf.get_tris()), vec![10, 11, 12, 13, 14, 15]);
    assert_eq!(xs(buf.get_points()), vec![20, 21, 22]);
}

#[test]
fn swap_colour_compares_numbers() {
    let red = [1.0f32.to_bits(), 0.0f32.to_bits(), 0.0f32.to_bits(), 1.0f32.to_bits()];
    let red_negative_zero = [1.0f32.to_bits(), (-0.0f32).to_bits(), 0.0f32.to_bits(), 1.0f32.to_bits()];
    let blue = [0.0f32.to_bits(), 0.0f32.to_bits(), 1.0f32.to_bits(), 0.5f32.to_bits()];
    let nan = [f32::NAN.to_bits(), 0, 0, 0];
    let with = |blend: [u32; 4]| Vertex { blend, ..v(0) };
    let mut buf = VertexBuffer::from_parts(
        vec![with(red), with(blue)],
        vec![with(red_negative_zero), with(nan)],
        vec![with(blue), with(red)],
    );
    buf.swap_colour(red, blue);
    assert_eq!(buf.get_points()[0].blend, blue);
    assert_eq!(buf.get_points()[1].blend, blue);
    assert_eq!(buf.get_lines()[0].blend, blue);
    assert_eq!(buf.get_lines()[1].blend, nan);
    assert_eq!(buf.get_tris()[0].blend, blue);
    assert_eq!(buf.get_tris()[1].blend, blue);
    buf.swap_colour(nan, red);
    assert_eq!(buf.get_lines()[1].blend, nan);
}
