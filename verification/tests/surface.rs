use gm8emulator::render::primitive::PrimitiveBuilder;
use gm8emulator::render::renderer::registry::{AtlasObjects, SurfaceObjects};
use gm8emulator::render::renderer::surface::{Placement, SurfaceCopy, Target};
use gm8emulator::render::renderer::{Framebuffer, RendererImpl};
use gm8emulator::render::types::{AtlasRect, AtlasRef, Fog, Light, PrimitiveType, RendererOptions};
use rect_packer::DensePacker;

fn f(x: f32) -> u32 {
    x.to_bits()
}

const MAIN: Framebuffer = Framebuffer { texture: 1, zbuf: 2, fbo: 3 };

fn renderer() -> RendererImpl {
    let mut r = RendererImpl::new(&RendererOptions::default(), MAIN);
    let white = AtlasRect { atlas_id: 0, x: 0, y: 0, w: 1, h: 1, origin_x: 0, origin_y: 0 };
    let made = Ok(AtlasObjects { textures: vec![11], fbos: vec![21] });
    r.push_atlases(vec![DensePacker::new(8, 8)], vec![white], Some(AtlasRef(0)), made).unwrap();
    r
}

fn surface(r: &mut RendererImpl, w: i32, h: i32, fbo: u32) -> AtlasRef {
    r.create_surface(w, h, Ok(SurfaceObjects { texture: fbo + 1000, fbo, zbuf: None })).unwrap()
}

fn queue_one_point(r: &mut RendererImpl) {
    let mut p = PrimitiveBuilder::new(r.get_rect(AtlasRef(0)).unwrap(), PrimitiveType::PointList);
    p.push_vertex([0, 0, 0], [0, 0], [0; 4], [0; 3]);
    r.push_primitive(&p);
}

fn placed(r: &mut RendererImpl, fb: (i32, i32), win: (u32, u32), p: Placement) -> (i32, i32, i32, i32) {
    let shown = r.present(fb.0, fb.1, win.0, win.1, p).unwrap();
    (shown.x0, shown.y0, shown.x1 - shown.x0, shown.y1 - shown.y0)
}

#[test]
fn present_at_a_fixed_scale_is_centred() {
    let mut r = renderer();
    assert_eq!(placed(&mut r, (320, 240), (800, 600), Placement::Fixed { width: 640, height: 480 }), (80, 60, 640, 480));
    assert_eq!(placed(&mut r, (320, 240), (100, 101), Placement::Fixed { width: 320, height: 240 }), (-110, -69, 320, 240));
    assert_eq!(placed(&mut r, (320, 240), (321, 240), Placement::Fixed { width: 320, height: 240 }), (0, 0, 320, 240));
}

#[test]
fn present_with_aspect_kept_fills_one_axis() {
    let mut r = renderer();
    assert_eq!(placed(&mut r, (320, 240), (800, 480), Placement::Aspect), (80, 0, 640, 480));
    assert_eq!(placed(&mut r, (320, 240), (640, 600), Placement::Aspect), (0, 60, 640, 480));
    assert_eq!(placed(&mut r, (320, 240), (640, 480), Placement::Aspect), (0, 0, 640, 480));
    assert_eq!(placed(&mut r, (3, 2), (10, 10), Placement::Aspect), (0, 2, 10, 6));
    assert_eq!(placed(&mut r, (0, 240), (640, 480), Placement::Aspect), (0, 0, 0, 240));
    assert_eq!(
        placed(&mut r, (i32::MAX, 1), (i32::MAX as u32, i32::MAX as u32), Placement::Aspect),
        (0, 1073741823, i32::MAX, 1)
    );
}

#[test]
fn present_full_is_the_whole_window() {
    let mut r = renderer();
    assert_eq!(placed(&mut r, (320, 240), (801, 601), Placement::Full), (0, 0, 801, 601));
}

#[test]
fn present_flushes_and_tells_the_filter() {
    let mut r = renderer();
    queue_one_point(&mut r);
    r.set_pixel_interpolation(true);
    let shown = r.present(8, 8, 16, 16, Placement::Full).unwrap();
    assert_eq!(shown.flush.unwrap().vertices.len(), 1);
    assert!(shown.interpolate);
    assert_eq!(shown.source, MAIN);
    assert!(r.flush_queue().is_none());
}

#[test]
fn present_does_nothing_for_a_window_without_pixels() {
    let mut r = renderer();
    queue_one_point(&mut r);
    assert!(r.present(8, 8, 0, 16, Placement::Full).is_none());
    assert!(r.present(8, 8, 16, 0, Placement::Aspect).is_none());
    assert_eq!(r.flush_queue().unwrap().vertices.len(), 1);
}

#[test]
fn copy_surface_is_clipped_to_both_surfaces() {
    let mut r = renderer();
    let src = surface(&mut r, 100, 50, 31);
    let dest = surface(&mut r, 40, 80, 32);
    let copy = |r: &RendererImpl, dx, dy, sx, sy, w, h| r.copy_surface(dest, dx, dy, src, sx, sy, w, h);
    let full = |src_x, src_y, dest_x, dest_y, width, height| {
        Some(SurfaceCopy { src_fbo: 31, dest_fbo: 32, src_x, src_y, dest_x, dest_y, width, height })
    };
    assert_eq!(copy(&r, 0, 0, 0, 0, 10, 10), full(0, 0, 0, 0, 10, 10));
    assert_eq!(copy(&r, 5, 6, 7, 8, 10, 10), full(7, 8, 5, 6, 10, 10));
    assert_eq!(copy(&r, 0, 0, -3, -4, 10, 10), full(0, 0, 3, 4, 7, 6));
    assert_eq!(copy(&r, -3, -4, 0, 0, 10, 10), full(3, 4, 0, 0, 7, 6));
    assert_eq!(copy(&r, 0, 0, 95, 45, 10, 10), full(95, 45, 0, 0, 5, 5));
    assert_eq!(copy(&r, 35, 75, 0, 0, 10, 10), full(0, 0, 35, 75, 5, 5));
    assert_eq!(copy(&r, 0, 0, 0, 0, 1000, 1000), full(0, 0, 0, 0, 40, 50));
    assert_eq!(copy(&r, 0, 60, 0, 30, 10, 100), full(0, 30, 0, 60, 10, 20));
    assert_eq!(copy(&r, 0, 0, 100, 0, 10, 10), None);
    assert_eq!(copy(&r, 40, 0, 0, 0, 10, 10), None);
    assert_eq!(copy(&r, 0, 0, 0, 0, 0, 10), None);
    assert_eq!(copy(&r, 0, 0, 0, 0, 10, -1), None);
    assert_eq!(copy(&r, i32::MAX, i32::MAX, i32::MIN, i32::MIN, i32::MAX, i32::MAX), None);
    assert_eq!(copy(&r, i32::MIN, 0, i32::MAX, 0, i32::MAX, 1), None);
    assert_eq!(r.copy_surface(dest, 0, 0, AtlasRef(99), 0, 0, 1, 1), None);
    assert_eq!(r.copy_surface(AtlasRef(99), 0, 0, src, 0, 0, 1, 1), None);
    assert_eq!(r.copy_surface(src, 1, 1, src, 0, 0, 5, 5), Some(SurfaceCopy { src_fbo: 31, dest_fbo: 31, src_x: 0, src_y: 0, dest_x: 1, dest_y: 1, width: 5, height: 5 }));
}

#[test]
fn set_view_sets_the_view_port_on_the_main_framebuffer_only() {
    let mut r = renderer();
    queue_one_point(&mut r);
    let v = r.set_view(3, 0, 0, 640, 480);
    assert_eq!(v.flush.unwrap().vertices.len(), 1);
    assert_eq!(v.viewport, Some((0, 0, 640, 480)));
    assert!(!v.perspective);
    assert_eq!(r.set_view(4, 0, 0, 640, 480).viewport, None);
    assert_eq!(r.set_view(3, -1, 0, 640, 480).viewport, None);
    assert_eq!(r.set_view(3, 0, -1, 640, 480).viewport, None);
    assert_eq!(r.set_view(3, 0, 0, -1, 480).viewport, None);
    assert_eq!(r.set_view(3, 0, 0, 640, -1).viewport, None);
    assert_eq!(r.set_view(3, 1, 2, 0, 0).viewport, Some((1, 2, 0, 0)));
    r.set_3d(true);
    assert!(r.set_view(3, 0, 0, 1, 1).perspective);
    r.set_perspective(false);
    assert!(!r.set_view(3, 0, 0, 1, 1).perspective);
    r.set_perspective(true);
    r.set_3d(false);
    r.set_perspective(true);
    assert!(!r.set_view(3, 0, 0, 1, 1).perspective);
}

#[test]
fn targets_are_set_and_reset() {
    let mut r = renderer();
    let s = surface(&mut r, 64, 32, 31);
    queue_one_point(&mut r);
    let switch = r.set_target(s);
    assert_eq!(switch.flush.unwrap().vertices.len(), 1);
    assert_eq!(switch.target, Some(Target { fbo: 31, x: 0, y: 0, w: 64, h: 32, perspective: false }));
    assert_eq!(r.set_target(AtlasRef(0)).target.unwrap().fbo, 21);
    assert!(r.set_target(AtlasRef(9)).target.is_none());
    queue_one_point(&mut r);
    let back = r.reset_target(640, 480);
    assert!(back.flush.is_some());
    assert_eq!(back.viewport, Some((0, 0, 640, 480)));
    assert_eq!(r.reset_target(-1, 480).viewport, None);
}

#[test]
fn resize_stores_or_deletes_the_old_framebuffer() {
    let mut r = renderer();
    queue_one_point(&mut r);
    let second = Framebuffer { texture: 4, zbuf: 5, fbo: 6 };
    let third = Framebuffer { texture: 7, zbuf: 8, fbo: 9 };
    let fourth = Framebuffer { texture: 10, zbuf: 11, fbo: 12 };
    let resize = r.resize_framebuffer(second, 640, 480, 800, 300, false);
    assert_eq!(resize.flush.unwrap().vertices.len(), 1);
    assert_eq!(resize.source, MAIN);
    assert_eq!((resize.copy_width, resize.copy_height), (640, 300));
    assert_eq!(resize.delete, Some(MAIN));
    assert_eq!(r.main_framebuffer(), second);
    assert_eq!(r.stored_framebuffer(), second);
    assert!(r.draw_stored(0, 0, 10, 10).is_none());
    let resize = r.resize_framebuffer(third, 800, 300, 100, 4_000_000_000, true);
    assert_eq!((resize.copy_width, resize.copy_height), (100, 300));
    assert_eq!(resize.delete, None);
    assert_eq!(r.stored_framebuffer(), second);
    let resize = r.resize_framebuffer(fourth, 100, 100, 100, 100, true);
    assert_eq!(resize.delete, Some(second));
    assert_eq!(r.stored_framebuffer(), third);
    assert_eq!(r.main_framebuffer(), fourth);
    assert_eq!(r.set_stored(MAIN), Some(third));
    assert_eq!(r.stored_framebuffer(), MAIN);
}

#[test]
fn draw_stored_blits_the_stored_framebuffer() {
    let mut r = renderer();
    queue_one_point(&mut r);
    assert!(r.draw_stored(0, 0, 10, 10).is_none());
    assert_eq!(r.set_stored(Framebuffer { texture: 4, zbuf: 5, fbo: 6 }), None);
    assert!(r.draw_stored(0, 0, 0, 10).is_none());
    assert!(r.draw_stored(0, 0, 10, 0).is_none());
    let blit = r.draw_stored(-5, 7, 10, 20).unwrap();
    assert_eq!(blit.flush.unwrap().vertices.len(), 1);
    assert_eq!(blit.source.fbo, 6);
    assert_eq!(blit.target, MAIN);
    assert_eq!((blit.x0, blit.y0, blit.x1, blit.y1), (-5, 7, 5, 27));
}

#[test]
fn zbuf_is_trashed_and_restored() {
    let mut r = renderer();
    assert!(r.set_zbuf_trashed(false).is_none());
    queue_one_point(&mut r);
    let switch = r.set_zbuf_trashed(true).unwrap();
    assert!(switch.flush.is_some());
    assert_eq!((switch.fbo, switch.attach), (3, 0));
    assert!(r.get_zbuf_trashed());
    assert!(r.set_zbuf_trashed(true).is_none());
    let switch = r.set_zbuf_trashed(false).unwrap();
    assert_eq!((switch.fbo, switch.attach), (3, 2));
}

#[test]
fn clear_zbuf_only_in_3d() {
    let mut r = renderer();
    queue_one_point(&mut r);
    let clear = r.clear_zbuf();
    assert!(!clear.clear && clear.flush.is_none());
    r.set_3d(true);
    let clear = r.clear_zbuf();
    assert!(clear.clear);
    assert_eq!(clear.flush.unwrap().vertices.len(), 1);
}

#[test]
fn circle_precision_is_a_multiple_of_four_from_4_to_64() {
    let mut r = renderer();
    for (asked, got) in [(24, 24), (3, 4), (-100, 4), (4, 4), (7, 4), (8, 8), (13, 12), (63, 60), (64, 64), (65, 64), (i32::MAX, 64), (i32::MIN, 4)] {
        r.set_circle_precision(asked);
        assert_eq!(r.get_circle_precision(), got);
    }
}

#[test]
fn depth_is_zero_outside_3d_and_clamped_inside() {
    let mut r = renderer();
    r.set_depth(f(50.0));
    assert_eq!(r.get_depth(), 0);
    r.set_3d(true);
    for (asked, got) in [
        (50.0f32, 50.0f32),
        (-0.5, -0.5),
        (16000.0, 16000.0),
        (16000.001, 16000.0),
        (-16000.0, -16000.0),
        (-1e9, -16000.0),
        (f32::INFINITY, 16000.0),
        (f32::NEG_INFINITY, -16000.0),
        (f32::NAN, -16000.0),
    ] {
        r.set_depth(f(asked));
        assert_eq!(r.get_depth(), f(asked.max(-16000.0).min(16000.0)));
        assert_eq!(r.get_depth(), f(got));
    }
    r.set_3d(false);
    assert_eq!(r.get_depth(), f(-16000.0));
    r.set_depth(f(1.0));
    assert_eq!(r.get_depth(), 0);
}

#[test]
fn depth_test_needs_3d() {
    let mut r = renderer();
    r.set_depth_test(true);
    assert!(!r.get_depth_test());
    r.set_3d(true);
    assert!(r.get_depth_test());
    assert!(r.get_perspective());
    r.set_depth_test(false);
    assert!(!r.get_depth_test());
    r.set_depth_test(true);
    assert!(r.get_depth_test());
}

#[test]
fn fog_and_colours_are_read_back() {
    let mut r = renderer();
    r.set_fog(Some(Fog { colour: 0x00ff_8040u32 as i32, begin: f(0.0), end: f(100.0) }));
    let fog = r.get_fog().unwrap();
    assert_eq!((fog.colour, fog.begin, fog.end), (0xff8040, f(0.0), f(100.0)));
    r.set_fog(Some(Fog { colour: -1, begin: f(1.0), end: f(2.0) }));
    assert_eq!(r.get_fog().unwrap().colour, 0xffffff);
    r.set_fog(None);
    assert!(r.get_fog().is_none());
    assert_eq!(r.queued_state().fog_colour, [0, 0, 0, 0]);
    r.update_render_state();
    assert_eq!(r.queued_state().fog_colour, [255, 255, 255, 255]);
    assert_eq!(r.queued_state().fog_end, f(2.0));
    r.set_ambient_colour(0x12345678);
    assert_eq!(r.get_ambient_colour(), 0x345678);
    r.set_gouraud(false);
    r.set_lighting_enabled(true);
    r.set_texture_repeat(true);
    assert!(!r.get_gouraud() && r.get_lighting_enabled() && r.get_texture_repeat());
}

#[test]
fn lights_are_set_one_by_one_and_all_at_once() {
    let mut r = renderer();
    let same = |a: (bool, Light), b: (bool, Light)| match (a, b) {
        ((e1, Light::Directional { direction: d1, colour: c1 }), (e2, Light::Directional { direction: d2, colour: c2 })) => {
            e1 == e2 && d1 == d2 && c1 == c2
        },
        ((e1, Light::Point { position: pos1, range: r1, colour: c1 }), (e2, Light::Point { position: pos2, range: r2, colour: c2 })) => {
            e1 == e2 && pos1 == pos2 && r1 == r2 && c1 == c2
        },
        _ => false,
    };
    let dark = (false, Light::Directional { direction: [0, 0, 0], colour: 0 });
    for l in r.get_lights() {
        assert!(same(l, dark));
    }
    let point = Light::Point { position: [f(1.0), f(2.0), f(3.0)], range: f(50.0), colour: 0x0000ff };
    r.set_light(2, point);
    r.set_light_enabled(2, true);
    r.set_light_enabled(7, true);
    let lights = r.get_lights();
    assert!(same(lights[2], (true, point)));
    assert!(same(lights[7], (true, Light::Directional { direction: [0, 0, 0], colour: 0 })));
    assert!(same(lights[0], dark));
    let sun = Light::Directional { direction: [f(0.0), f(-1.0), f(0.0)], colour: 0x1ffffff };
    r.set_light(2, sun);
    assert!(same(r.get_lights()[2], (true, Light::Directional { direction: [f(0.0), f(-1.0), f(0.0)], colour: 0xffffff })));
    assert_eq!(r.queued_state().lights[2].range, 0);
    r.update_render_state();
    assert_eq!(r.queued_state().lights[2].range, f(50.0));
    assert_eq!(r.queued_state().lights[2].colour, [255, 255, 255, 255]);
    assert!(!r.queued_state().lights[2].is_point);
    let mut all = [dark; 8];
    all[0] = (true, point);
    all[2] = (false, sun);
    r.set_lights(all);
    let lights = r.get_lights();
    assert!(same(lights[0], (true, point)));
    assert!(same(lights[2], (false, Light::Directional { direction: [f(0.0), f(-1.0), f(0.0)], colour: 0xffffff })));
    assert!(same(lights[7], dark));
}

#[test]
fn saved_state_is_restored() {
    let mut r = renderer();
    surface(&mut r, 4, 4, 31);
    r.set_3d(true);
    r.set_depth(f(12.0));
    r.set_alpha_blending(false);
    r.set_fog(Some(Fog { colour: 0x112233, begin: f(1.0), end: f(9.0) }));
    r.set_circle_precision(16);
    r.set_culling(true);
    r.set_ambient_colour(0x445566);
    r.set_light(1, Light::Point { position: [1, 2, 3], range: 4, colour: 5 });
    r.set_light_enabled(1, true);
    r.reset_primitive_2d(PrimitiveType::LineList, None);
    r.vertex_2d(1, 2, 3, 4, [5, 6, 7, 8]);
    r.set_zbuf_trashed(true);
    let state = r.state(true);
    assert!(state.vsync);
    assert_eq!(state.texture_rects.len(), 1);
    assert_eq!(state.circle_precision, 16);
    assert_eq!(state.depth, f(12.0));
    assert_eq!(state.ambient_colour, 0x445566);
    assert_eq!(state.primitive_2d.get_vertices().len(), 1);

    let mut other = renderer();
    queue_one_point(&mut other);
    let switch = other.set_state(&state).unwrap();
    assert_eq!(switch.flush.unwrap().vertices.len(), 1);
    assert_eq!(switch.attach, 0);
    assert!(other.get_3d());
    assert_eq!(other.get_depth(), f(12.0));
    assert!(!other.get_alpha_blending());
    assert_eq!(other.get_fog().unwrap().colour, 0x112233);
    assert_eq!(other.get_circle_precision(), 16);
    assert!(other.get_culling());
    assert!(other.get_depth_test());
    assert!(other.get_perspective());
    assert_eq!(other.get_ambient_colour(), 0x445566);
    assert_eq!(other.get_texture_rects(), state.texture_rects);
    assert_eq!(other.get_primitive_2d().get_vertices()[0].blend, [5, 6, 7, 8]);
    assert_eq!(other.get_primitive_2d().get_type(), PrimitiveType::LineList);
    assert!(other.get_zbuf_trashed());
    match other.get_lights()[1] {
        (true, Light::Point { position, range, colour }) => {
            assert_eq!((position, range, colour), ([1, 2, 3], 4, 5));
        },
        _ => panic!("light 1 is not the point light that was saved"),
    }
    assert!(other.set_state(&state).is_none());
    assert!(!other.state(false).vsync);
}
