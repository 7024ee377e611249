use gm8emulator::render::primitive::{PrimitiveBuilder, ShapeBuilder, VertexBuffer};
use gm8emulator::render::renderer::registry::{
    atlas_sizes, AtlasObjects, GlFailure, GlStage, RenderError, SurfaceObjects,
};
use gm8emulator::render::renderer::{
    supports_gl_version, swap_interval, usable_texture_size, Framebuffer, RendererImpl,
};
use gm8emulator::render::state::{split_colour, join_colour};
use gm8emulator::render::types::{
    AtlasRect, AtlasRef, BlendType, PrimitiveShape, PrimitiveType, RendererOptions, Vertex,
};
use rect_packer::DensePacker;

fn f(x: f32) -> u32 {
    x.to_bits()
}

fn blend(rgb: i32, alpha: f64) -> [u32; 4] {
    let c = split_colour(rgb);
    [
        f(f32::from(c[0]) / 255.0),
        f(f32::from(c[1]) / 255.0),
        f(f32::from(c[2]) / 255.0),
        f(alpha.max(0.0).min(1.0) as f32),
    ]
}

fn fresh() -> RendererImpl {
    RendererImpl::new(&RendererOptions::default(), Framebuffer { texture: 1, zbuf: 2, fbo: 3 })
}

fn white() -> AtlasRect {
    AtlasRect { atlas_id: 0, x: 5, y: 6, w: 1, h: 1, origin_x: 0, origin_y: 0 }
}

fn with_atlases() -> RendererImpl {
    let mut r = fresh();
    let packers = vec![DensePacker::new(64, 32), DensePacker::new(16, 16)];
    let sprites = vec![
        white(),
        AtlasRect { atlas_id: 1, x: 0, y: 0, w: 8, h: 8, origin_x: f(0.5), origin_y: f(0.25) },
    ];
    let made = Ok(AtlasObjects { textures: vec![11, 12], fbos: vec![21, 22] });
    assert_eq!(r.push_atlases(packers, sprites, Some(AtlasRef(0)), made), Ok(()));
    r
}

fn rectangle(r: &RendererImpl, x1: f64, y1: f64, x2: f64, y2: f64, colour: i32, alpha: f64) -> PrimitiveBuilder {
    let x2 = if x2 == x2.floor() { x2 + 0.01 } else { x2 };
    let y2 = if y2 == y2.floor() { y2 + 0.01 } else { y2 };
    let mut shape = ShapeBuilder::new(false, r.get_rect(AtlasRef(0)).unwrap(), r.get_depth());
    shape.push_point(f(x1 as f32), f(y1 as f32), blend(colour, alpha));
    shape.push_point(f(x2 as f32), f(y1 as f32), blend(colour, alpha));
    shape.push_point(f(x2 as f32), f(y2 as f32), blend(colour, alpha));
    shape.push_point(f(x1 as f32), f(y2 as f32), blend(colour, alpha));
    shape.build()
}

#[test]
fn gl_version_and_swap_interval() {
    assert!(supports_gl_version(3, 3));
    assert!(supports_gl_version(3, 4));
    assert!(supports_gl_version(4, 0));
    assert!(!supports_gl_version(3, 2));
    assert!(!supports_gl_version(2, 9));
    assert_eq!(swap_interval(true), 1);
    assert_eq!(swap_interval(false), 0);
    assert_eq!(usable_texture_size(16384, true), 8192);
    assert_eq!(usable_texture_size(16384, false), 16384);
    assert_eq!(usable_texture_size(8192, true), 8192);
    assert_eq!(usable_texture_size(32768, true), 32768);
    assert_eq!(usable_texture_size(-1, false), 0);
    assert_eq!(usable_texture_size(0, true), 0);
}

#[test]
fn default_options() {
    let o = RendererOptions::default();
    assert_eq!(o.size, (8, 8));
    assert!(o.vsync);
    assert!(!o.interpolate_pixels);
    assert!(!o.normalize_normals);
    assert!(!o.zbuf_24);
}

#[test]
fn a_fresh_renderer_has_the_documented_state() {
    let r = fresh();
    assert!(r.get_alpha_blending());
    assert_eq!(r.get_blend_mode(), (BlendType::SrcAlpha, BlendType::InvSrcAlpha));
    assert!(!r.get_pixel_interpolation());
    assert!(!r.get_texture_repeat());
    assert!(r.get_gouraud());
    assert!(!r.get_lighting_enabled());
    assert!(!r.get_3d());
    assert!(!r.get_perspective());
    assert!(!r.get_depth_test());
    assert!(!r.get_write_depth());
    assert!(!r.get_culling());
    assert_eq!(r.get_depth(), 0);
    assert_eq!(r.get_circle_precision(), 24);
    assert_eq!(r.get_fog().is_none(), true);
    assert_eq!(r.get_ambient_colour(), 0);
    assert!(!r.get_zbuf_trashed());
    assert_eq!(r.main_framebuffer(), Framebuffer { texture: 1, zbuf: 2, fbo: 3 });
    assert_eq!(r.stored_framebuffer(), Framebuffer { texture: 1, zbuf: 2, fbo: 3 });
    let one = f(1.0);
    assert_eq!(
        r.get_model_matrix(),
        [one, 0, 0, 0, 0, one, 0, 0, 0, 0, one, 0, 0, 0, 0, one]
    );
    let options = RendererOptions { interpolate_pixels: true, ..RendererOptions::default() };
    let r = RendererImpl::new(&options, Framebuffer { texture: 1, zbuf: 2, fbo: 3 });
    assert!(r.get_pixel_interpolation());
    assert!(r.queued_state().interpolate_pixels);
}

#[test]
fn two_rectangles_of_one_state_are_one_draw_call_of_twelve_vertices() {
    let mut r = with_atlases();
    r.set_alpha_blending(true);
    r.set_blend_mode(BlendType::SrcAlpha, BlendType::InvSrcAlpha);
    let a = rectangle(&r, 0.0, 0.0, 10.0, 10.0, 0x0000ff, 1.0);
    let b = rectangle(&r, 20.0, 0.0, 30.0, 10.0, 0x0000ff, 1.0);
    let mut calls = 0;
    let setup = r.push_primitive(&a);
    calls += usize::from(setup.flush.is_some())
        + usize::from(setup.update.map_or(false, |u| u.flush.is_some()));
    let setup = r.push_primitive(&b);
    assert!(setup.update.is_none());
    calls += usize::from(setup.flush.is_some());
    assert_eq!(calls, 0);
    let call = r.flush_queue().unwrap();
    assert_eq!(call.vertices.len(), 12);
    assert_eq!(call.shape, PrimitiveShape::Triangle);
    assert_eq!(call.atlas_id, 0);
    assert!(!call.interpolate);
    assert_eq!(call.vertices[0].blend, [f(1.0), f(0.0), f(0.0), f(1.0)]);
    assert_eq!(call.vertices[0].pos, [f(10.01), f(0.0), 0]);
    assert_eq!(call.vertices[2].pos, [f(0.0), f(0.0), 0]);
    assert_eq!(call.vertices[11].pos, [f(20.0), f(0.0), 0]);
    assert_eq!(call.vertices[3].atlas_xywh, [5, 6, 1, 1]);
    assert!(r.flush_queue().is_none());
}

#[test]
fn a_change_of_state_between_draws_is_one_more_draw_call() {
    let mut r = with_atlases();
    let a = rectangle(&r, 0.0, 0.0, 1.0, 1.0, 0xffffff, 1.0);
    let first = r.push_primitive(&a);
    assert!(first.update.is_none());
    assert!(first.flush.is_none());
    r.set_pixel_interpolation(true);
    let second = r.push_primitive(&a);
    let update = second.update.unwrap();
    let flushed = update.flush.unwrap();
    assert_eq!(flushed.vertices.len(), 6);
    assert!(!flushed.interpolate);
    assert!(second.flush.is_none());
    assert!(!update.change.viewproj_stale);
    assert_eq!(update.change.alpha_blending, None);
    let third = r.push_primitive(&a);
    assert!(third.update.is_none());
    assert!(third.flush.is_none());
    let last = r.flush_queue().unwrap();
    assert_eq!(last.vertices.len(), 12);
    assert!(last.interpolate);
}

#[test]
fn setting_the_same_state_again_is_no_draw_call() {
    let mut r = with_atlases();
    let a = rectangle(&r, 0.0, 0.0, 1.0, 1.0, 0xffffff, 1.0);
    r.push_primitive(&a);
    r.set_alpha_blending(true);
    r.set_culling(false);
    let setup = r.push_primitive(&a);
    assert!(setup.update.is_none());
    assert!(setup.flush.is_none());
    assert_eq!(r.flush_queue().unwrap().vertices.len(), 12);
}

#[test]
fn a_state_that_holds_a_nan_always_differs() {
    let mut r = with_atlases();
    let mut m = r.get_model_matrix();
    m[3] = f(f32::NAN);
    r.set_model_matrix(m);
    assert!(r.update_render_state().is_some());
    assert!(r.update_render_state().is_none());
    r.set_culling(false);
    assert!(r.update_render_state().is_some());
}

#[test]
fn a_change_of_atlas_or_shape_flushes() {
    let mut r = with_atlases();
    let a = rectangle(&r, 0.0, 0.0, 1.0, 1.0, 0xffffff, 1.0);
    r.push_primitive(&a);
    let setup = r.draw_point(f(1.0), f(2.0), blend(0xff0000, 0.5));
    assert_eq!(setup.flush.unwrap().vertices.len(), 6);
    let mut sprite = PrimitiveBuilder::new(r.get_rect(AtlasRef(1)).unwrap(), PrimitiveType::PointList);
    sprite.push_vertex([0, 0, 0], [0, 0], [0, 0, 0, 0], [0, 0, 0]);
    let setup = r.push_primitive(&sprite);
    let points = setup.flush.unwrap();
    assert_eq!(points.shape, PrimitiveShape::Point);
    assert_eq!(points.atlas_id, 0);
    assert_eq!(points.vertices.len(), 1);
    assert_eq!(points.vertices[0].pos, [f(1.0), f(2.0), 0]);
    assert_eq!(points.vertices[0].blend, [f(0.0), f(0.0), f(1.0), f(0.5)]);
    let last = r.flush_queue().unwrap();
    assert_eq!(last.atlas_id, 1);
    assert_eq!(last.vertices[0].atlas_xywh, [0, 0, 8, 8]);
}

#[test]
fn state_changes_name_the_switches_that_change() {
    let mut r = fresh();
    r.set_alpha_blending(false);
    r.set_blend_mode(BlendType::One, BlendType::Zero);
    r.set_3d(true);
    r.set_culling(true);
    r.set_write_depth(true);
    let one = f(1.0);
    r.set_viewproj_matrix([one; 16], [0; 16]);
    let update = r.update_render_state().unwrap();
    assert!(update.flush.is_none());
    assert!(update.change.viewproj_stale);
    assert_eq!(update.change.alpha_blending, Some(false));
    assert_eq!(update.change.blend_mode, Some((BlendType::One, BlendType::Zero)));
    assert_eq!(update.change.depth_test, Some(true));
    assert_eq!(update.change.culling, Some(true));
    assert_eq!(update.change.write_depth, Some(true));
    r.store_viewproj([7; 16]);
    assert_eq!(r.queued_state().viewproj_matrix, [7; 16]);
    assert_eq!(r.queued_state().view_matrix, [one; 16]);
    assert_eq!(r.get_view_matrix(), [one; 16]);
    assert_eq!(r.get_proj_matrix(), [0; 16]);
    assert!(r.update_render_state().is_none());
    r.set_view_matrix([0; 16]);
    let update = r.update_render_state().unwrap();
    assert!(update.change.viewproj_stale);
    assert_eq!(update.change.culling, None);
}

#[test]
fn blend_factors_have_their_gl_numbers() {
    let all = [
        (BlendType::Zero, 0),
        (BlendType::One, 1),
        (BlendType::SrcColour, 0x0300),
        (BlendType::InvSrcColour, 0x0301),
        (BlendType::SrcAlpha, 0x0302),
        (BlendType::InvSrcAlpha, 0x0303),
        (BlendType::DestAlpha, 0x0304),
        (BlendType::InvDestAlpha, 0x0305),
        (BlendType::DestColour, 0x0306),
        (BlendType::InvDestColour, 0x0307),
        (BlendType::SrcAlphaSaturate, 0x0308),
    ];
    for (bt, code) in all {
        assert_eq!(bt.gl_enum(), code);
        assert_eq!(BlendType::from_gl_enum(code), Some(bt));
    }
    assert_eq!(BlendType::from_gl_enum(2), None);
    assert_eq!(BlendType::from_gl_enum(0x0309), None);
}

#[test]
fn colours_split_into_channels() {
    assert_eq!(split_colour(0x0000ff), [255, 0, 0, 255]);
    assert_eq!(split_colour(0x123456), [0x56, 0x34, 0x12, 255]);
    assert_eq!(split_colour(-1), [255, 255, 255, 255]);
    assert_eq!(split_colour(0x7f00_0001), [1, 0, 0, 255]);
    assert_eq!(split_colour(i32::MIN), [0, 0, 0, 255]);
    assert_eq!(join_colour(&[0x56, 0x34, 0x12, 9]), 0x123456);
    assert_eq!(join_colour(&split_colour(-2)), 0xfffffe);
}

#[test]
fn atlas_sizes_are_those_of_the_packers() {
    let packers = vec![DensePacker::new(64, 32), DensePacker::new(-5, 7), DensePacker::new(1, 2)];
    assert_eq!(atlas_sizes(&packers), vec![(64, 32), (0, 7), (1, 2)]);
    assert_eq!(atlas_sizes(&Vec::new()), Vec::<(i32, i32)>::new());
}

#[test]
fn push_atlases_registers_stock_sprites() {
    let mut r = with_atlases();
    assert_eq!(r.get_rect(AtlasRef(0)), Some(white()));
    assert_eq!(r.white_pixel(), white());
    assert!(r.has_atlases());
    assert_eq!((r.atlas_count(), r.sprite_count()), (2, 2));
    assert_eq!(r.get_rect(AtlasRef(1)).unwrap().atlas_id, 1);
    assert_eq!(r.get_rect(AtlasRef(2)).is_none(), true);
    assert_eq!(r.get_rect(AtlasRef(-1)).is_none(), true);
    assert_eq!(r.texture_of(0), Some(11));
    assert_eq!(r.texture_of(1), Some(12));
    assert_eq!(r.texture_of(2), None);
    assert_eq!(r.get_texture_rects().len(), 0);
    assert_eq!(r.dump_dynamic_textures().len(), 0);
    r.reset_primitive_2d(PrimitiveType::LineList, None);
    assert_eq!(r.get_primitive_2d().get_atlas_ref().x, 5);
    r.reset_primitive_2d(PrimitiveType::LineList, Some(AtlasRef(1)));
    assert_eq!(r.get_primitive_2d().get_atlas_ref().w, 8);
    r.reset_primitive_3d(PrimitiveType::TriList, Some(AtlasRef(9)));
    assert_eq!(r.get_primitive_3d().get_atlas_ref().x, 5);
    assert_eq!(r.get_primitive_3d().get_type(), PrimitiveType::TriList);
}

#[test]
fn push_atlases_reports_errors() {
    let mut r = fresh();
    assert_eq!(
        r.push_atlases(vec![DensePacker::new(1, 1)], vec![white()], None, Ok(AtlasObjects { textures: vec![1], fbos: vec![2] })),
        Err(RenderError::WhitePixel)
    );
    let failure = GlFailure { stage: GlStage::UploadTextures, code: 1285 };
    assert_eq!(
        r.push_atlases(vec![DensePacker::new(1, 1)], vec![white()], Some(AtlasRef(0)), Err(failure)),
        Err(RenderError::Gl(failure))
    );
    assert_eq!(r.texture_of(0), None);
    assert!(r.get_rect(AtlasRef(0)).is_none());
}

#[test]
fn error_messages() {
    let text = |stage: GlStage, code: u32| RenderError::Gl(GlFailure { stage, code }).message();
    assert_eq!(RenderError::WhitePixel.message(), "Couldn't pack white_pixel");
    assert_eq!(text(GlStage::AllocTexture, 1285), "Failed to allocate texture on GPU! (OpenGL code 1285)");
    assert_eq!(text(GlStage::UploadTexture, 0), "Failed to upload texture to GPU! (OpenGL code 0)");
    assert_eq!(text(GlStage::UploadTextures, 7), "Failed to upload textures to GPU! (OpenGL code 7)");
    assert_eq!(text(GlStage::GenFramebuffer, 10), "Failed to generate framebuffer! (OpenGL code 10)");
    assert_eq!(text(GlStage::GenFramebuffers, 99), "Failed to generate framebuffers! (OpenGL code 99)");
    assert_eq!(text(GlStage::GenDepthBuffer, 100), "Failed to generate depth buffer! (OpenGL code 100)");
    assert_eq!(text(GlStage::DuplicateTexture, 1281), "Failed to duplicate texture! (OpenGL code 1281)");
    assert_eq!(
        text(GlStage::Init, u32::MAX),
        "Failed to fully initialize OpenGL! (OpenGL code 4294967295)"
    );
}

#[test]
fn surfaces_take_the_lowest_free_atlas_slot() {
    let mut r = with_atlases();
    let objects = |n: u32, zbuf: bool| {
        Ok(SurfaceObjects { texture: 100 + n, fbo: 200 + n, zbuf: if zbuf { Some(300 + n) } else { None } })
    };
    let a = r.create_surface(64, 64, objects(0, false)).unwrap();
    let b = r.create_surface(8, 4, objects(1, false)).unwrap();
    let c = r.create_surface(2, 3, objects(2, true)).unwrap();
    let d = r.create_surface(5, 5, objects(3, false)).unwrap();
    assert_eq!((a, b, c, d), (AtlasRef(2), AtlasRef(3), AtlasRef(4), AtlasRef(5)));
    assert_eq!(r.get_rect(a).unwrap().atlas_id, 2);
    assert_eq!(r.get_rect(c).unwrap().atlas_id, 4);
    assert_eq!((r.get_rect(a).unwrap().w, r.get_rect(a).unwrap().h), (64, 64));
    assert_eq!(r.texture_of(4), Some(102));
    assert_eq!(r.get_texture_id(a), 2);
    assert_eq!(r.get_texture_from_id(2), Some(a));
    let removal = r.delete_sprite(c);
    assert!(removal.flush.is_none());
    assert_eq!((removal.texture, removal.zbuf, removal.fbo), (Some(102), Some(302), Some(202)));
    assert!(r.get_rect(c).is_none());
    assert_eq!(r.texture_of(4), None);
    let again = r.delete_sprite(c);
    assert_eq!((again.texture, again.zbuf, again.fbo), (None, None, None));
    let e = r.create_surface(1, 1, objects(4, false)).unwrap();
    assert_eq!(e, AtlasRef(6));
    assert_eq!(r.get_rect(e).unwrap().atlas_id, 4);
    assert_eq!(r.texture_of(4), Some(104));
    assert_eq!(r.dump_dynamic_textures(), vec![Some((104, None)), Some((103, None))]);
    assert_eq!(r.get_texture_rects().len(), 5);
    assert!(r.get_texture_rects()[2].is_none());
    let kept = r.delete_sprite(a);
    assert_eq!((kept.texture, kept.zbuf, kept.fbo), (None, None, None));
    assert!(r.get_rect(a).is_none());
    assert_eq!(r.texture_of(2), Some(100));
}

#[test]
fn stock_sprites_keep_their_textures_when_deleted() {
    let mut r = with_atlases();
    let a = rectangle(&r, 0.0, 0.0, 1.0, 1.0, 0, 1.0);
    r.push_primitive(&a);
    let removal = r.delete_sprite(AtlasRef(1));
    assert_eq!(removal.flush.unwrap().vertices.len(), 6);
    assert_eq!((removal.texture, removal.zbuf, removal.fbo), (None, None, None));
    assert!(r.get_rect(AtlasRef(1)).is_none());
    assert_eq!(r.texture_of(1), Some(12));
}

#[test]
fn a_failed_surface_is_an_error_and_no_sprite() {
    let mut r = with_atlases();
    let failure = GlFailure { stage: GlStage::GenDepthBuffer, code: 1285 };
    assert_eq!(r.create_surface(4, 4, Err(failure)), Err(RenderError::Gl(failure)));
    assert!(r.get_rect(AtlasRef(2)).is_none());
    let ok = r.create_surface(4, 4, Ok(SurfaceObjects { texture: 5, fbo: 6, zbuf: None })).unwrap();
    assert_eq!(ok, AtlasRef(2));
    assert_eq!(r.get_rect(ok).unwrap().atlas_id, 2);
    assert_eq!(r.dump_dynamic_textures(), vec![]);
}

#[test]
fn uploaded_and_duplicated_sprites_keep_their_origin() {
    let mut r = with_atlases();
    let made = |n: u32| Ok(SurfaceObjects { texture: n, fbo: n + 1, zbuf: None });
    let a = r.upload_sprite(32, 16, f(0.5), f(0.25), made(50)).unwrap();
    let rect = r.get_rect(a).unwrap();
    assert_eq!((rect.x, rect.y, rect.w, rect.h), (0, 0, 32, 16));
    assert_eq!((rect.origin_x, rect.origin_y), (f(0.5), f(0.25)));
    let b = r.duplicate_sprite(a, made(60)).unwrap();
    assert_ne!(a, b);
    let copy = r.get_rect(b).unwrap();
    assert_eq!((copy.w, copy.h, copy.origin_x, copy.origin_y), (32, 16, f(0.5), f(0.25)));
    assert_ne!(copy.atlas_id, rect.atlas_id);
    assert_eq!(r.duplicate_sprite(AtlasRef(77), made(70)), Ok(AtlasRef(-1)));
    assert_eq!(r.get_texture_rects().len(), 2);
}

#[test]
fn dynamic_textures_are_dumped_and_exchanged() {
    let mut r = with_atlases();
    for n in 0..4u32 {
        r.create_surface(4, 4, Ok(SurfaceObjects { texture: 100 + n, fbo: 200 + n, zbuf: if n == 3 { Some(300) } else { None } }))
            .unwrap();
    }
    r.delete_sprite(AtlasRef(4));
    assert_eq!(r.dump_dynamic_textures(), vec![None, Some((103, Some(300)))]);
    let objects = r.dynamic_objects();
    assert_eq!(objects.textures, vec![103]);
    assert_eq!(objects.fbos, vec![203]);
    assert_eq!(objects.zbufs, vec![300]);
    r.upload_dynamic_textures(&vec![
        Some(SurfaceObjects { texture: 7, fbo: 8, zbuf: Some(9) }),
        None,
        Some(SurfaceObjects { texture: 10, fbo: 11, zbuf: None }),
    ]);
    assert_eq!(r.dump_dynamic_textures(), vec![Some((7, Some(9))), None, Some((10, None))]);
    assert_eq!(r.texture_of(0), Some(11));
    assert_eq!(r.texture_of(2), Some(100));
    assert_eq!(r.texture_of(4), Some(7));
    assert_eq!(r.texture_of(6), Some(10));
    assert_eq!(r.texture_of(7), None);
}

#[test]
fn texture_rects_behind_the_stock_ones_are_exchanged() {
    let mut r = with_atlases();
    r.create_surface(4, 4, Ok(SurfaceObjects { texture: 1, fbo: 2, zbuf: None })).unwrap();
    let rect = AtlasRect { atlas_id: 9, x: 1, y: 2, w: 3, h: 4, origin_x: 0, origin_y: 0 };
    r.set_texture_rects(&vec![None, Some(rect)]);
    assert_eq!(r.get_texture_rects(), vec![None, Some(rect)]);
    assert_eq!(r.get_rect(AtlasRef(0)), Some(white()));
    assert_eq!(r.get_rect(AtlasRef(2)), None);
    assert_eq!(r.get_rect(AtlasRef(3)), Some(rect));
}

#[test]
fn primitives_2d_and_3d_are_queued_and_kept() {
    let mut r = with_atlases();
    r.reset_primitive_2d(PrimitiveType::LineStrip, None);
    r.vertex_2d(f(1.0), f(2.0), f(0.5), f(0.75), blend(0xffffff, 2.0));
    r.vertex_2d(f(3.0), f(4.0), 0, 0, blend(0xffffff, -1.0));
    r.vertex_2d(f(5.0), f(6.0), 0, 0, blend(0, 1.0));
    let setup = r.draw_primitive_2d();
    assert!(setup.flush.is_none());
    assert_eq!(r.get_primitive_2d().get_vertices().len(), 4);
    r.draw_primitive_2d();
    let call = r.flush_queue().unwrap();
    assert_eq!(call.shape, PrimitiveShape::Line);
    assert_eq!(call.vertices.len(), 8);
    assert_eq!(call.vertices[0].tex_coord, [f(0.5), f(0.75)]);
    assert_eq!(call.vertices[0].blend[3], f(1.0));
    assert_eq!(call.vertices[1].blend[3], f(0.0));

    r.reset_primitive_3d(PrimitiveType::TriList, Some(AtlasRef(1)));
    for i in 0..4u32 {
        r.vertex_3d([i, i, i], [1, 2, 3], 0, 0, [0, 0, 0, 0]);
    }
    let mut buf = VertexBuffer::new();
    r.extend_buffers(&mut buf);
    assert_eq!(buf.get_tris().len(), 3);
    assert_eq!(buf.get_tris()[2].normal, [1, 2, 3]);
    r.draw_primitive_3d();
    let call = r.flush_queue().unwrap();
    assert_eq!((call.atlas_id, call.vertices.len()), (1, 4));

    let mut saved = r.get_primitive_3d();
    saved.push_vertex_raw(Vertex { pos: [9, 9, 9], tex_coord: [0, 0], blend: [0; 4], atlas_xywh: [0; 4], normal: [0; 3] });
    r.set_primitive_3d(saved);
    assert_eq!(r.get_primitive_3d().get_vertices().len(), 5);
    r.set_primitive_2d(PrimitiveBuilder::from_parts(Vec::new(), PrimitiveType::TriFan, white()));
    assert_eq!(r.get_primitive_2d().get_type(), PrimitiveType::TriFan);
}

#[test]
fn draw_buffers_names_the_lists_that_hold_vertices() {
    let mut r = with_atlases();
    let a = rectangle(&r, 0.0, 0.0, 1.0, 1.0, 0, 1.0);
    r.push_primitive(&a);
    r.set_culling(true);
    let mut buf = VertexBuffer::new();
    buf.extend(&a);
    let draws = r.draw_buffers(Some(AtlasRef(1)), &buf);
    assert_eq!(draws.flush.unwrap().vertices.len(), 6);
    let update = draws.update.unwrap();
    assert!(update.flush.is_none());
    assert_eq!(update.change.culling, Some(true));
    assert_eq!(draws.atlas_id, 1);
    assert!(!draws.points);
    assert!(!draws.lines);
    assert!(draws.tris);
    let draws = r.draw_buffers(None, &VertexBuffer::new());
    assert_eq!(draws.atlas_id, 0);
    assert!(draws.flush.is_none() && draws.update.is_none() && !draws.tris);
}

#[test]
fn sprite_regions() {
    let mut r = with_atlases();
    let s = r.create_surface(64, 64, Ok(SurfaceObjects { texture: 1, fbo: 2, zbuf: None })).unwrap();
    let whole = r.dump_sprite(s).unwrap();
    assert_eq!((whole.fbo, whole.x, whole.y, whole.w, whole.h), (Some(2), 0, 0, 64, 64));
    assert_eq!(whole.byte_len(), Some(16384));
    let part = r.dump_sprite_part(AtlasRef(0), 1, 2, 3, 4).unwrap();
    assert_eq!((part.fbo, part.x, part.y, part.w, part.h), (Some(21), 6, 8, 3, 4));
    assert_eq!(part.byte_len(), Some(48));
    assert!(r.dump_sprite(AtlasRef(50)).is_none());
    assert!(r.dump_sprite_part(AtlasRef(-3), 0, 0, 1, 1).is_none());
    let mut weird = part;
    weird.w = -1;
    assert_eq!(weird.byte_len(), None);
    weird.w = 40000;
    weird.h = 40000;
    assert_eq!(weird.byte_len(), None);
    weird.w = 23170;
    weird.h = 23170;
    assert_eq!(weird.byte_len(), Some(2147395600));
}
