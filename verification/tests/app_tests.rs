use egui_d3d11::app::{ClippedPrimitive, DirectX11App, FrameOutput};
use egui_d3d11::device::{Device, DeviceContext};
use egui_d3d11::mesh::{Mesh, MeshVertex, PixelPos, ScreenSize, FP_ONE};
use egui_d3d11::texture::{ImageRgba, TextureDelta, TexturesDelta};
use egui_d3d11::types::{Rect, Rgba8, TextureId, FORMAT_R32_UINT, TOPOLOGY_TRIANGLELIST};
use egui_d3d11::OverlayError;

fn setup() -> (DirectX11App, Device, DeviceContext) {
    let mut dev = Device::new();
    let mut app = DirectX11App::new();
    assert!(!app.is_ready());
    app.init(&mut dev, vec![1, 2, 3], vec![4, 5, 6]);
    assert!(app.is_ready());
    let ctx = DeviceContext::new();
    (app, dev, ctx)
}

fn screen() -> ScreenSize {
    ScreenSize { width: 800, height: 600 }
}

fn no_deltas() -> TexturesDelta {
    TexturesDelta { set: vec![], free: vec![] }
}

fn atlas_delta(tid: TextureId) -> TexturesDelta {
    TexturesDelta {
        set: vec![(
            tid,
            TextureDelta {
                pos: None,
                image: ImageRgba {
                    width: 2,
                    height: 2,
                    pixels: vec![Rgba8 { r: 255, g: 255, b: 255, a: 128 }; 4],
                },
            },
        )],
        free: vec![],
    }
}

fn triangle(tid: TextureId) -> ClippedPrimitive {
    let v = |x: i64, y: i64| MeshVertex {
        pos: PixelPos { x: x * FP_ONE, y: y * FP_ONE },
        uv_u: 0,
        uv_v: 0,
        color: Rgba8 { r: 10, g: 20, b: 30, a: 255 },
    };
    ClippedPrimitive::Mesh {
        mesh: Mesh {
            vertices: vec![v(0, 0), v(100, 0), v(0, 100)],
            indices: vec![0, 1, 2],
            texture_id: tid,
        },
        clip: Rect { left: 0, top: 0, right: 200, bottom: 200 },
    }
}

#[test]
fn empty_frame_issues_no_draw_but_applies_deltas() {
    let (mut app, mut dev, mut ctx) = setup();
    let tid = TextureId::Managed(0);
    let scissor_before = ctx.state.scissor_rects.clone();
    let draws_before = ctx.draw_count();
    let r = app.present(
        &mut dev,
        &mut ctx,
        screen(),
        FrameOutput { primitives: vec![], textures_delta: atlas_delta(tid) },
    );
    assert!(r.is_ok());
    // no draw call was issued and the context reads exactly as before
    assert_eq!(ctx.draw_count(), draws_before);
    assert!(ctx.render_target.is_none());
    assert_eq!(ctx.state.scissor_rects, scissor_before);
    assert!(ctx.state.blend_state.is_none());
    // but the pending texture delta landed
    assert!(app.texture_view(tid).is_some());
}

#[test]
fn paint_callback_reports_unsupported() {
    let (mut app, mut dev, mut ctx) = setup();
    let draws_before = ctx.draw_count();
    let r = app.present(
        &mut dev,
        &mut ctx,
        screen(),
        FrameOutput {
            primitives: vec![
                triangle(TextureId::Managed(0)),
                ClippedPrimitive::PaintCallback,
            ],
            textures_delta: no_deltas(),
        },
    );
    assert_eq!(r, Err(OverlayError::UnsupportedPrimitive));
    // the frame was reported, not silently drawn; state is back intact
    assert_eq!(ctx.draw_count(), draws_before);
    assert!(ctx.state.blend_state.is_none());
}

#[test]
fn one_mesh_yields_one_ordered_draw() {
    let (mut app, mut dev, mut ctx) = setup();
    let tid = TextureId::Managed(0);
    let r = app.present(
        &mut dev,
        &mut ctx,
        screen(),
        FrameOutput {
            primitives: vec![triangle(tid)],
            textures_delta: atlas_delta(tid),
        },
    );
    assert!(r.is_ok());
    assert_eq!(ctx.draw_count(), 1);
    let rec = ctx.draws[0];
    assert_eq!(rec.index_count, 3);
    assert_eq!(rec.scissor, Some(Rect { left: 0, top: 0, right: 200, bottom: 200 }));
    assert_eq!(rec.texture, app.texture_view(tid));
    assert!(rec.vertex_buffer.is_some());
    assert!(rec.index_buffer.is_some());
    // the draw's buffers hold the serialized mesh
    let bytes = dev.index_buffer_contents(rec.index_buffer.unwrap()).unwrap();
    assert_eq!(
        bytes.as_slice(),
        &[0u8, 0, 0, 0, 1, 0, 0, 0, 2, 0, 0, 0]
    );
    let verts = dev.vertex_buffer_contents(rec.vertex_buffer.unwrap()).unwrap();
    assert_eq!(verts.len(), 3);
    // the first vertex was pixel (0, 0): clip (-1, 1), exactly
    assert_eq!(verts[0].x.num, -verts[0].x.den);
    assert_eq!(verts[0].y.num, verts[0].y.den);
}

#[test]
fn mesh_with_unresolved_texture_is_skipped() {
    let (mut app, mut dev, mut ctx) = setup();
    let known = TextureId::Managed(0);
    let unknown = TextureId::User(7);
    let r = app.present(
        &mut dev,
        &mut ctx,
        screen(),
        FrameOutput {
            primitives: vec![triangle(unknown), triangle(known)],
            textures_delta: atlas_delta(known),
        },
    );
    assert!(r.is_ok());
    // only the resolvable mesh drew; the other was skipped, not fatal
    assert_eq!(ctx.draw_count(), 1);
    assert_eq!(ctx.draws[0].texture, app.texture_view(known));
}

#[test]
fn draw_path_restores_captured_state() {
    let (mut app, mut dev, mut ctx) = setup();
    let tid = TextureId::Managed(0);
    // host state to preserve
    let raster = dev.create_host_object();
    let blend = dev.create_host_object();
    ctx.state.raster_state = Some(raster);
    ctx.state.blend_state = Some(blend);
    ctx.state.blend_mask = 0x1234_5678;
    ctx.state.primitive_topology = 11;
    ctx.state.scissor_rects = vec![Rect { left: 9, top: 9, right: 99, bottom: 99 }];
    let rc_raster = dev.refcount_of(raster);
    let r = app.present(
        &mut dev,
        &mut ctx,
        screen(),
        FrameOutput {
            primitives: vec![triangle(tid)],
            textures_delta: atlas_delta(tid),
        },
    );
    assert!(r.is_ok());
    // every captured category reads as before the frame
    assert_eq!(ctx.state.raster_state, Some(raster));
    assert_eq!(ctx.state.blend_state, Some(blend));
    assert_eq!(ctx.state.blend_mask, 0x1234_5678);
    assert_eq!(ctx.state.primitive_topology, 11);
    assert_eq!(
        ctx.state.scissor_rects,
        vec![Rect { left: 9, top: 9, right: 99, bottom: 99 }]
    );
    // and no reference was leaked on the host's objects
    assert_eq!(dev.refcount_of(raster), rc_raster);
}

#[test]
fn painter_order_is_preserved() {
    let (mut app, mut dev, mut ctx) = setup();
    let a = TextureId::Managed(0);
    let b = TextureId::User(1);
    let mut deltas = atlas_delta(a);
    let mut more = atlas_delta(b);
    deltas.set.append(&mut more.set);
    let r = app.present(
        &mut dev,
        &mut ctx,
        screen(),
        FrameOutput {
            primitives: vec![triangle(a), triangle(b), triangle(a)],
            textures_delta: deltas,
        },
    );
    assert!(r.is_ok());
    assert_eq!(ctx.draw_count(), 3);
    assert_eq!(ctx.draws[0].texture, app.texture_view(a));
    assert_eq!(ctx.draws[1].texture, app.texture_view(b));
    assert_eq!(ctx.draws[2].texture, app.texture_view(a));
}

#[test]
fn repeated_frames_do_not_leak_references() {
    let (mut app, mut dev, mut ctx) = setup();
    let tid = TextureId::Managed(0);
    let raster = dev.create_host_object();
    ctx.state.raster_state = Some(raster);
    let mut first = app.present(
        &mut dev,
        &mut ctx,
        screen(),
        FrameOutput { primitives: vec![triangle(tid)], textures_delta: atlas_delta(tid) },
    );
    assert!(first.is_ok());
    let rc_after_first = dev.refcount_of(raster);
    let view_rc_after_first = dev.refcount_of(app.texture_view(tid).unwrap());
    let mut k: usize = 0;
    while k < 20 {
        first = app.present(
            &mut dev,
            &mut ctx,
            screen(),
            FrameOutput { primitives: vec![triangle(tid)], textures_delta: no_deltas() },
        );
        assert!(first.is_ok());
        k += 1;
    }
    assert_eq!(dev.refcount_of(raster), rc_after_first);
    assert_eq!(
        dev.refcount_of(app.texture_view(tid).unwrap()),
        view_rc_after_first
    );
}

#[test]
fn resize_releases_the_view_before_reallocating() {
    let (mut app, mut dev, _ctx) = setup();
    let old_view = app.render_view_handle().unwrap();
    let gen_before = dev.current_generation();
    assert_eq!(dev.live_backbuffer_views(), 1);
    app.resize_buffers(&mut dev);
    let new_view = app.render_view_handle().unwrap();
    // the old view is gone, a fresh valid one exists against the new buffer
    assert_ne!(old_view, new_view);
    assert_eq!(dev.refcount_of(old_view), 0);
    assert_eq!(dev.refcount_of(new_view), 1);
    assert_eq!(dev.current_generation(), gen_before + 1);
    assert_eq!(dev.live_backbuffer_views(), 1);
}

#[test]
fn size_unchanged_resize_still_swaps_the_view() {
    let (mut app, mut dev, _ctx) = setup();
    let v0 = app.render_view_handle().unwrap();
    app.resize_buffers(&mut dev);
    let v1 = app.render_view_handle().unwrap();
    app.resize_buffers(&mut dev);
    let v2 = app.render_view_handle().unwrap();
    assert_ne!(v0, v1);
    assert_ne!(v1, v2);
    assert_eq!(dev.refcount_of(v1), 0);
    assert_eq!(dev.refcount_of(v2), 1);
}

#[test]
fn drawing_binds_the_overlay_pipeline_during_the_frame() {
    // The draw records carry the scissor and texture that were bound at
    // the instant of the draw; topology and index format are fixed by the
    // renderer's configuration.
    let (mut app, mut dev, mut ctx) = setup();
    let tid = TextureId::Managed(0);
    let r = app.present(
        &mut dev,
        &mut ctx,
        screen(),
        FrameOutput { primitives: vec![triangle(tid)], textures_delta: atlas_delta(tid) },
    );
    assert!(r.is_ok());
    assert_eq!(TOPOLOGY_TRIANGLELIST, 4);
    assert_eq!(FORMAT_R32_UINT, 42);
    // the render target was bound to the overlay's view for the frame
    assert_eq!(ctx.render_target, Some(app.render_view_handle().unwrap()));
}
