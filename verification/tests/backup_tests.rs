use egui_d3d11::backup::{Array, BackupState};
use egui_d3d11::device::{Device, DeviceContext};
use egui_d3d11::types::{BlendFactor, Rect, Viewport};
use egui_d3d11::OverlayError;

fn host_state(dev: &mut Device, ctx: &mut DeviceContext) -> Vec<usize> {
    let mut handles: Vec<usize> = Vec::new();
    let raster = dev.create_host_object();
    let blend = dev.create_host_object();
    let depth = dev.create_host_object();
    let srv = dev.create_host_object();
    let sampler = dev.create_host_object();
    let vs = dev.create_host_object();
    let vs_inst = dev.create_host_object();
    let ps = dev.create_host_object();
    let cb = dev.create_host_object();
    let ib = dev.create_host_object();
    let vb = dev.create_host_object();
    let layout = dev.create_host_object();
    handles.push(raster);
    handles.push(blend);
    handles.push(depth);
    handles.push(srv);
    handles.push(sampler);
    handles.push(vs);
    handles.push(vs_inst);
    handles.push(ps);
    handles.push(cb);
    handles.push(ib);
    handles.push(vb);
    handles.push(layout);

    ctx.state.scissor_rects = vec![
        Rect { left: 1, top: 2, right: 300, bottom: 400 },
        Rect { left: 5, top: 6, right: 70, bottom: 80 },
    ];
    ctx.state.viewports = vec![Viewport {
        top_left_x: 0,
        top_left_y: 0,
        width: 800,
        height: 600,
        min_depth: 0,
        max_depth: 0x3F80_0000,
    }];
    ctx.state.raster_state = Some(raster);
    ctx.state.blend_state = Some(blend);
    ctx.state.blend_factor = BlendFactor { r: 7, g: 8, b: 9, a: 10 };
    ctx.state.blend_mask = 0xdead_beef;
    ctx.state.depth_stencil_state = Some(depth);
    ctx.state.stencil_ref = 42;
    ctx.state.ps_resources[0] = Some(srv);
    ctx.state.ps_resources[5] = Some(srv);
    ctx.state.samplers[1] = Some(sampler);
    ctx.state.vertex_shader = Some(vs);
    ctx.state.vs_instances = vec![vs_inst, vs_inst];
    ctx.state.pixel_shader = Some(ps);
    ctx.state.constant_buffers[2] = Some(cb);
    ctx.state.primitive_topology = 4;
    ctx.state.index_buffer = Some(ib);
    ctx.state.index_buffer_format = 42;
    ctx.state.index_buffer_offset = 16;
    ctx.state.vertex_buffer = Some(vb);
    ctx.state.vertex_buffer_stride = 32;
    ctx.state.vertex_buffer_offset = 0;
    ctx.state.input_layout = Some(layout);
    handles
}

fn states_equal(a: &DeviceContext, b: &DeviceContext) -> bool {
    a.state.scissor_rects == b.state.scissor_rects
        && a.state.viewports == b.state.viewports
        && a.state.raster_state == b.state.raster_state
        && a.state.blend_state == b.state.blend_state
        && a.state.blend_factor == b.state.blend_factor
        && a.state.blend_mask == b.state.blend_mask
        && a.state.depth_stencil_state == b.state.depth_stencil_state
        && a.state.stencil_ref == b.state.stencil_ref
        && a.state.ps_resources == b.state.ps_resources
        && a.state.samplers == b.state.samplers
        && a.state.vertex_shader == b.state.vertex_shader
        && a.state.vs_instances == b.state.vs_instances
        && a.state.geometry_shader == b.state.geometry_shader
        && a.state.gs_instances == b.state.gs_instances
        && a.state.pixel_shader == b.state.pixel_shader
        && a.state.ps_instances == b.state.ps_instances
        && a.state.constant_buffers == b.state.constant_buffers
        && a.state.primitive_topology == b.state.primitive_topology
        && a.state.index_buffer == b.state.index_buffer
        && a.state.index_buffer_format == b.state.index_buffer_format
        && a.state.index_buffer_offset == b.state.index_buffer_offset
        && a.state.vertex_buffer == b.state.vertex_buffer
        && a.state.vertex_buffer_stride == b.state.vertex_buffer_stride
        && a.state.vertex_buffer_offset == b.state.vertex_buffer_offset
        && a.state.input_layout == b.state.input_layout
}

fn clone_ctx(ctx: &DeviceContext) -> DeviceContext {
    let mut c = DeviceContext::new();
    c.state.scissor_rects = ctx.state.scissor_rects.clone();
    c.state.viewports = ctx.state.viewports.clone();
    c.state.raster_state = ctx.state.raster_state;
    c.state.blend_state = ctx.state.blend_state;
    c.state.blend_factor = ctx.state.blend_factor;
    c.state.blend_mask = ctx.state.blend_mask;
    c.state.depth_stencil_state = ctx.state.depth_stencil_state;
    c.state.stencil_ref = ctx.state.stencil_ref;
    c.state.ps_resources = ctx.state.ps_resources.clone();
    c.state.samplers = ctx.state.samplers.clone();
    c.state.vertex_shader = ctx.state.vertex_shader;
    c.state.vs_instances = ctx.state.vs_instances.clone();
    c.state.geometry_shader = ctx.state.geometry_shader;
    c.state.gs_instances = ctx.state.gs_instances.clone();
    c.state.pixel_shader = ctx.state.pixel_shader;
    c.state.ps_instances = ctx.state.ps_instances.clone();
    c.state.constant_buffers = ctx.state.constant_buffers.clone();
    c.state.primitive_topology = ctx.state.primitive_topology;
    c.state.index_buffer = ctx.state.index_buffer;
    c.state.index_buffer_format = ctx.state.index_buffer_format;
    c.state.index_buffer_offset = ctx.state.index_buffer_offset;
    c.state.vertex_buffer = ctx.state.vertex_buffer;
    c.state.vertex_buffer_stride = ctx.state.vertex_buffer_stride;
    c.state.vertex_buffer_offset = ctx.state.vertex_buffer_offset;
    c.state.input_layout = ctx.state.input_layout;
    c
}

#[test]
fn save_restore_round_trips_state() {
    let mut dev = Device::new();
    let mut ctx = DeviceContext::new();
    host_state(&mut dev, &mut ctx);
    let before = clone_ctx(&ctx);
    let mut backup = BackupState::new();
    backup.save(&mut dev, &ctx);
    let r = backup.restore(&mut dev, &mut ctx);
    assert!(r.is_ok());
    assert!(states_equal(&ctx, &before));
}

#[test]
fn save_restore_leaves_refcounts_unchanged() {
    let mut dev = Device::new();
    let mut ctx = DeviceContext::new();
    let handles = host_state(&mut dev, &mut ctx);
    let before: Vec<u64> = handles.iter().map(|h| dev.refcount_of(*h)).collect();
    let mut backup = BackupState::new();
    let cycles: usize = 25;
    let mut k: usize = 0;
    while k < cycles {
        backup.save(&mut dev, &ctx);
        let r = backup.restore(&mut dev, &mut ctx);
        assert!(r.is_ok());
        k += 1;
    }
    let after: Vec<u64> = handles.iter().map(|h| dev.refcount_of(*h)).collect();
    assert_eq!(before, after);
}

#[test]
fn save_bumps_each_captured_reference() {
    let mut dev = Device::new();
    let mut ctx = DeviceContext::new();
    let handles = host_state(&mut dev, &mut ctx);
    let srv = handles[3];
    let vs_inst = handles[6];
    assert_eq!(dev.refcount_of(srv), 1);
    let mut backup = BackupState::new();
    backup.save(&mut dev, &ctx);
    // the shader-resource view is bound in two slots, so two references
    assert_eq!(dev.refcount_of(srv), 3);
    // the class instance appears twice in the instance list
    assert_eq!(dev.refcount_of(vs_inst), 3);
    let r = backup.restore(&mut dev, &mut ctx);
    assert!(r.is_ok());
    assert_eq!(dev.refcount_of(srv), 1);
    assert_eq!(dev.refcount_of(vs_inst), 1);
}

#[test]
fn restore_without_save_is_reported() {
    let mut dev = Device::new();
    let mut ctx = DeviceContext::new();
    let mut backup = BackupState::new();
    let r = backup.restore(&mut dev, &mut ctx);
    assert_eq!(r, Err(OverlayError::RestoreWithoutSave));
}

#[test]
fn restore_skips_missing_state_objects() {
    // Nothing bound at capture time: a restore must still proceed for the
    // unconditional categories and leave the optional ones as they are.
    let mut dev = Device::new();
    let mut ctx = DeviceContext::new();
    ctx.state.scissor_rects = vec![Rect { left: 0, top: 0, right: 10, bottom: 10 }];
    let mut backup = BackupState::new();
    backup.save(&mut dev, &ctx);
    // between save and restore, someone binds a raster state
    let transient = dev.create_host_object();
    ctx.state.raster_state = Some(transient);
    ctx.state.scissor_rects = vec![];
    let r = backup.restore(&mut dev, &mut ctx);
    assert!(r.is_ok());
    // the unconditional category came back
    assert_eq!(
        ctx.state.scissor_rects,
        vec![Rect { left: 0, top: 0, right: 10, bottom: 10 }]
    );
    // the missing raster state did not abort the restore; the binding stays
    assert_eq!(ctx.state.raster_state, Some(transient));
}

#[test]
fn restore_slices_to_captured_counts() {
    let mut dev = Device::new();
    let mut ctx = DeviceContext::new();
    ctx.state.scissor_rects = vec![
        Rect { left: 1, top: 1, right: 2, bottom: 2 },
        Rect { left: 3, top: 3, right: 4, bottom: 4 },
    ];
    let mut backup = BackupState::new();
    backup.save(&mut dev, &ctx);
    ctx.state.scissor_rects = vec![Rect { left: 9, top: 9, right: 9, bottom: 9 }];
    let r = backup.restore(&mut dev, &mut ctx);
    assert!(r.is_ok());
    assert_eq!(ctx.state.scissor_rects.len(), 2);
    assert_eq!(ctx.state.scissor_rects[1], Rect { left: 3, top: 3, right: 4, bottom: 4 });
}

#[test]
fn array_as_slice_reads_slots() {
    let a = Array::new(4);
    let s = a.as_slice();
    assert_eq!(s.len(), 4);
    assert!(s[0].is_none());
    assert!(s[3].is_none());
}

#[test]
fn array_as_mut_slice_writes_slots() {
    let mut a = Array::new(3);
    {
        let s = a.as_mut_slice();
        s[1] = Some(7);
    }
    assert_eq!(a.as_slice()[1], Some(7));
    assert!(a.as_slice()[0].is_none());
}

#[test]
fn array_release_drops_each_slot_once() {
    let mut dev = Device::new();
    let h = dev.create_host_object();
    let mut a = Array::new(4);
    {
        let s = a.as_mut_slice();
        s[0] = Some(h);
        s[2] = Some(h);
    }
    assert_eq!(dev.refcount_of(h), 1);
    a.release(&mut dev);
    // two bound slots, two drops; the count saturates at zero
    assert_eq!(dev.refcount_of(h), 0);
    assert!(a.as_slice()[0].is_none());
    assert!(a.as_slice()[2].is_none());
}

#[test]
fn array_default_is_empty() {
    let a = Array::default();
    assert_eq!(a.as_slice().len(), 0);
}
