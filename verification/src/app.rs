use vstd::prelude::*;
use crate::backup::{
    lemma_restore_preserves_host_state, lemma_save_restore_round_trip, lemma_snap_live_monotone,
    state_handles_live, BackupState,
};
use crate::device::{
    backbuffer_same, copy_vec, lemma_res_some_bound, refs_same_except, resources_same_except,
    same_state, sat_sub, captured_state_restored, Device, DeviceContext, DrawRecord,
    PipelineState, Resource,
};
use crate::mesh::{
    create_index_buffer, create_vertex_buffer, index_bytes, is_normalized, mesh_well_formed,
    vertices_in_range, GpuMesh, Mesh, ScreenSize, MAX_MESH_INDICES,
};
use crate::shader::CompiledShaders;
use crate::texture::{
    apply_deltas, deltas_wf, lemma_synced_preserved, MirrorEntry, TextureAllocator,
};
use crate::types::{
    BlendFactor, BlendStateDesc, RasterizerStateDesc, Rect, SamplerStateDesc, TextureId,
    Viewport, BLEND_INV_SRC_ALPHA, BLEND_ONE, BLEND_OP_ADD, BLEND_SRC_ALPHA,
    COLOR_WRITE_ENABLE_ALL, COMPARISON_ALWAYS, CULL_NONE, F32_ONE_BITS, F32_ZERO_BITS,
    FILL_SOLID, FILTER_MIN_MAG_MIP_LINEAR, FORMAT_R32_UINT,
    TEXTURE_ADDRESS_BORDER, TOPOLOGY_TRIANGLELIST, VERTEX_STRIDE_BYTES,
};
use crate::OverlayError;

verus! {

/// One primitive out of the toolkit's tessellation: a triangle mesh with
/// the rectangle it is clipped to, or a paint callback, which this
/// renderer does not support.
#[derive(Clone, PartialEq, Eq, Debug)]
pub enum ClippedPrimitive {
    Mesh { mesh: Mesh, clip: Rect },
    PaintCallback,
}

/// Everything one frame's UI run and tessellation produced.
#[derive(Clone, PartialEq, Eq, Debug)]
pub struct FrameOutput {
    pub primitives: Vec<ClippedPrimitive>,
    pub textures_delta: crate::texture::TexturesDelta,
}

/// The render-target view the overlay draws into, with the backbuffer
/// generation it was created against.
#[derive(Clone, Copy, PartialEq, Eq, Structural, Debug)]
pub struct RenderView {
    pub handle: usize,
    pub generation: u64,
}

/// The state one application instance owns.
pub struct AppData {
    pub render_view: Option<RenderView>,
    pub tex_alloc: TextureAllocator,
    pub input_layout: usize,
    pub shaders: CompiledShaders,
    pub backup: BackupState,
}

/// Every mesh primitive is within the bounds the geometry arithmetic is
/// proved exact for, and small enough for the device's buffer descriptor.
pub open spec fn primitives_wf(prims: Seq<ClippedPrimitive>) -> bool {
    forall|i: int| #![trigger prims[i]] 0 <= i < prims.len() ==> (prims[i] matches
        ClippedPrimitive::Mesh { mesh, clip } ==> vertices_in_range(mesh.vertices@)
        && mesh.indices@.len() <= MAX_MESH_INDICES)
}

/// Some primitive is of the unsupported paint-callback kind.
pub open spec fn has_callback(prims: Seq<ClippedPrimitive>) -> bool {
    exists|i: int| 0 <= i < prims.len() && (#[trigger] prims[i]) is PaintCallback
}

/// The primitive yields a draw call: it is a mesh, it is well-formed, and
/// its texture id resolves in the cache; any other mesh is skipped, never
/// fatal to the frame.
pub open spec fn is_drawn(p: ClippedPrimitive, m: Map<TextureId, MirrorEntry>) -> bool {
    p matches ClippedPrimitive::Mesh { mesh, clip } && mesh_well_formed(mesh)
        && m.contains_key(mesh.texture_id)
}

/// The primitives that yield draw calls, in their original order — the
/// toolkit's painter's-algorithm order, which must be preserved exactly.
pub open spec fn drawn_list(
    prims: Seq<ClippedPrimitive>,
    m: Map<TextureId, MirrorEntry>,
) -> Seq<ClippedPrimitive>
    decreases prims.len(),
{
    if prims.len() == 0 {
        Seq::empty()
    } else if is_drawn(prims.last(), m) {
        drawn_list(prims.drop_last(), m).push(prims.last())
    } else {
        drawn_list(prims.drop_last(), m)
    }
}

/// The draw record `rec` renders exactly the primitive `p`: as many
/// indices as the mesh has, scissored to the mesh's clip rectangle, the
/// mesh's texture bound, and buffers on the device holding the mesh's
/// serialized indices and its clip-space normalized vertices.
pub open spec fn draw_matches(
    rec: DrawRecord,
    p: ClippedPrimitive,
    rmap: Map<TextureId, usize>,
    d: Device,
    screen: ScreenSize,
) -> bool {
    p matches ClippedPrimitive::Mesh { mesh, clip } && {
        &&& rec.index_count == mesh.indices@.len()
        &&& rec.scissor == Some(clip)
        &&& rmap.contains_key(mesh.texture_id)
        &&& rec.texture == Some(rmap[mesh.texture_id])
        &&& rec.index_buffer matches Some(ib) && d.res(ib) matches Some(
            Resource::IndexBuffer(b),
        ) && b@ == index_bytes(mesh.indices@)
        &&& rec.vertex_buffer matches Some(vb) && d.res(vb) matches Some(
            Resource::VertexBuffer(vs),
        ) && vs@.len() == mesh.vertices@.len() && (forall|k: int|
            0 <= k < vs@.len() ==> #[trigger] is_normalized(mesh.vertices@[k], vs@[k], screen))
    }
}

/// The blend configuration the overlay draws with: premultiplied-over —
/// source alpha over inverse source alpha for color, one over inverse
/// source alpha for alpha, both combined additively, all channels written.
pub open spec fn overlay_blend_desc() -> BlendStateDesc {
    BlendStateDesc {
        alpha_to_coverage: false,
        independent_blend: false,
        blend_enable: true,
        src_blend: BLEND_SRC_ALPHA,
        dest_blend: BLEND_INV_SRC_ALPHA,
        blend_op: BLEND_OP_ADD,
        src_blend_alpha: BLEND_ONE,
        dest_blend_alpha: BLEND_INV_SRC_ALPHA,
        blend_op_alpha: BLEND_OP_ADD,
        write_mask: COLOR_WRITE_ENABLE_ALL,
    }
}

/// The rasterizer configuration the overlay draws with: solid fill, no
/// culling, scissor test enabled.
pub open spec fn overlay_raster_desc() -> RasterizerStateDesc {
    RasterizerStateDesc {
        fill_mode: FILL_SOLID,
        cull_mode: CULL_NONE,
        front_counter_clockwise: false,
        depth_bias: 0,
        depth_bias_clamp: F32_ZERO_BITS,
        slope_scaled_depth_bias: F32_ZERO_BITS,
        depth_clip_enable: false,
        scissor_enable: true,
        multisample_enable: false,
        antialiased_line_enable: false,
    }
}

/// The sampler the overlay draws with: bilinear filtering with a white
/// border address mode.
pub open spec fn overlay_sampler_desc() -> SamplerStateDesc {
    SamplerStateDesc {
        filter: FILTER_MIN_MAG_MIP_LINEAR,
        address_u: TEXTURE_ADDRESS_BORDER,
        address_v: TEXTURE_ADDRESS_BORDER,
        address_w: TEXTURE_ADDRESS_BORDER,
        mip_lod_bias: F32_ZERO_BITS,
        comparison_func: COMPARISON_ALWAYS,
        border_r: F32_ONE_BITS,
        border_g: F32_ONE_BITS,
        border_b: F32_ONE_BITS,
        border_a: F32_ONE_BITS,
        min_lod: F32_ZERO_BITS,
        max_lod: F32_ZERO_BITS,
    }
}

/// Creates the overlay's blend state on the device and binds it, with a
/// zero blend factor and an all-ones sample mask.
fn set_blend_state(dev: &mut Device, ctx: &mut DeviceContext) -> (h: usize)
    requires
        old(dev).wf(),
        old(dev).n() < usize::MAX,
    ensures
        final(dev).wf(),
        h == old(dev).n(),
        final(dev).n() == old(dev).n() + 1,
        final(dev).rc(h) == 1,
        final(dev).res(h) == Some(Resource::BlendState(overlay_blend_desc())),
        refs_same_except(*old(dev), *final(dev), h),
        resources_same_except(*old(dev), *final(dev), h),
        backbuffer_same(*old(dev), *final(dev)),
        final(ctx).state == (PipelineState {
            blend_state: Some(h),
            blend_factor: (BlendFactor {
                r: F32_ZERO_BITS,
                g: F32_ZERO_BITS,
                b: F32_ZERO_BITS,
                a: F32_ZERO_BITS,
            }),
            blend_mask: 0xffff_ffffu32,
            ..old(ctx).state
        }),
        final(ctx).draws == old(ctx).draws,
        final(ctx).render_target == old(ctx).render_target,
{
    let desc = BlendStateDesc {
        alpha_to_coverage: false,
        independent_blend: false,
        blend_enable: true,
        src_blend: BLEND_SRC_ALPHA,
        dest_blend: BLEND_INV_SRC_ALPHA,
        blend_op: BLEND_OP_ADD,
        src_blend_alpha: BLEND_ONE,
        dest_blend_alpha: BLEND_INV_SRC_ALPHA,
        blend_op_alpha: BLEND_OP_ADD,
        write_mask: COLOR_WRITE_ENABLE_ALL,
    };
    let h = dev.create(Resource::BlendState(desc));
    ctx.state.blend_state = Some(h);
    ctx.state.blend_factor = BlendFactor {
        r: F32_ZERO_BITS,
        g: F32_ZERO_BITS,
        b: F32_ZERO_BITS,
        a: F32_ZERO_BITS,
    };
    ctx.state.blend_mask = 0xffff_ffff;
    h
}

/// Creates the overlay's rasterizer state on the device and binds it.
fn set_raster_options(dev: &mut Device, ctx: &mut DeviceContext) -> (h: usize)
    requires
        old(dev).wf(),
        old(dev).n() < usize::MAX,
    ensures
        final(dev).wf(),
        h == old(dev).n(),
        final(dev).n() == old(dev).n() + 1,
        final(dev).rc(h) == 1,
        final(dev).res(h) == Some(Resource::RasterizerState(overlay_raster_desc())),
        refs_same_except(*old(dev), *final(dev), h),
        resources_same_except(*old(dev), *final(dev), h),
        backbuffer_same(*old(dev), *final(dev)),
        final(ctx).state == (PipelineState { raster_state: Some(h), ..old(ctx).state }),
        final(ctx).draws == old(ctx).draws,
        final(ctx).render_target == old(ctx).render_target,
{
    let desc = RasterizerStateDesc {
        fill_mode: FILL_SOLID,
        cull_mode: CULL_NONE,
        front_counter_clockwise: false,
        depth_bias: 0,
        depth_bias_clamp: F32_ZERO_BITS,
        slope_scaled_depth_bias: F32_ZERO_BITS,
        depth_clip_enable: false,
        scissor_enable: true,
        multisample_enable: false,
        antialiased_line_enable: false,
    };
    let h = dev.create(Resource::RasterizerState(desc));
    ctx.state.raster_state = Some(h);
    h
}

/// Creates the overlay's sampler on the device and binds it to the first
/// sampler slot.
fn set_sampler_state(dev: &mut Device, ctx: &mut DeviceContext) -> (h: usize)
    requires
        old(dev).wf(),
        old(dev).n() < usize::MAX,
        old(ctx).state.wf(),
    ensures
        final(dev).wf(),
        h == old(dev).n(),
        final(dev).n() == old(dev).n() + 1,
        final(dev).rc(h) == 1,
        final(dev).res(h) == Some(Resource::SamplerState(overlay_sampler_desc())),
        refs_same_except(*old(dev), *final(dev), h),
        resources_same_except(*old(dev), *final(dev), h),
        backbuffer_same(*old(dev), *final(dev)),
        final(ctx).state == (PipelineState {
            samplers: final(ctx).state.samplers,
            ..old(ctx).state
        }),
        final(ctx).state.samplers@ == old(ctx).state.samplers@.update(0, Some(h)),
        final(ctx).draws == old(ctx).draws,
        final(ctx).render_target == old(ctx).render_target,
{
    let desc = SamplerStateDesc {
        filter: FILTER_MIN_MAG_MIP_LINEAR,
        address_u: TEXTURE_ADDRESS_BORDER,
        address_v: TEXTURE_ADDRESS_BORDER,
        address_w: TEXTURE_ADDRESS_BORDER,
        mip_lod_bias: F32_ZERO_BITS,
        comparison_func: COMPARISON_ALWAYS,
        border_r: F32_ONE_BITS,
        border_g: F32_ONE_BITS,
        border_b: F32_ONE_BITS,
        border_a: F32_ONE_BITS,
        min_lod: F32_ZERO_BITS,
        max_lod: F32_ZERO_BITS,
    };
    let h = dev.create(Resource::SamplerState(desc));
    ctx.state.samplers.set(0, Some(h));
    h
}

/// The application façade: one overlay instance over one host device.
/// The embedder serializes all calls into it, so each entry point takes
/// the instance exclusively.
pub struct DirectX11App {
    data: Option<AppData>,
}

impl DirectX11App {
    /// An instance has been initialized against the device.
    pub closed spec fn is_init(self) -> bool {
        self.data is Some
    }

    /// The instance's state.
    pub closed spec fn app(self) -> AppData {
        self.data->Some_0
    }

    /// Everything the instance holds is consistent with the device: the
    /// cache's objects exist and agree with its mirrors, the backup holds
    /// nothing between frames, and a valid view of the current backbuffer
    /// is in hand.
    pub closed spec fn wf(self, d: Device) -> bool {
        self.data matches Some(a) ==> {
            &&& a.backup.wf()
            &&& a.backup.snapshot().is_clear()
            &&& !a.backup.is_saved()
            &&& a.tex_alloc.wf()
            &&& a.tex_alloc.synced(d)
            &&& a.render_view is Some
            &&& (a.render_view matches Some(v) ==> v.generation == d.generation() && v.handle
                < d.n() && d.res(v.handle) == Some(Resource::RenderTargetView {
                generation: v.generation,
            }) && d.views_on_backbuffer() == 1)
            &&& a.input_layout < d.n()
            &&& a.shaders.vertex < d.n()
            &&& a.shaders.pixel < d.n()
        }
    }

    /// A fresh, uninitialized instance.
    pub fn new() -> (s: Self)
        ensures
            !s.is_init(),
    {
        DirectX11App { data: None }
    }

    /// Whether an `init` call has completed, so the other entry points
    /// may be invoked.
    pub fn is_ready(&self) -> (r: bool)
        ensures
            r == self.is_init(),
    {
        self.data.is_some()
    }

    /// Initializes the instance against the host device: a render-target
    /// view of the current backbuffer, the compiled shader programs, and
    /// the input layout built against the vertex bytecode.
    pub fn init(&mut self, dev: &mut Device, vertex_bytecode: Vec<u8>, pixel_bytecode: Vec<u8>)
        requires
            !old(self).is_init(),
            old(dev).wf(),
            old(dev).n() + 4 <= usize::MAX,
            old(dev).views_on_backbuffer() == 0,
        ensures
            final(self).is_init(),
            final(self).wf(*final(dev)),
            final(dev).wf(),
            final(dev).n() == old(dev).n() + 4,
            final(dev).generation() == old(dev).generation(),
            final(self).app().tex_alloc.mirrors() =~= Map::<TextureId, MirrorEntry>::empty(),
            !final(self).app().backup.is_saved(),
    {
        let rtv = dev.create_render_target_view();
        let generation = dev.current_generation();
        let shaders = CompiledShaders::new(dev, vertex_bytecode, pixel_bytecode);
        let input_layout = dev.create(Resource::InputLayout(copy_vec(shaders.bytecode())));
        self.data = Some(
            AppData {
                render_view: Some(RenderView { handle: rtv, generation }),
                tex_alloc: TextureAllocator::new(),
                input_layout,
                shaders,
                backup: BackupState::new(),
            },
        );
    }

    /// Replaces the render-target view around the host's backbuffer
    /// reallocation.  The held view is released first — the device
    /// refuses the reallocation while any view still pins the backbuffer
    /// — and a fresh view against the new backbuffer is created and
    /// stored before control returns.
    pub fn resize_buffers(&mut self, dev: &mut Device)
        requires
            old(self).is_init(),
            old(self).wf(*old(dev)),
            old(dev).wf(),
            old(dev).n() < usize::MAX,
            old(dev).generation() < u64::MAX,
        ensures
            final(self).is_init(),
            final(self).wf(*final(dev)),
            final(dev).wf(),
            final(dev).generation() == old(dev).generation() + 1,
            final(dev).n() == old(dev).n() + 1,
            final(dev).rc(old(self).app().render_view->Some_0.handle) == sat_sub(
                old(dev).rc(old(self).app().render_view->Some_0.handle),
                1,
            ),
            final(self).app().render_view matches Some(v) && v.handle == old(dev).n()
                && v.generation == old(dev).generation() + 1 && final(dev).res(v.handle)
                == Some(Resource::RenderTargetView { generation: v.generation }),
            final(self).app().tex_alloc == old(self).app().tex_alloc,
            final(self).app().backup == old(self).app().backup,
    {
        match &mut self.data {
            Some(a) => {
                let view = a.render_view;
                a.render_view = None;
                match view {
                    Some(v) => {
                        dev.release_render_target_view(v.handle);
                    }
                    None => (),
                }
                dev.resize_backbuffer();
                let nh = dev.create_render_target_view();
                let generation = dev.current_generation();
                a.render_view = Some(RenderView { handle: nh, generation });
                proof {
                    assert forall|h: usize| #![trigger dev.res(h)] h < old(dev).n()
                        implies dev.res(h) == old(dev).res(h) by {}
                    lemma_synced_preserved(a.tex_alloc, *old(dev), *dev);
                }
            }
            None => (),
        }
    }

    /// The shader-visible view the texture cache holds for `tid`, if the
    /// id is known; an absent id means "skip drawing that mesh".
    pub fn texture_view(&self, tid: TextureId) -> (r: Option<usize>)
        requires
            self.is_init(),
            self.app().tex_alloc.wf(),
        ensures
            r.is_some() <==> self.app().tex_alloc.mirrors().contains_key(tid),
            r matches Some(h) ==> self.app().tex_alloc.view_handles().contains_key(tid)
                && h == self.app().tex_alloc.view_handles()[tid],
    {
        match &self.data {
            Some(a) => a.tex_alloc.get_by_id(tid),
            None => None,
        }
    }

    /// The handle of the render-target view currently held, if any.
    pub fn render_view_handle(&self) -> (r: Option<usize>)
        ensures
            self.is_init() && self.app().render_view is Some ==> r == Some(
                self.app().render_view->Some_0.handle,
            ),
            !(self.is_init() && self.app().render_view is Some) ==> r is None,
    {
        match &self.data {
            Some(a) => match &a.render_view {
                Some(v) => Some(v.handle),
                None => None,
            },
            None => None,
        }
    }

    /// Renders one frame: captures the device's state, applies the
    /// frame's texture deltas — which land even when nothing is drawn —
    /// then, unless the frame is empty or carries an unsupported
    /// paint-callback primitive, configures the transient pipeline,
    /// issues one draw per resolvable mesh in the toolkit's order, and
    /// finally restores the captured state unconditionally, so the host's
    /// own rendering proceeds against its own configuration.
    #[verifier::rlimit(100)]
    #[verifier::spinoff_prover]
    pub fn present(
        &mut self,
        dev: &mut Device,
        ctx: &mut DeviceContext,
        screen: ScreenSize,
        output: FrameOutput,
    ) -> (r: Result<(), OverlayError>)
        requires
            old(self).is_init(),
            old(self).wf(*old(dev)),
            old(dev).wf(),
            old(ctx).state.wf(),
            state_handles_live(old(ctx).state, *old(dev)),
            screen.valid(),
            primitives_wf(output.primitives@),
            deltas_wf(output.textures_delta),
            old(dev).n() + 2 * output.textures_delta.set@.len() + 3 + 2
                * output.primitives@.len() <= usize::MAX,
        ensures
            final(self).is_init(),
            final(self).wf(*final(dev)),
            final(dev).wf(),
            final(ctx).state.wf(),
            final(self).app().tex_alloc.mirrors() =~= apply_deltas(
                old(self).app().tex_alloc.mirrors(),
                output.textures_delta,
            ),
            r is Err <==> has_callback(output.primitives@),
            r is Err ==> r == Result::<(), OverlayError>::Err(OverlayError::UnsupportedPrimitive),
            output.primitives@.len() == 0 ==> final(ctx).draws@ == old(ctx).draws@
                && same_state(final(ctx).state, old(ctx).state) && final(ctx).render_target
                == old(ctx).render_target,
            has_callback(output.primitives@) ==> final(ctx).draws@ == old(ctx).draws@
                && same_state(final(ctx).state, old(ctx).state) && final(ctx).render_target
                == old(ctx).render_target,
            output.primitives@.len() > 0 && !has_callback(output.primitives@) ==> {
                let m_after = apply_deltas(
                    old(self).app().tex_alloc.mirrors(),
                    output.textures_delta,
                );
                let drawn = drawn_list(output.primitives@, m_after);
                let base = old(ctx).draws@.len();
                &&& final(ctx).draws@.len() == base + drawn.len()
                &&& (forall|k: int| 0 <= k < base ==> #[trigger] final(ctx).draws@[k]
                    == old(ctx).draws@[k])
                &&& (forall|k: int|
                    #![trigger drawn[k]]
                    0 <= k < drawn.len() ==> draw_matches(
                        final(ctx).draws@[base + k],
                        drawn[k],
                        final(self).app().tex_alloc.view_handles(),
                        *final(dev),
                        screen,
                    ))
                &&& captured_state_restored(old(ctx).state, final(ctx).state)
                &&& final(ctx).render_target == Some(
                    old(self).app().render_view->Some_0.handle,
                )
            },
    {
        match &mut self.data {
            Some(a) => {
                let ghost vh: usize = a.render_view->Some_0.handle;
                a.backup.save(dev, ctx);
                let ghost snap = a.backup.snapshot();
                let ghost dev_saved = *dev;
                proof {
                    assert forall|h: usize| #![trigger dev.res(h)] h < old(dev).n()
                        implies dev.res(h) == old(dev).res(h) by {}
                    lemma_synced_preserved(a.tex_alloc, *old(dev), *dev);
                }
                a.tex_alloc.process_deltas(dev, output.textures_delta);
                let ghost dev_deltas = *dev;
                proof {
                    lemma_snap_live_monotone(snap, dev_saved, *dev);
                }
                if output.primitives.len() == 0 {
                    let ghost dev_pre = *dev;
                    let _ = a.backup.restore(dev, ctx);
                    proof {
                        lemma_save_restore_round_trip(snap, old(ctx).state, ctx.state);
                        assert forall|h: usize| #![trigger dev.res(h)] h < dev_pre.n()
                            implies dev.res(h) == dev_pre.res(h) by {}
                        lemma_synced_preserved(a.tex_alloc, dev_pre, *dev);
                        assert(dev_saved.res(vh) == old(dev).res(vh));
                        assert(dev_deltas.res(vh) == dev_saved.res(vh));
                        assert(dev.res(vh) == dev_deltas.res(vh));
                    }
                    return Ok(());
                }
                let n_p: usize = output.primitives.len();
                let mut has_cb = false;
                let mut i: usize = 0;
                while i < n_p
                    invariant
                        n_p == output.primitives@.len(),
                        0 <= i <= n_p,
                        has_cb == has_callback(output.primitives@.take(i as int)),
                    decreases n_p - i,
                {
                    match &output.primitives[i] {
                        ClippedPrimitive::PaintCallback => {
                            has_cb = true;
                        }
                        _ => (),
                    }
                    proof {
                        let pre = output.primitives@.take(i as int);
                        let post = output.primitives@.take(i as int + 1);
                        if output.primitives@[i as int] is PaintCallback {
                            assert(post[i as int] is PaintCallback);
                            assert(has_callback(post));
                        } else {
                            if has_callback(pre) {
                                let j = choose|j: int| 0 <= j < pre.len() && (#[trigger] pre[
                                    j
                                ]) is PaintCallback;
                                assert(post[j] is PaintCallback);
                                assert(has_callback(post));
                            }
                            if has_callback(post) {
                                let j = choose|j: int| 0 <= j < post.len() && (#[trigger] post[
                                    j
                                ]) is PaintCallback;
                                assert(j != i);
                                assert(pre[j] is PaintCallback);
                                assert(has_callback(pre));
                            }
                        }
                    }
                    i = i + 1;
                }
                proof {
                    assert(output.primitives@.take(n_p as int) =~= output.primitives@);
                }
                if has_cb {
                    let ghost dev_pre = *dev;
                    let _ = a.backup.restore(dev, ctx);
                    proof {
                        lemma_save_restore_round_trip(snap, old(ctx).state, ctx.state);
                        assert forall|h: usize| #![trigger dev.res(h)] h < dev_pre.n()
                            implies dev.res(h) == dev_pre.res(h) by {}
                        lemma_synced_preserved(a.tex_alloc, dev_pre, *dev);
                        assert(dev_saved.res(vh) == old(dev).res(vh));
                        assert(dev_deltas.res(vh) == dev_saved.res(vh));
                        assert(dev.res(vh) == dev_deltas.res(vh));
                    }
                    return Err(OverlayError::UnsupportedPrimitive);
                }
                let _bh = set_blend_state(dev, ctx);
                let _rh = set_raster_options(dev, ctx);
                let _sh = set_sampler_state(dev, ctx);
                let mut vps: Vec<Viewport> = Vec::new();
                vps.push(
                    Viewport {
                        top_left_x: F32_ZERO_BITS,
                        top_left_y: F32_ZERO_BITS,
                        width: screen.width,
                        height: screen.height,
                        min_depth: F32_ZERO_BITS,
                        max_depth: F32_ONE_BITS,
                    },
                );
                ctx.state.viewports = vps;
                let view_h: usize = match &a.render_view {
                    Some(v) => v.handle,
                    None => 0,
                };
                ctx.render_target = Some(view_h);
                ctx.state.primitive_topology = TOPOLOGY_TRIANGLELIST;
                ctx.state.input_layout = Some(a.input_layout);
                proof {
                    assert forall|h: usize| #![trigger dev.res(h)] h < dev_deltas.n()
                        implies dev.res(h) == dev_deltas.res(h) by {}
                    lemma_synced_preserved(a.tex_alloc, dev_deltas, *dev);
                }
                let ghost dev_trans = *dev;
                draw_primitives(&a.tex_alloc, &a.shaders, dev, ctx, &output.primitives, screen);
                let ghost dev_drawn = *dev;
                proof {
                    lemma_synced_preserved(a.tex_alloc, dev_trans, dev_drawn);
                }
                let ghost st_pre = ctx.state;
                let ghost draws_pre = ctx.draws@;
                proof {
                    lemma_snap_live_monotone(snap, dev_saved, *dev);
                }
                let _ = a.backup.restore(dev, ctx);
                proof {
                    lemma_restore_preserves_host_state(snap, old(ctx).state, st_pre, ctx.state);
                    assert(dev_saved.res(vh) == old(dev).res(vh));
                    assert(dev_deltas.res(vh) == dev_saved.res(vh));
                    assert(dev_drawn.res(vh) == dev_deltas.res(vh));
                    assert(dev.res(vh) == dev_drawn.res(vh));
                    assert forall|h: usize| #![trigger dev.res(h)] h < dev_drawn.n()
                        implies dev.res(h) == dev_drawn.res(h) by {}
                    lemma_synced_preserved(a.tex_alloc, dev_drawn, *dev);
                    let ghost m_after = a.tex_alloc.mirrors();
                    let ghost drawn = drawn_list(output.primitives@, m_after);
                    let ghost rmap = a.tex_alloc.view_handles();
                    let ghost base = old(ctx).draws@.len();
                    assert forall|k: int| #![trigger drawn[k]] 0 <= k < drawn.len()
                        implies draw_matches(
                        ctx.draws@[base + k],
                        drawn[k],
                        rmap,
                        *dev,
                        screen,
                    ) by {
                        assert(draw_matches(draws_pre[base + k], drawn[k], rmap, dev_drawn, screen));
                        assert(ctx.draws@[base + k] == draws_pre[base + k]);
                        let ib = draws_pre[base + k].index_buffer->Some_0;
                        let vb = draws_pre[base + k].vertex_buffer->Some_0;
                        lemma_res_some_bound(dev_drawn, ib);
                        lemma_res_some_bound(dev_drawn, vb);
                    }
                }
                Ok(())
            }
            None => Ok(()),
        }
    }
}


/// Issues the frame's draw calls: for each tessellated mesh, in the
/// toolkit's painter's-algorithm order, build its index and vertex
/// buffers, resolve its texture, set the scissor to the mesh's clip
/// rectangle, bind the shaders, draw, and release the per-draw buffers.
/// A degenerate mesh or one whose texture does not resolve is skipped,
/// never fatal to the frame.
#[verifier::rlimit(100)]
#[verifier::spinoff_prover]
fn draw_primitives(
    tex_alloc: &TextureAllocator,
    shaders: &CompiledShaders,
    dev: &mut Device,
    ctx: &mut DeviceContext,
    prims: &Vec<ClippedPrimitive>,
    screen: ScreenSize,
)
    requires
        old(dev).wf(),
        old(ctx).state.wf(),
        tex_alloc.wf(),
        tex_alloc.synced(*old(dev)),
        primitives_wf(prims@),
        screen.valid(),
        shaders.vertex < old(dev).n(),
        shaders.pixel < old(dev).n(),
        old(dev).n() + 2 * prims@.len() <= usize::MAX,
    ensures
        final(dev).wf(),
        old(dev).n() <= final(dev).n() <= old(dev).n() + 2 * prims@.len(),
        forall|h: usize| #![trigger final(dev).res(h)] h < old(dev).n() ==> final(dev).res(h)
            == old(dev).res(h),
        forall|h: usize| #![trigger final(dev).rc(h)] h < old(dev).n() ==> final(dev).rc(h)
            == old(dev).rc(h),
        backbuffer_same(*old(dev), *final(dev)),
        final(ctx).state.wf(),
        final(ctx).render_target == old(ctx).render_target,
        final(ctx).draws@.len() == old(ctx).draws@.len() + drawn_list(
            prims@,
            tex_alloc.mirrors(),
        ).len(),
        forall|k: int| 0 <= k < old(ctx).draws@.len() ==> #[trigger] final(ctx).draws@[k]
            == old(ctx).draws@[k],
        forall|k: int|
            #![trigger drawn_list(prims@, tex_alloc.mirrors())[k]]
            0 <= k < drawn_list(prims@, tex_alloc.mirrors()).len() ==> draw_matches(
                final(ctx).draws@[old(ctx).draws@.len() + k],
                drawn_list(prims@, tex_alloc.mirrors())[k],
                tex_alloc.view_handles(),
                *final(dev),
                screen,
            ),
{
    let ghost d0 = *dev;
    let ghost base = ctx.draws@.len();
    let ghost m = tex_alloc.mirrors();
    let ghost rmap = tex_alloc.view_handles();
    let n: usize = prims.len();
    let mut i: usize = 0;
    while i < n
        invariant
            n == prims@.len(),
            0 <= i <= n,
            dev.wf(),
            ctx.state.wf(),
            tex_alloc.wf(),
            tex_alloc.synced(d0),
            primitives_wf(prims@),
            screen.valid(),
            shaders.vertex < d0.n(),
            shaders.pixel < d0.n(),
            d0.n() <= dev.n() <= d0.n() + 2 * i,
            dev.n() + 2 * (n - i) <= usize::MAX,
            forall|h: usize| #![trigger dev.res(h)] h < d0.n() ==> dev.res(h) == d0.res(h),
            forall|h: usize| #![trigger dev.rc(h)] h < d0.n() ==> dev.rc(h) == d0.rc(h),
            backbuffer_same(d0, *dev),
            ctx.render_target == old(ctx).render_target,
            m == tex_alloc.mirrors(),
            rmap == tex_alloc.view_handles(),
            base == old(ctx).draws@.len(),
            ctx.draws@.len() == base + drawn_list(prims@.take(i as int), m).len(),
            forall|k: int| 0 <= k < base ==> #[trigger] ctx.draws@[k] == old(ctx).draws@[k],
            forall|k: int|
                #![trigger drawn_list(prims@.take(i as int), m)[k]]
                0 <= k < drawn_list(prims@.take(i as int), m).len() ==> draw_matches(
                    ctx.draws@[base + k],
                    drawn_list(prims@.take(i as int), m)[k],
                    rmap,
                    *dev,
                    screen,
                ),
        decreases n - i,
    {
        let ghost dpre = *dev;
        let ghost drawn_pre = drawn_list(prims@.take(i as int), m);
        let p = &prims[i];
        match p {
            ClippedPrimitive::Mesh { mesh, clip } => {
                proof {
                    assert(vertices_in_range(mesh.vertices@));
                }
                let gm = GpuMesh::from_mesh(screen, mesh, *clip);
                match gm {
                    Some(g) => {
                        let tex = tex_alloc.get_by_id(g.texture_id);
                        match tex {
                            Some(th) => {
                                let idx = create_index_buffer(dev, &g);
                                let vtx = create_vertex_buffer(dev, &g);
                                let mut sc: Vec<Rect> = Vec::new();
                                sc.push(*clip);
                                ctx.state.scissor_rects = sc;
                                ctx.state.ps_resources.set(0, Some(th));
                                ctx.state.vertex_buffer = Some(vtx);
                                ctx.state.vertex_buffer_stride = VERTEX_STRIDE_BYTES;
                                ctx.state.vertex_buffer_offset = 0;
                                ctx.state.index_buffer = Some(idx);
                                ctx.state.index_buffer_format = FORMAT_R32_UINT;
                                ctx.state.index_buffer_offset = 0;
                                ctx.state.vertex_shader = Some(shaders.vertex);
                                ctx.state.vs_instances = Vec::new();
                                ctx.state.pixel_shader = Some(shaders.pixel);
                                ctx.state.ps_instances = Vec::new();
                                let count: u32 = g.indices.len() as u32;
                                ctx.draw_indexed(count);
                                dev.release(idx);
                                dev.release(vtx);
                                proof {
                                    assert(is_drawn(prims@[i as int], m));
                                    assert forall|h: usize| #![trigger dev.res(h)] h < dpre.n()
                                        implies dev.res(h) == dpre.res(h) by {}
                                    let rec = ctx.draws@[base + drawn_pre.len() as int];
                                    assert(rec == ctx.draws@.last());
                                    assert(draw_matches(rec, prims@[i as int], rmap, *dev, screen));
                                    assert forall|k: int| 0 <= k < drawn_pre.len()
                                        implies draw_matches(
                                        ctx.draws@[base + k],
                                        #[trigger] drawn_pre[k],
                                        rmap,
                                        *dev,
                                        screen,
                                    ) by {
                                        assert(draw_matches(
                                            ctx.draws@[base + k],
                                            drawn_pre[k],
                                            rmap,
                                            dpre,
                                            screen,
                                        ));
                                        let ib = ctx.draws@[base + k].index_buffer->Some_0;
                                        let vb = ctx.draws@[base + k].vertex_buffer->Some_0;
                                        lemma_res_some_bound(dpre, ib);
                                        lemma_res_some_bound(dpre, vb);
                                    }
                                }
                            }
                            None => {
                                proof {
                                    assert(!m.contains_key(mesh.texture_id));
                                    assert(!is_drawn(prims@[i as int], m));
                                }
                            }
                        }
                    }
                    None => {
                        proof {
                            assert(!mesh_well_formed(*mesh));
                            assert(!is_drawn(prims@[i as int], m));
                        }
                    }
                }
            }
            ClippedPrimitive::PaintCallback => {
                proof {
                    assert(!is_drawn(prims@[i as int], m));
                }
            }
        }
        proof {
            assert(prims@.take(i as int + 1).drop_last() =~= prims@.take(i as int));
            assert(prims@.take(i as int + 1).last() == prims@[i as int]);
            if is_drawn(prims@[i as int], m) {
                assert(drawn_list(prims@.take(i as int + 1), m) == drawn_pre.push(
                    prims@[i as int],
                ));
            } else {
                assert(drawn_list(prims@.take(i as int + 1), m) == drawn_pre);
            }
        }
        i = i + 1;
    }
    proof {
        assert(prims@.take(n as int) =~= prims@);
    }
}

} // verus!
