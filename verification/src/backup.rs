use vstd::prelude::*;
use crate::device::{
    backbuffer_same, copy_vec, filled, none_slots, padded, prefix_of, refs_same, resources_same,
    sat_add, sat_sub, same_state, Device, DeviceContext, PipelineState,
};
use crate::types::{
    BlendFactor, Rect, Viewport, CLASS_INSTANCE_SLOTS, CONSTANT_BUFFER_SLOTS, SAMPLER_SLOTS,
    SCISSOR_SLOTS, SHADER_RESOURCE_SLOTS, VIEWPORT_SLOTS,
};
use crate::OverlayError;

verus! {

/// How many references to handle `h` one optional captured binding holds.
pub open spec fn occ_opt(o: Option<usize>, h: usize) -> nat {
    if o == Some(h) { 1nat } else { 0nat }
}

/// How many references to handle `h` a captured slot array holds.
pub open spec fn occ_slots(s: Seq<Option<usize>>, h: usize) -> nat
    decreases s.len(),
{
    if s.len() == 0 {
        0nat
    } else {
        occ_slots(s.drop_last(), h) + occ_opt(s.last(), h)
    }
}

proof fn lemma_occ_slots_push(s: Seq<Option<usize>>, o: Option<usize>, h: usize)
    ensures
        occ_slots(s.push(o), h) == occ_slots(s, h) + occ_opt(o, h),
{
    assert(s.push(o).drop_last() =~= s);
    assert(s.push(o).last() == o);
}

proof fn lemma_occ_slots_all_none(s: Seq<Option<usize>>, h: usize)
    requires
        forall|i: int| 0 <= i < s.len() ==> s[i] is None,
    ensures
        occ_slots(s, h) == 0,
    decreases s.len(),
{
    if s.len() > 0 {
        lemma_occ_slots_all_none(s.drop_last(), h);
    }
}

/// An optional binding only ever holds handles the device has issued.
pub open spec fn opt_live(o: Option<usize>, d: Device) -> bool {
    o matches Some(h) ==> h < d.n()
}

/// A slot array only holds handles the device has issued.
pub open spec fn slots_live(s: Seq<Option<usize>>, d: Device) -> bool {
    forall|i: int| #![trigger s[i]] 0 <= i < s.len() ==> opt_live(s[i], d)
}

/// A class-instance list only holds handles the device has issued.
pub open spec fn useq_live(s: Seq<usize>, d: Device) -> bool {
    forall|i: int| #![trigger s[i]] 0 <= i < s.len() ==> s[i] < d.n()
}

/// Every handle the context's live state binds was issued by the device.
pub open spec fn state_handles_live(st: PipelineState, d: Device) -> bool {
    &&& opt_live(st.raster_state, d)
    &&& opt_live(st.blend_state, d)
    &&& opt_live(st.depth_stencil_state, d)
    &&& slots_live(st.ps_resources@, d)
    &&& slots_live(st.samplers@, d)
    &&& opt_live(st.vertex_shader, d)
    &&& useq_live(st.vs_instances@, d)
    &&& opt_live(st.geometry_shader, d)
    &&& useq_live(st.gs_instances@, d)
    &&& opt_live(st.pixel_shader, d)
    &&& useq_live(st.ps_instances@, d)
    &&& slots_live(st.constant_buffers@, d)
    &&& opt_live(st.index_buffer, d)
    &&& opt_live(st.vertex_buffer, d)
    &&& opt_live(st.input_layout, d)
}

/// The first `s.len()` slots of an instance array hold the instances in
/// order; the remaining slots up to the array's fixed size are unbound.
pub open spec fn opt_wrap(s: Seq<usize>, n: int) -> Seq<Option<usize>> {
    Seq::new(n as nat, |i: int| if i < s.len() { Some(s[i]) } else { None })
}

/// The instances stored in the first `n` slots of a captured array.
pub open spec fn somes_prefix(s: Seq<Option<usize>>, n: int) -> Seq<usize> {
    Seq::new(n as nat, |i: int| s[i]->Some_0)
}

/// A contiguous buffer of captured binding slots, sized at construction
/// to the documented maximum for its slot category; an unbound slot holds
/// nothing.
pub struct Array {
    slots: Vec<Option<usize>>,
}

impl View for Array {
    type V = Seq<Option<usize>>;

    closed spec fn view(&self) -> Seq<Option<usize>> {
        self.slots@
    }
}

impl Array {
    /// A buffer spanning `n` slots, all unbound.
    pub fn new(n: usize) -> (a: Self)
        ensures
            a@.len() == n,
            forall|i: int| 0 <= i < n ==> a@[i] is None,
    {
        Array { slots: none_slots(n) }
    }

    /// The captured slots, for reading them back out in bulk.
    pub fn as_slice(&self) -> (r: &[Option<usize>])
        ensures
            r@ == self@,
    {
        self.slots.as_slice()
    }

    /// The captured slots, for a device getter to fill in bulk.
    pub fn as_mut_slice(&mut self) -> (r: &mut [Option<usize>])
        ensures
            r@ == old(self)@,
            final(self)@ == final(r)@,
    {
        self.slots.as_mut_slice()
    }

    /// Releases every slot's reference — one per bound slot, exactly once
    /// — and leaves every slot unbound.
    pub fn release(&mut self, dev: &mut Device)
        requires
            old(dev).wf(),
            slots_live(old(self)@, *old(dev)),
        ensures
            final(dev).wf(),
            final(dev).n() == old(dev).n(),
            resources_same(*old(dev), *final(dev)),
            backbuffer_same(*old(dev), *final(dev)),
            forall|h: usize| #![trigger final(dev).rc(h)]
                final(dev).rc(h) == sat_sub(old(dev).rc(h), occ_slots(old(self)@, h)),
            final(self)@.len() == old(self)@.len(),
            forall|i: int| 0 <= i < final(self)@.len() ==> final(self)@[i] is None,
    {
        release_slots(dev, &self.slots);
        let n: usize = self.slots.len();
        self.slots = none_slots(n);
    }
}

impl Default for Array {
    /// An empty buffer; the capture sizes its buffers explicitly.
    fn default() -> (a: Self)
        ensures
            a@.len() == 0,
    {
        Array { slots: Vec::new() }
    }
}

/// The complete snapshot of the context's pipeline state, owned by the
/// backup component between one `save` and the `restore` paired with it.
/// Slot arrays are contiguous buffers sized to the device's documented
/// maxima; a runtime-queried count says how many leading slots are valid.
pub struct InnerState {
    saved: bool,
    scissor_rects: Vec<Rect>,
    scissor_count: u32,
    viewports: Vec<Viewport>,
    viewport_count: u32,
    raster_state: Option<usize>,
    blend_state: Option<usize>,
    blend_factor: BlendFactor,
    blend_mask: u32,
    depth_stencil_state: Option<usize>,
    stencil_ref: u32,
    pixel_shader_resources: Array,
    samplers: Array,
    vertex_shader: Option<usize>,
    vertex_shader_instances: Array,
    vertex_shader_instances_count: u32,
    geometry_shader: Option<usize>,
    geometry_shader_instances: Array,
    geometry_shader_instances_count: u32,
    pixel_shader: Option<usize>,
    pixel_shader_instances: Array,
    pixel_shader_instances_count: u32,
    constant_buffers: Array,
    primitive_topology: u32,
    index_buffer: Option<usize>,
    index_buffer_format: u32,
    index_buffer_offset: u32,
    vertex_buffer: Option<usize>,
    vertex_buffer_strides: u32,
    vertex_buffer_offsets: u32,
    input_layout: Option<usize>,
}

impl InnerState {
    /// Shape invariant: every array spans its documented maximum, every
    /// count is within it, and every counted slot is filled.
    pub closed spec fn wf(self) -> bool {
        &&& self.scissor_rects@.len() == SCISSOR_SLOTS
        &&& self.viewports@.len() == VIEWPORT_SLOTS
        &&& self.pixel_shader_resources@.len() == SHADER_RESOURCE_SLOTS
        &&& self.samplers@.len() == SAMPLER_SLOTS
        &&& self.constant_buffers@.len() == CONSTANT_BUFFER_SLOTS
        &&& self.vertex_shader_instances@.len() == CLASS_INSTANCE_SLOTS
        &&& self.geometry_shader_instances@.len() == CLASS_INSTANCE_SLOTS
        &&& self.pixel_shader_instances@.len() == CLASS_INSTANCE_SLOTS
        &&& self.scissor_count <= SCISSOR_SLOTS
        &&& self.viewport_count <= VIEWPORT_SLOTS
        &&& self.vertex_shader_instances_count <= CLASS_INSTANCE_SLOTS
        &&& self.geometry_shader_instances_count <= CLASS_INSTANCE_SLOTS
        &&& self.pixel_shader_instances_count <= CLASS_INSTANCE_SLOTS
        &&& forall|i: int| 0 <= i < self.vertex_shader_instances_count
            ==> #[trigger] self.vertex_shader_instances@[i] is Some
        &&& forall|i: int| 0 <= i < self.geometry_shader_instances_count
            ==> #[trigger] self.geometry_shader_instances@[i] is Some
        &&& forall|i: int| 0 <= i < self.pixel_shader_instances_count
            ==> #[trigger] self.pixel_shader_instances@[i] is Some
    }

    /// A snapshot is held.
    pub closed spec fn is_saved(self) -> bool {
        self.saved
    }

    /// The component retains nothing: no snapshot, and no captured handle.
    pub closed spec fn is_clear(self) -> bool {
        &&& !self.saved
        &&& self.raster_state is None
        &&& self.blend_state is None
        &&& self.depth_stencil_state is None
        &&& self.vertex_shader is None
        &&& self.geometry_shader is None
        &&& self.pixel_shader is None
        &&& self.index_buffer is None
        &&& self.vertex_buffer is None
        &&& self.input_layout is None
        &&& forall|i: int| 0 <= i < self.pixel_shader_resources@.len()
            ==> #[trigger] self.pixel_shader_resources@[i] is None
        &&& forall|i: int| 0 <= i < self.samplers@.len()
            ==> #[trigger] self.samplers@[i] is None
        &&& forall|i: int| 0 <= i < self.constant_buffers@.len()
            ==> #[trigger] self.constant_buffers@[i] is None
        &&& forall|i: int| 0 <= i < self.vertex_shader_instances@.len()
            ==> #[trigger] self.vertex_shader_instances@[i] is None
        &&& forall|i: int| 0 <= i < self.geometry_shader_instances@.len()
            ==> #[trigger] self.geometry_shader_instances@[i] is None
        &&& forall|i: int| 0 <= i < self.pixel_shader_instances@.len()
            ==> #[trigger] self.pixel_shader_instances@[i] is None
    }
}

/// References to `h` held through the first half of the captured fields.
pub closed spec fn captured_occ_head(s: InnerState, h: usize) -> nat {
    occ_opt(s.raster_state, h) + occ_opt(s.blend_state, h) + occ_opt(s.depth_stencil_state, h)
        + occ_slots(s.pixel_shader_resources@, h) + occ_slots(s.samplers@, h)
        + occ_opt(s.vertex_shader, h) + occ_slots(s.vertex_shader_instances@, h)
        + occ_opt(s.geometry_shader, h)
}

/// References to `h` held through the second half of the captured fields.
pub closed spec fn captured_occ_tail(s: InnerState, h: usize) -> nat {
    occ_slots(s.geometry_shader_instances@, h) + occ_opt(s.pixel_shader, h)
        + occ_slots(s.pixel_shader_instances@, h) + occ_slots(s.constant_buffers@, h)
        + occ_opt(s.index_buffer, h) + occ_opt(s.vertex_buffer, h) + occ_opt(s.input_layout, h)
}

/// How many strong references to handle `h` the snapshot holds in all: one
/// per captured optional binding and one per captured slot.
pub closed spec fn captured_occ(s: InnerState, h: usize) -> nat {
    captured_occ_head(s, h) + captured_occ_tail(s, h)
}

/// Every handle the snapshot captured was issued by the device.
pub closed spec fn snap_handles_live(s: InnerState, d: Device) -> bool {
    &&& opt_live(s.raster_state, d)
    &&& opt_live(s.blend_state, d)
    &&& opt_live(s.depth_stencil_state, d)
    &&& slots_live(s.pixel_shader_resources@, d)
    &&& slots_live(s.samplers@, d)
    &&& opt_live(s.vertex_shader, d)
    &&& slots_live(s.vertex_shader_instances@, d)
    &&& opt_live(s.geometry_shader, d)
    &&& slots_live(s.geometry_shader_instances@, d)
    &&& opt_live(s.pixel_shader, d)
    &&& slots_live(s.pixel_shader_instances@, d)
    &&& slots_live(s.constant_buffers@, d)
    &&& opt_live(s.index_buffer, d)
    &&& opt_live(s.vertex_buffer, d)
    &&& opt_live(s.input_layout, d)
}

/// Snapshots stay valid as the device issues further handles.
pub proof fn lemma_snap_live_monotone(s: InnerState, d1: Device, d2: Device)
    requires
        snap_handles_live(s, d1),
        d2.n() >= d1.n(),
    ensures
        snap_handles_live(s, d2),
{
}

/// The snapshot `s` is exactly what one capture pass reads off the live
/// state `st`: equal bindings and scalars, the counted arrays holding the
/// live entries in their leading slots, the counts the live lengths.
pub closed spec fn captures(s: InnerState, st: PipelineState) -> bool {
    &&& s.saved
    &&& s.scissor_count == st.scissor_rects@.len()
    &&& s.scissor_rects@.take(st.scissor_rects@.len() as int) == st.scissor_rects@
    &&& s.viewport_count == st.viewports@.len()
    &&& s.viewports@.take(st.viewports@.len() as int) == st.viewports@
    &&& s.raster_state == st.raster_state
    &&& s.blend_state == st.blend_state
    &&& s.blend_factor == st.blend_factor
    &&& s.blend_mask == st.blend_mask
    &&& s.depth_stencil_state == st.depth_stencil_state
    &&& s.stencil_ref == st.stencil_ref
    &&& s.pixel_shader_resources@ == st.ps_resources@
    &&& s.samplers@ == st.samplers@
    &&& s.vertex_shader == st.vertex_shader
    &&& s.vertex_shader_instances_count == st.vs_instances@.len()
    &&& s.vertex_shader_instances@ == opt_wrap(st.vs_instances@, CLASS_INSTANCE_SLOTS as int)
    &&& s.geometry_shader == st.geometry_shader
    &&& s.geometry_shader_instances_count == st.gs_instances@.len()
    &&& s.geometry_shader_instances@ == opt_wrap(st.gs_instances@, CLASS_INSTANCE_SLOTS as int)
    &&& s.pixel_shader == st.pixel_shader
    &&& s.pixel_shader_instances_count == st.ps_instances@.len()
    &&& s.pixel_shader_instances@ == opt_wrap(st.ps_instances@, CLASS_INSTANCE_SLOTS as int)
    &&& s.constant_buffers@ == st.constant_buffers@
    &&& s.primitive_topology == st.primitive_topology
    &&& s.index_buffer == st.index_buffer
    &&& s.index_buffer_format == st.index_buffer_format
    &&& s.index_buffer_offset == st.index_buffer_offset
    &&& s.vertex_buffer == st.vertex_buffer
    &&& s.vertex_buffer_strides == st.vertex_buffer_stride
    &&& s.vertex_buffer_offsets == st.vertex_buffer_offset
    &&& s.input_layout == st.input_layout
}

/// What one restore pass makes of the live state `pre`, given snapshot `s`:
/// counted arrays are written back sliced to their captured counts, per-slot
/// arrays in full, and each optional state object only if it was captured —
/// a missing object leaves that one category as it was, never aborting the
/// rest of the restoration.
pub closed spec fn restore_relates(s: InnerState, pre: PipelineState, post: PipelineState) -> bool {
    &&& post.scissor_rects@ == s.scissor_rects@.take(s.scissor_count as int)
    &&& post.viewports@ == s.viewports@.take(s.viewport_count as int)
    &&& post.raster_state == (if s.raster_state is Some { s.raster_state } else { pre.raster_state })
    &&& (s.blend_state is Some ==> post.blend_state == s.blend_state
        && post.blend_factor == s.blend_factor && post.blend_mask == s.blend_mask)
    &&& (s.blend_state is None ==> post.blend_state == pre.blend_state
        && post.blend_factor == pre.blend_factor && post.blend_mask == pre.blend_mask)
    &&& (s.depth_stencil_state is Some ==> post.depth_stencil_state == s.depth_stencil_state
        && post.stencil_ref == s.stencil_ref)
    &&& (s.depth_stencil_state is None ==> post.depth_stencil_state == pre.depth_stencil_state
        && post.stencil_ref == pre.stencil_ref)
    &&& post.ps_resources@ == s.pixel_shader_resources@
    &&& post.samplers@ == s.samplers@
    &&& (s.vertex_shader is Some ==> post.vertex_shader == s.vertex_shader
        && post.vs_instances@ == somes_prefix(
            s.vertex_shader_instances@,
            s.vertex_shader_instances_count as int,
        ))
    &&& (s.vertex_shader is None ==> post.vertex_shader == pre.vertex_shader
        && post.vs_instances@ == pre.vs_instances@)
    &&& (s.geometry_shader is Some ==> post.geometry_shader == s.geometry_shader
        && post.gs_instances@ == somes_prefix(
            s.geometry_shader_instances@,
            s.geometry_shader_instances_count as int,
        ))
    &&& (s.geometry_shader is None ==> post.geometry_shader == pre.geometry_shader
        && post.gs_instances@ == pre.gs_instances@)
    &&& (s.pixel_shader is Some ==> post.pixel_shader == s.pixel_shader
        && post.ps_instances@ == somes_prefix(
            s.pixel_shader_instances@,
            s.pixel_shader_instances_count as int,
        ))
    &&& (s.pixel_shader is None ==> post.pixel_shader == pre.pixel_shader
        && post.ps_instances@ == pre.ps_instances@)
    &&& post.constant_buffers@ == s.constant_buffers@
    &&& post.primitive_topology == s.primitive_topology
    &&& (s.index_buffer is Some ==> post.index_buffer == s.index_buffer
        && post.index_buffer_format == s.index_buffer_format
        && post.index_buffer_offset == s.index_buffer_offset)
    &&& (s.index_buffer is None ==> post.index_buffer == pre.index_buffer
        && post.index_buffer_format == pre.index_buffer_format
        && post.index_buffer_offset == pre.index_buffer_offset)
    &&& post.vertex_buffer == s.vertex_buffer
    &&& post.vertex_buffer_stride == s.vertex_buffer_strides
    &&& post.vertex_buffer_offset == s.vertex_buffer_offsets
    &&& (s.input_layout is Some ==> post.input_layout == s.input_layout)
    &&& (s.input_layout is None ==> post.input_layout == pre.input_layout)
}

/// The device's counts after a capture: every handle gained one reference
/// per captured occurrence, nothing else moved.
pub open spec fn refs_bumped(pre: Device, post: Device, s: InnerState) -> bool {
    forall|h: usize| #![trigger post.rc(h)] #![trigger pre.rc(h)]
        post.rc(h) == sat_add(pre.rc(h), captured_occ(s, h))
}

/// The device's counts after a restore: every handle lost one reference
/// per captured occurrence, nothing else moved.
pub open spec fn refs_dropped(pre: Device, post: Device, s: InnerState) -> bool {
    forall|h: usize| #![trigger post.rc(h)] #![trigger pre.rc(h)]
        post.rc(h) == sat_sub(pre.rc(h), captured_occ(s, h))
}

/// No reference count is near its ceiling, so a capture's bumps are exact.
pub open spec fn counts_below_ceiling(d: Device, s: InnerState) -> bool {
    forall|h: usize| #![trigger d.rc(h)] d.rc(h) + captured_occ(s, h) <= u64::MAX
}

/// Takes one reference on an optional captured binding.
fn acquire_opt(dev: &mut Device, o: Option<usize>)
    requires
        old(dev).wf(),
        opt_live(o, *old(dev)),
    ensures
        final(dev).wf(),
        final(dev).n() == old(dev).n(),
        resources_same(*old(dev), *final(dev)),
        backbuffer_same(*old(dev), *final(dev)),
        forall|h: usize| #![trigger final(dev).rc(h)]
            final(dev).rc(h) == sat_add(old(dev).rc(h), occ_opt(o, h)),
{
    match o {
        Some(h) => dev.acquire(h),
        None => (),
    }
}

/// Takes one reference per bound slot of a captured slot array.
fn acquire_slots(dev: &mut Device, v: &Vec<Option<usize>>)
    requires
        old(dev).wf(),
        slots_live(v@, *old(dev)),
    ensures
        final(dev).wf(),
        final(dev).n() == old(dev).n(),
        resources_same(*old(dev), *final(dev)),
        backbuffer_same(*old(dev), *final(dev)),
        forall|h: usize| #![trigger final(dev).rc(h)]
            final(dev).rc(h) == sat_add(old(dev).rc(h), occ_slots(v@, h)),
{
    let ghost d0 = *dev;
    let n: usize = v.len();
    let mut i: usize = 0;
    while i < n
        invariant
            n == v@.len(),
            0 <= i <= n,
            dev.wf(),
            dev.n() == d0.n(),
            slots_live(v@, d0),
            resources_same(d0, *dev),
            backbuffer_same(d0, *dev),
            forall|h: usize| #![trigger dev.rc(h)]
                dev.rc(h) == sat_add(d0.rc(h), occ_slots(v@.take(i as int), h)),
        decreases n - i,
    {
        let ghost dmid = *dev;
        match v[i] {
            Some(h) => dev.acquire(h),
            None => (),
        }
        proof {
            assert(v@.take(i as int + 1) =~= v@.take(i as int).push(v@[i as int]));
            assert forall|h: usize| #![trigger dev.rc(h)]
                dev.rc(h) == sat_add(d0.rc(h), occ_slots(v@.take(i as int + 1), h)) by {
                lemma_occ_slots_push(v@.take(i as int), v@[i as int], h);
                assert(dmid.rc(h) == sat_add(d0.rc(h), occ_slots(v@.take(i as int), h)));
            }
        }
        i = i + 1;
    }
    proof {
        assert(v@.take(n as int) =~= v@);
    }
}

/// Releases one reference on an optional captured binding.
fn release_opt(dev: &mut Device, o: Option<usize>)
    requires
        old(dev).wf(),
        opt_live(o, *old(dev)),
    ensures
        final(dev).wf(),
        final(dev).n() == old(dev).n(),
        resources_same(*old(dev), *final(dev)),
        backbuffer_same(*old(dev), *final(dev)),
        forall|h: usize| #![trigger final(dev).rc(h)]
            final(dev).rc(h) == sat_sub(old(dev).rc(h), occ_opt(o, h)),
{
    match o {
        Some(h) => dev.release(h),
        None => (),
    }
}

/// Releases one reference per bound slot of a captured slot array.
fn release_slots(dev: &mut Device, v: &Vec<Option<usize>>)
    requires
        old(dev).wf(),
        slots_live(v@, *old(dev)),
    ensures
        final(dev).wf(),
        final(dev).n() == old(dev).n(),
        resources_same(*old(dev), *final(dev)),
        backbuffer_same(*old(dev), *final(dev)),
        forall|h: usize| #![trigger final(dev).rc(h)]
            final(dev).rc(h) == sat_sub(old(dev).rc(h), occ_slots(v@, h)),
{
    let ghost d0 = *dev;
    let n: usize = v.len();
    let mut i: usize = 0;
    while i < n
        invariant
            n == v@.len(),
            0 <= i <= n,
            dev.wf(),
            dev.n() == d0.n(),
            slots_live(v@, d0),
            resources_same(d0, *dev),
            backbuffer_same(d0, *dev),
            forall|h: usize| #![trigger dev.rc(h)]
                dev.rc(h) == sat_sub(d0.rc(h), occ_slots(v@.take(i as int), h)),
        decreases n - i,
    {
        let ghost dmid = *dev;
        match v[i] {
            Some(h) => dev.release(h),
            None => (),
        }
        proof {
            assert(v@.take(i as int + 1) =~= v@.take(i as int).push(v@[i as int]));
            assert forall|h: usize| #![trigger dev.rc(h)]
                dev.rc(h) == sat_sub(d0.rc(h), occ_slots(v@.take(i as int + 1), h)) by {
                lemma_occ_slots_push(v@.take(i as int), v@[i as int], h);
                assert(dmid.rc(h) == sat_sub(d0.rc(h), occ_slots(v@.take(i as int), h)));
            }
        }
        i = i + 1;
    }
    proof {
        assert(v@.take(n as int) =~= v@);
    }
}

/// Takes one reference per occurrence in the first half of the captured
/// fields.
#[verifier::rlimit(100)]
#[verifier::spinoff_prover]
fn acquire_captured_head(dev: &mut Device, s: &InnerState)
    requires
        old(dev).wf(),
        snap_handles_live(*s, *old(dev)),
    ensures
        final(dev).wf(),
        final(dev).n() == old(dev).n(),
        resources_same(*old(dev), *final(dev)),
        backbuffer_same(*old(dev), *final(dev)),
        forall|h: usize| #![trigger final(dev).rc(h)]
            final(dev).rc(h) == sat_add(old(dev).rc(h), captured_occ_head(*s, h)),
{
    let ghost d0 = *dev;
    acquire_opt(dev, s.raster_state);
    let ghost d1 = *dev;
    acquire_opt(dev, s.blend_state);
    let ghost d2 = *dev;
    acquire_opt(dev, s.depth_stencil_state);
    let ghost d3 = *dev;
    acquire_slots(dev, &s.pixel_shader_resources.slots);
    let ghost d4 = *dev;
    acquire_slots(dev, &s.samplers.slots);
    let ghost d5 = *dev;
    acquire_opt(dev, s.vertex_shader);
    let ghost d6 = *dev;
    acquire_slots(dev, &s.vertex_shader_instances.slots);
    let ghost d7 = *dev;
    acquire_opt(dev, s.geometry_shader);
    proof {
        assert forall|h: usize| #![trigger dev.rc(h)]
            dev.rc(h) == sat_add(d0.rc(h), captured_occ_head(*s, h)) by {
            assert(d1.rc(h) == sat_add(d0.rc(h), occ_opt(s.raster_state, h)));
            assert(d2.rc(h) == sat_add(d1.rc(h), occ_opt(s.blend_state, h)));
            assert(d3.rc(h) == sat_add(d2.rc(h), occ_opt(s.depth_stencil_state, h)));
            assert(d4.rc(h) == sat_add(d3.rc(h), occ_slots(s.pixel_shader_resources@, h)));
            assert(d5.rc(h) == sat_add(d4.rc(h), occ_slots(s.samplers@, h)));
            assert(d6.rc(h) == sat_add(d5.rc(h), occ_opt(s.vertex_shader, h)));
            assert(d7.rc(h) == sat_add(d6.rc(h), occ_slots(s.vertex_shader_instances@, h)));
            assert(dev.rc(h) == sat_add(d7.rc(h), occ_opt(s.geometry_shader, h)));
        }
    }
}

/// Takes one reference per occurrence in the second half of the captured
/// fields.
#[verifier::rlimit(100)]
#[verifier::spinoff_prover]
fn acquire_captured_tail(dev: &mut Device, s: &InnerState)
    requires
        old(dev).wf(),
        snap_handles_live(*s, *old(dev)),
    ensures
        final(dev).wf(),
        final(dev).n() == old(dev).n(),
        resources_same(*old(dev), *final(dev)),
        backbuffer_same(*old(dev), *final(dev)),
        forall|h: usize| #![trigger final(dev).rc(h)]
            final(dev).rc(h) == sat_add(old(dev).rc(h), captured_occ_tail(*s, h)),
{
    let ghost d0 = *dev;
    acquire_slots(dev, &s.geometry_shader_instances.slots);
    let ghost d1 = *dev;
    acquire_opt(dev, s.pixel_shader);
    let ghost d2 = *dev;
    acquire_slots(dev, &s.pixel_shader_instances.slots);
    let ghost d3 = *dev;
    acquire_slots(dev, &s.constant_buffers.slots);
    let ghost d4 = *dev;
    acquire_opt(dev, s.index_buffer);
    let ghost d5 = *dev;
    acquire_opt(dev, s.vertex_buffer);
    let ghost d6 = *dev;
    acquire_opt(dev, s.input_layout);
    proof {
        assert forall|h: usize| #![trigger dev.rc(h)]
            dev.rc(h) == sat_add(d0.rc(h), captured_occ_tail(*s, h)) by {
            assert(d1.rc(h) == sat_add(d0.rc(h), occ_slots(s.geometry_shader_instances@, h)));
            assert(d2.rc(h) == sat_add(d1.rc(h), occ_opt(s.pixel_shader, h)));
            assert(d3.rc(h) == sat_add(d2.rc(h), occ_slots(s.pixel_shader_instances@, h)));
            assert(d4.rc(h) == sat_add(d3.rc(h), occ_slots(s.constant_buffers@, h)));
            assert(d5.rc(h) == sat_add(d4.rc(h), occ_opt(s.index_buffer, h)));
            assert(d6.rc(h) == sat_add(d5.rc(h), occ_opt(s.vertex_buffer, h)));
            assert(dev.rc(h) == sat_add(d6.rc(h), occ_opt(s.input_layout, h)));
        }
    }
}

/// Releases one reference per occurrence in the first half of the
/// captured fields.
#[verifier::rlimit(100)]
#[verifier::spinoff_prover]
fn release_captured_head(dev: &mut Device, s: &InnerState)
    requires
        old(dev).wf(),
        snap_handles_live(*s, *old(dev)),
    ensures
        final(dev).wf(),
        final(dev).n() == old(dev).n(),
        resources_same(*old(dev), *final(dev)),
        backbuffer_same(*old(dev), *final(dev)),
        forall|h: usize| #![trigger final(dev).rc(h)]
            final(dev).rc(h) == sat_sub(old(dev).rc(h), captured_occ_head(*s, h)),
{
    let ghost d0 = *dev;
    release_opt(dev, s.raster_state);
    let ghost d1 = *dev;
    release_opt(dev, s.blend_state);
    let ghost d2 = *dev;
    release_opt(dev, s.depth_stencil_state);
    let ghost d3 = *dev;
    release_slots(dev, &s.pixel_shader_resources.slots);
    let ghost d4 = *dev;
    release_slots(dev, &s.samplers.slots);
    let ghost d5 = *dev;
    release_opt(dev, s.vertex_shader);
    let ghost d6 = *dev;
    release_slots(dev, &s.vertex_shader_instances.slots);
    let ghost d7 = *dev;
    release_opt(dev, s.geometry_shader);
    proof {
        assert forall|h: usize| #![trigger dev.rc(h)]
            dev.rc(h) == sat_sub(d0.rc(h), captured_occ_head(*s, h)) by {
            assert(d1.rc(h) == sat_sub(d0.rc(h), occ_opt(s.raster_state, h)));
            assert(d2.rc(h) == sat_sub(d1.rc(h), occ_opt(s.blend_state, h)));
            assert(d3.rc(h) == sat_sub(d2.rc(h), occ_opt(s.depth_stencil_state, h)));
            assert(d4.rc(h) == sat_sub(d3.rc(h), occ_slots(s.pixel_shader_resources@, h)));
            assert(d5.rc(h) == sat_sub(d4.rc(h), occ_slots(s.samplers@, h)));
            assert(d6.rc(h) == sat_sub(d5.rc(h), occ_opt(s.vertex_shader, h)));
            assert(d7.rc(h) == sat_sub(d6.rc(h), occ_slots(s.vertex_shader_instances@, h)));
            assert(dev.rc(h) == sat_sub(d7.rc(h), occ_opt(s.geometry_shader, h)));
        }
    }
}

/// Releases one reference per occurrence in the second half of the
/// captured fields.
#[verifier::rlimit(100)]
#[verifier::spinoff_prover]
fn release_captured_tail(dev: &mut Device, s: &InnerState)
    requires
        old(dev).wf(),
        snap_handles_live(*s, *old(dev)),
    ensures
        final(dev).wf(),
        final(dev).n() == old(dev).n(),
        resources_same(*old(dev), *final(dev)),
        backbuffer_same(*old(dev), *final(dev)),
        forall|h: usize| #![trigger final(dev).rc(h)]
            final(dev).rc(h) == sat_sub(old(dev).rc(h), captured_occ_tail(*s, h)),
{
    let ghost d0 = *dev;
    release_slots(dev, &s.geometry_shader_instances.slots);
    let ghost d1 = *dev;
    release_opt(dev, s.pixel_shader);
    let ghost d2 = *dev;
    release_slots(dev, &s.pixel_shader_instances.slots);
    let ghost d3 = *dev;
    release_slots(dev, &s.constant_buffers.slots);
    let ghost d4 = *dev;
    release_opt(dev, s.index_buffer);
    let ghost d5 = *dev;
    release_opt(dev, s.vertex_buffer);
    let ghost d6 = *dev;
    release_opt(dev, s.input_layout);
    proof {
        assert forall|h: usize| #![trigger dev.rc(h)]
            dev.rc(h) == sat_sub(d0.rc(h), captured_occ_tail(*s, h)) by {
            assert(d1.rc(h) == sat_sub(d0.rc(h), occ_slots(s.geometry_shader_instances@, h)));
            assert(d2.rc(h) == sat_sub(d1.rc(h), occ_opt(s.pixel_shader, h)));
            assert(d3.rc(h) == sat_sub(d2.rc(h), occ_slots(s.pixel_shader_instances@, h)));
            assert(d4.rc(h) == sat_sub(d3.rc(h), occ_slots(s.constant_buffers@, h)));
            assert(d5.rc(h) == sat_sub(d4.rc(h), occ_opt(s.index_buffer, h)));
            assert(d6.rc(h) == sat_sub(d5.rc(h), occ_opt(s.vertex_buffer, h)));
            assert(dev.rc(h) == sat_sub(d6.rc(h), occ_opt(s.input_layout, h)));
        }
    }
}

impl InnerState {
    /// An empty component: no snapshot held, nothing captured.
    pub fn new() -> (s: Self)
        ensures
            s.wf(),
            !s.is_saved(),
            s.is_clear(),
            forall|h: usize| captured_occ(s, h) == 0,
    {
        let s = InnerState {
            saved: false,
            scissor_rects: filled(
                SCISSOR_SLOTS,
                Rect { left: 0, top: 0, right: 0, bottom: 0 },
            ),
            scissor_count: 0,
            viewports: filled(
                VIEWPORT_SLOTS,
                Viewport {
                    top_left_x: 0,
                    top_left_y: 0,
                    width: 0,
                    height: 0,
                    min_depth: 0,
                    max_depth: 0,
                },
            ),
            viewport_count: 0,
            raster_state: None,
            blend_state: None,
            blend_factor: BlendFactor { r: 0, g: 0, b: 0, a: 0 },
            blend_mask: 0,
            depth_stencil_state: None,
            stencil_ref: 0,
            pixel_shader_resources: Array::new(SHADER_RESOURCE_SLOTS),
            samplers: Array::new(SAMPLER_SLOTS),
            vertex_shader: None,
            vertex_shader_instances: Array::new(CLASS_INSTANCE_SLOTS),
            vertex_shader_instances_count: 0,
            geometry_shader: None,
            geometry_shader_instances: Array::new(CLASS_INSTANCE_SLOTS),
            geometry_shader_instances_count: 0,
            pixel_shader: None,
            pixel_shader_instances: Array::new(CLASS_INSTANCE_SLOTS),
            pixel_shader_instances_count: 0,
            constant_buffers: Array::new(CONSTANT_BUFFER_SLOTS),
            primitive_topology: 0,
            index_buffer: None,
            index_buffer_format: 0,
            index_buffer_offset: 0,
            vertex_buffer: None,
            vertex_buffer_strides: 0,
            vertex_buffer_offsets: 0,
            input_layout: None,
        };
        proof {
            assert forall|h: usize| captured_occ(s, h) == 0 by {
                lemma_occ_slots_all_none(s.pixel_shader_resources@, h);
                lemma_occ_slots_all_none(s.samplers@, h);
                lemma_occ_slots_all_none(s.vertex_shader_instances@, h);
                lemma_occ_slots_all_none(s.geometry_shader_instances@, h);
                lemma_occ_slots_all_none(s.pixel_shader_instances@, h);
                lemma_occ_slots_all_none(s.constant_buffers@, h);
            }
        }
        s
    }
}

/// Builds the fixed-size captured form of a class-instance list: the
/// instances in the leading slots, unbound slots behind them.
fn wrap_instances(src: &Vec<usize>, n: usize) -> (v: Vec<Option<usize>>)
    requires
        src@.len() <= n,
    ensures
        v@ == opt_wrap(src@, n as int),
{
    let mut v: Vec<Option<usize>> = Vec::new();
    let len: usize = src.len();
    let mut i: usize = 0;
    while i < len
        invariant
            len == src@.len(),
            len <= n,
            0 <= i <= len,
            v@.len() == i,
            forall|j: int| 0 <= j < i ==> v@[j] == Some(src@[j]),
        decreases len - i,
    {
        v.push(Some(src[i]));
        i = i + 1;
    }
    while i < n
        invariant
            len == src@.len(),
            len <= n,
            len <= i <= n,
            v@.len() == i,
            forall|j: int| 0 <= j < len ==> v@[j] == Some(src@[j]),
            forall|j: int| len <= j < i ==> v@[j] is None,
        decreases n - i,
    {
        v.push(None);
        i = i + 1;
    }
    proof {
        assert(v@ =~= opt_wrap(src@, n as int));
    }
    v
}

/// Reads the instances back out of a captured array's counted slots.
fn unwrap_prefix(src: &Vec<Option<usize>>, n: usize) -> (v: Vec<usize>)
    requires
        n <= src@.len(),
        forall|i: int| 0 <= i < n ==> #[trigger] src@[i] is Some,
    ensures
        v@ == somes_prefix(src@, n as int),
{
    let mut v: Vec<usize> = Vec::new();
    let mut i: usize = 0;
    while i < n
        invariant
            n <= src@.len(),
            forall|k: int| 0 <= k < n ==> #[trigger] src@[k] is Some,
            0 <= i <= n,
            v@.len() == i,
            forall|j: int| 0 <= j < i ==> v@[j] == src@[j]->Some_0,
        decreases n - i,
    {
        let entry = src[i];
        match entry {
            Some(h) => v.push(h),
            None => v.push(0),
        }
        i = i + 1;
    }
    proof {
        assert(v@ =~= somes_prefix(src@, n as int));
    }
    v
}

impl InnerState {
    /// Captures the complete current state of the context into this
    /// component, taking one strong reference on every captured object,
    /// and leaving the context itself untouched.
    #[verifier::rlimit(100)]
    #[verifier::spinoff_prover]
    pub fn save(&mut self, dev: &mut Device, ctx: &DeviceContext)
        requires
            old(dev).wf(),
            ctx.state.wf(),
            state_handles_live(ctx.state, *old(dev)),
        ensures
            final(self).wf(),
            final(self).is_saved(),
            captures(*final(self), ctx.state),
            final(dev).wf(),
            final(dev).n() == old(dev).n(),
            resources_same(*old(dev), *final(dev)),
            backbuffer_same(*old(dev), *final(dev)),
            refs_bumped(*old(dev), *final(dev), *final(self)),
            snap_handles_live(*final(self), *final(dev)),
    {
        let st = &ctx.state;
        self.saved = true;
        self.scissor_count = st.scissor_rects.len() as u32;
        self.scissor_rects = padded(
            &st.scissor_rects,
            SCISSOR_SLOTS,
            Rect { left: 0, top: 0, right: 0, bottom: 0 },
        );
        self.viewport_count = st.viewports.len() as u32;
        self.viewports = padded(
            &st.viewports,
            VIEWPORT_SLOTS,
            Viewport {
                top_left_x: 0,
                top_left_y: 0,
                width: 0,
                height: 0,
                min_depth: 0,
                max_depth: 0,
            },
        );
        self.raster_state = st.raster_state;
        self.blend_state = st.blend_state;
        self.blend_factor = st.blend_factor;
        self.blend_mask = st.blend_mask;
        self.depth_stencil_state = st.depth_stencil_state;
        self.stencil_ref = st.stencil_ref;
        self.pixel_shader_resources = Array { slots: copy_vec(&st.ps_resources) };
        self.samplers = Array { slots: copy_vec(&st.samplers) };
        self.vertex_shader = st.vertex_shader;
        self.vertex_shader_instances_count = st.vs_instances.len() as u32;
        self.vertex_shader_instances = Array { slots: wrap_instances(&st.vs_instances, CLASS_INSTANCE_SLOTS) };
        self.geometry_shader = st.geometry_shader;
        self.geometry_shader_instances_count = st.gs_instances.len() as u32;
        self.geometry_shader_instances = Array { slots: wrap_instances(&st.gs_instances, CLASS_INSTANCE_SLOTS) };
        self.pixel_shader = st.pixel_shader;
        self.pixel_shader_instances_count = st.ps_instances.len() as u32;
        self.pixel_shader_instances = Array { slots: wrap_instances(&st.ps_instances, CLASS_INSTANCE_SLOTS) };
        self.constant_buffers = Array { slots: copy_vec(&st.constant_buffers) };
        self.primitive_topology = st.primitive_topology;
        self.index_buffer = st.index_buffer;
        self.index_buffer_format = st.index_buffer_format;
        self.index_buffer_offset = st.index_buffer_offset;
        self.vertex_buffer = st.vertex_buffer;
        self.vertex_buffer_strides = st.vertex_buffer_stride;
        self.vertex_buffer_offsets = st.vertex_buffer_offset;
        self.input_layout = st.input_layout;

        proof {
            assert forall|i: int| #![trigger self.vertex_shader_instances@[i]]
                0 <= i < self.vertex_shader_instances@.len()
                implies opt_live(self.vertex_shader_instances@[i], *dev) by {
                if self.vertex_shader_instances@[i] is Some {
                    assert(st.vs_instances@[i] < dev.n());
                }
            }
            assert forall|i: int| #![trigger self.geometry_shader_instances@[i]]
                0 <= i < self.geometry_shader_instances@.len()
                implies opt_live(self.geometry_shader_instances@[i], *dev) by {
                if self.geometry_shader_instances@[i] is Some {
                    assert(st.gs_instances@[i] < dev.n());
                }
            }
            assert forall|i: int| #![trigger self.pixel_shader_instances@[i]]
                0 <= i < self.pixel_shader_instances@.len()
                implies opt_live(self.pixel_shader_instances@[i], *dev) by {
                if self.pixel_shader_instances@[i] is Some {
                    assert(st.ps_instances@[i] < dev.n());
                }
            }
        }

        proof {
            assert(snap_handles_live(*self, *dev));
        }
        let ghost d0 = *dev;
        acquire_captured_head(dev, self);
        let ghost dm = *dev;
        acquire_captured_tail(dev, self);
        proof {
            assert forall|h: usize| #![trigger dev.rc(h)]
                dev.rc(h) == sat_add(d0.rc(h), captured_occ(*self, h)) by {
                assert(dm.rc(h) == sat_add(d0.rc(h), captured_occ_head(*self, h)));
                assert(dev.rc(h) == sat_add(dm.rc(h), captured_occ_tail(*self, h)));
            }
        }
    }

    /// Writes the captured state back onto the context, slicing counted
    /// arrays to their captured counts and skipping any state object that
    /// was absent at capture time.
    #[verifier::rlimit(100)]
    #[verifier::spinoff_prover]
    fn write_back(&self, ctx: &mut DeviceContext)
        requires
            self.wf(),
            old(ctx).state.wf(),
        ensures
            restore_relates(*self, old(ctx).state, final(ctx).state),
            final(ctx).state.wf(),
            final(ctx).draws@ == old(ctx).draws@,
            final(ctx).render_target == old(ctx).render_target,
    {
        ctx.state.scissor_rects = prefix_of(&self.scissor_rects, self.scissor_count as usize);
        ctx.state.viewports = prefix_of(&self.viewports, self.viewport_count as usize);
        match self.raster_state {
            Some(h) => {
                ctx.state.raster_state = Some(h);
            }
            None => (),
        }
        match self.blend_state {
            Some(h) => {
                ctx.state.blend_state = Some(h);
                ctx.state.blend_factor = self.blend_factor;
                ctx.state.blend_mask = self.blend_mask;
            }
            None => (),
        }
        match self.depth_stencil_state {
            Some(h) => {
                ctx.state.depth_stencil_state = Some(h);
                ctx.state.stencil_ref = self.stencil_ref;
            }
            None => (),
        }
        ctx.state.ps_resources = copy_vec(&self.pixel_shader_resources.slots);
        ctx.state.samplers = copy_vec(&self.samplers.slots);
        match self.vertex_shader {
            Some(h) => {
                ctx.state.vertex_shader = Some(h);
                ctx.state.vs_instances = unwrap_prefix(
                    &self.vertex_shader_instances.slots,
                    self.vertex_shader_instances_count as usize,
                );
            }
            None => (),
        }
        match self.geometry_shader {
            Some(h) => {
                ctx.state.geometry_shader = Some(h);
                ctx.state.gs_instances = unwrap_prefix(
                    &self.geometry_shader_instances.slots,
                    self.geometry_shader_instances_count as usize,
                );
            }
            None => (),
        }
        match self.pixel_shader {
            Some(h) => {
                ctx.state.pixel_shader = Some(h);
                ctx.state.ps_instances = unwrap_prefix(
                    &self.pixel_shader_instances.slots,
                    self.pixel_shader_instances_count as usize,
                );
            }
            None => (),
        }
        ctx.state.constant_buffers = copy_vec(&self.constant_buffers.slots);
        ctx.state.primitive_topology = self.primitive_topology;
        match self.index_buffer {
            Some(h) => {
                ctx.state.index_buffer = Some(h);
                ctx.state.index_buffer_format = self.index_buffer_format;
                ctx.state.index_buffer_offset = self.index_buffer_offset;
            }
            None => (),
        }
        ctx.state.vertex_buffer = self.vertex_buffer;
        ctx.state.vertex_buffer_stride = self.vertex_buffer_strides;
        ctx.state.vertex_buffer_offset = self.vertex_buffer_offsets;
        match self.input_layout {
            Some(h) => {
                ctx.state.input_layout = Some(h);
            }
            None => (),
        }
    }

    /// Releases every strong reference the capture took, exactly once per
    /// captured occurrence.
    #[verifier::rlimit(100)]
    #[verifier::spinoff_prover]
    fn release_captured(&self, dev: &mut Device)
        requires
            old(dev).wf(),
            snap_handles_live(*self, *old(dev)),
        ensures
            final(dev).wf(),
            final(dev).n() == old(dev).n(),
            resources_same(*old(dev), *final(dev)),
            backbuffer_same(*old(dev), *final(dev)),
            refs_dropped(*old(dev), *final(dev), *self),
    {
        let ghost d0 = *dev;
        release_captured_head(dev, self);
        let ghost dm = *dev;
        release_captured_tail(dev, self);
        proof {
            assert forall|h: usize| #![trigger dev.rc(h)]
                dev.rc(h) == sat_sub(d0.rc(h), captured_occ(*self, h)) by {
                assert(dm.rc(h) == sat_sub(d0.rc(h), captured_occ_head(*self, h)));
                assert(dev.rc(h) == sat_sub(dm.rc(h), captured_occ_tail(*self, h)));
            }
        }
    }

    /// Forgets the snapshot: afterwards the component retains nothing.
    #[verifier::rlimit(100)]
    #[verifier::spinoff_prover]
    fn clear(&mut self)
        ensures
            final(self).wf(),
            final(self).is_clear(),
            forall|h: usize| captured_occ(*final(self), h) == 0,
    {
        self.saved = false;
        self.scissor_rects = filled(
            SCISSOR_SLOTS,
            Rect { left: 0, top: 0, right: 0, bottom: 0 },
        );
        self.scissor_count = 0;
        self.viewports = filled(
            VIEWPORT_SLOTS,
            Viewport {
                top_left_x: 0,
                top_left_y: 0,
                width: 0,
                height: 0,
                min_depth: 0,
                max_depth: 0,
            },
        );
        self.viewport_count = 0;
        self.raster_state = None;
        self.blend_state = None;
        self.depth_stencil_state = None;
        self.vertex_shader = None;
        self.vertex_shader_instances = Array::new(CLASS_INSTANCE_SLOTS);
        self.vertex_shader_instances_count = 0;
        self.geometry_shader = None;
        self.geometry_shader_instances = Array::new(CLASS_INSTANCE_SLOTS);
        self.geometry_shader_instances_count = 0;
        self.pixel_shader = None;
        self.pixel_shader_instances = Array::new(CLASS_INSTANCE_SLOTS);
        self.pixel_shader_instances_count = 0;
        self.pixel_shader_resources = Array::new(SHADER_RESOURCE_SLOTS);
        self.samplers = Array::new(SAMPLER_SLOTS);
        self.constant_buffers = Array::new(CONSTANT_BUFFER_SLOTS);
        self.index_buffer = None;
        self.vertex_buffer = None;
        self.input_layout = None;

        proof {
            assert forall|h: usize| captured_occ(*self, h) == 0 by {
                lemma_occ_slots_all_none(self.pixel_shader_resources@, h);
                lemma_occ_slots_all_none(self.samplers@, h);
                lemma_occ_slots_all_none(self.vertex_shader_instances@, h);
                lemma_occ_slots_all_none(self.geometry_shader_instances@, h);
                lemma_occ_slots_all_none(self.pixel_shader_instances@, h);
                lemma_occ_slots_all_none(self.constant_buffers@, h);
            }
        }
    }

    /// Reapplies the captured snapshot to the context, releases every
    /// strong reference the capture took — exactly once per captured
    /// occurrence — and leaves the component empty.  Without a prior
    /// `save` this reports the misuse and changes nothing.
    #[verifier::rlimit(100)]
    #[verifier::spinoff_prover]
    pub fn restore(&mut self, dev: &mut Device, ctx: &mut DeviceContext) -> (r: Result<
        (),
        OverlayError,
    >)
        requires
            old(self).wf(),
            old(dev).wf(),
            old(ctx).state.wf(),
            snap_handles_live(*old(self), *old(dev)),
        ensures
            final(self).wf(),
            r is Ok <==> old(self).is_saved(),
            old(self).is_saved() ==> !final(self).is_saved(),
            !old(self).is_saved() ==> *final(self) == *old(self) && *final(dev) == *old(dev)
                && *final(ctx) == *old(ctx) && r == Result::<(), OverlayError>::Err(
                OverlayError::RestoreWithoutSave,
            ),
            old(self).is_saved() ==> {
                &&& final(self).is_clear()
                &&& forall|h: usize| captured_occ(*final(self), h) == 0
                &&& restore_relates(*old(self), old(ctx).state, final(ctx).state)
                &&& final(ctx).state.wf()
                &&& final(ctx).draws@ == old(ctx).draws@
                &&& final(ctx).render_target == old(ctx).render_target
                &&& final(dev).wf()
                &&& final(dev).n() == old(dev).n()
                &&& resources_same(*old(dev), *final(dev))
                &&& backbuffer_same(*old(dev), *final(dev))
                &&& refs_dropped(*old(dev), *final(dev), *old(self))
            },
    {
        if !self.saved {
            return Err(OverlayError::RestoreWithoutSave);
        }
        self.write_back(ctx);
        self.release_captured(dev);
        self.clear();
        Ok(())
    }
}

/// The pipeline-state preservation component.  `save` and `restore` are
/// paired one to one around each frame's draws.
pub struct BackupState {
    inner: InnerState,
}

impl BackupState {
    /// The snapshot currently held.
    pub closed spec fn snapshot(self) -> InnerState {
        self.inner
    }

    pub closed spec fn wf(self) -> bool {
        self.inner.wf()
    }

    pub closed spec fn is_saved(self) -> bool {
        self.inner.is_saved()
    }

    pub fn new() -> (b: Self)
        ensures
            b.wf(),
            !b.is_saved(),
            b.snapshot().is_clear(),
            forall|h: usize| captured_occ(b.snapshot(), h) == 0,
    {
        BackupState { inner: InnerState::new() }
    }

    /// Captures the complete current device state; see `InnerState::save`.
    pub fn save(&mut self, dev: &mut Device, ctx: &DeviceContext)
        requires
            old(dev).wf(),
            ctx.state.wf(),
            state_handles_live(ctx.state, *old(dev)),
        ensures
            final(self).wf(),
            final(self).is_saved(),
            captures(final(self).snapshot(), ctx.state),
            final(dev).wf(),
            final(dev).n() == old(dev).n(),
            resources_same(*old(dev), *final(dev)),
            backbuffer_same(*old(dev), *final(dev)),
            refs_bumped(*old(dev), *final(dev), final(self).snapshot()),
            snap_handles_live(final(self).snapshot(), *final(dev)),
    {
        self.inner.save(dev, ctx);
    }

    /// Reapplies the held snapshot and releases every captured reference;
    /// see `InnerState::restore`.
    pub fn restore(&mut self, dev: &mut Device, ctx: &mut DeviceContext) -> (r: Result<
        (),
        OverlayError,
    >)
        requires
            old(self).wf(),
            old(dev).wf(),
            old(ctx).state.wf(),
            snap_handles_live(old(self).snapshot(), *old(dev)),
        ensures
            final(self).wf(),
            r is Ok <==> old(self).is_saved(),
            old(self).is_saved() ==> !final(self).is_saved(),
            !old(self).is_saved() ==> *final(self) == *old(self) && *final(dev) == *old(dev)
                && *final(ctx) == *old(ctx) && r == Result::<(), OverlayError>::Err(
                OverlayError::RestoreWithoutSave,
            ),
            old(self).is_saved() ==> {
                &&& final(self).snapshot().is_clear()
                &&& forall|h: usize| captured_occ(final(self).snapshot(), h) == 0
                &&& restore_relates(old(self).snapshot(), old(ctx).state, final(ctx).state)
                &&& final(ctx).state.wf()
                &&& final(ctx).draws@ == old(ctx).draws@
                &&& final(ctx).render_target == old(ctx).render_target
                &&& final(dev).wf()
                &&& final(dev).n() == old(dev).n()
                &&& resources_same(*old(dev), *final(dev))
                &&& backbuffer_same(*old(dev), *final(dev))
                &&& refs_dropped(*old(dev), *final(dev), old(self).snapshot())
            },
    {
        self.inner.restore(dev, ctx)
    }
}

impl Default for BackupState {
    /// An empty component, as each application instance starts with.
    fn default() -> (b: Self)
        ensures
            b.wf(),
            !b.is_saved(),
    {
        BackupState::new()
    }
}

/// State round-trip: a snapshot captured from state `st` and restored over
/// that same, unchanged state reproduces `st` slot for slot, counts
/// included — whatever `st` was.
pub proof fn lemma_save_restore_round_trip(s: InnerState, st: PipelineState, post: PipelineState)
    requires
        st.wf(),
        captures(s, st),
        restore_relates(s, st, post),
    ensures
        same_state(post, st),
{
    assert(post.scissor_rects@ == st.scissor_rects@);
    assert(post.viewports@ == st.viewports@);
    if st.vertex_shader is Some {
        assert(post.vs_instances@ =~= st.vs_instances@);
    }
    if st.geometry_shader is Some {
        assert(post.gs_instances@ =~= st.gs_instances@);
    }
    if st.pixel_shader is Some {
        assert(post.ps_instances@ =~= st.ps_instances@);
    }
}

/// After a restore the host sees every captured category of its state
/// again, whatever transient configuration was applied in between: the
/// unconditionally restored categories outright, and every optional state
/// object that was bound at capture time.
pub proof fn lemma_restore_preserves_host_state(
    s: InnerState,
    st: PipelineState,
    transient: PipelineState,
    post: PipelineState,
)
    requires
        st.wf(),
        captures(s, st),
        restore_relates(s, transient, post),
    ensures
        crate::device::captured_state_restored(st, post),
{
    assert(post.scissor_rects@ == st.scissor_rects@);
    assert(post.viewports@ == st.viewports@);
    if st.vertex_shader is Some {
        assert(post.vs_instances@ =~= st.vs_instances@);
    }
    if st.geometry_shader is Some {
        assert(post.gs_instances@ =~= st.gs_instances@);
    }
    if st.pixel_shader is Some {
        assert(post.ps_instances@ =~= st.ps_instances@);
    }
}

/// Reference hygiene, one cycle: a capture's bumps followed by the paired
/// restore's drops leave every strong-reference count exactly where it
/// began, provided no count was at its ceiling.
pub proof fn lemma_cycle_preserves_refcounts(d0: Device, d1: Device, d2: Device, s: InnerState)
    requires
        refs_bumped(d0, d1, s),
        refs_dropped(d1, d2, s),
        counts_below_ceiling(d0, s),
    ensures
        refs_same(d0, d2),
{
    assert forall|h: usize| #![trigger d2.rc(h)] d2.rc(h) == d0.rc(h) by {
        assert(d1.rc(h) == sat_add(d0.rc(h), captured_occ(s, h)));
        assert(d2.rc(h) == sat_sub(d1.rc(h), captured_occ(s, h)));
        assert(d0.rc(h) + captured_occ(s, h) <= u64::MAX);
    }
}

/// A chain of save/restore cycles, each pairing one capture's bumps with
/// its restore's drops, from `d0` to `dend`.
pub open spec fn cycle_chain(d0: Device, dend: Device, snaps: Seq<InnerState>) -> bool
    decreases snaps.len(),
{
    if snaps.len() == 0 {
        refs_same(d0, dend)
    } else {
        exists|d1: Device, d2: Device|
            #![auto]
            refs_bumped(d0, d1, snaps.first()) && refs_dropped(d1, d2, snaps.first())
                && counts_below_ceiling(d0, snaps.first()) && cycle_chain(d2, dend, snaps.drop_first())
    }
}

/// Reference hygiene, any number of cycles: across a whole chain of
/// save/restore cycles no strong-reference count changes at all, so none
/// can grow monotonically however many frames pass.
pub proof fn lemma_cycles_preserve_refcounts(d0: Device, dend: Device, snaps: Seq<InnerState>)
    requires
        cycle_chain(d0, dend, snaps),
    ensures
        refs_same(d0, dend),
    decreases snaps.len(),
{
    if snaps.len() == 0 {
    } else {
        let (d1, d2) = choose|d1: Device, d2: Device|
            #![auto]
            refs_bumped(d0, d1, snaps.first()) && refs_dropped(d1, d2, snaps.first())
                && counts_below_ceiling(d0, snaps.first()) && cycle_chain(
                d2,
                dend,
                snaps.drop_first(),
            );
        lemma_cycle_preserves_refcounts(d0, d1, d2, snaps.first());
        lemma_cycles_preserve_refcounts(d2, dend, snaps.drop_first());
        assert forall|h: usize| #![trigger dend.rc(h)] dend.rc(h) == d0.rc(h) by {
            assert(d2.rc(h) == d0.rc(h));
            assert(dend.rc(h) == d2.rc(h));
        }
    }
}

} // verus!
