use vstd::prelude::*;
use crate::mesh::GpuVertex;
use crate::types::{
    BlendFactor, BlendStateDesc, RasterizerStateDesc, Rect, Rgba8, SamplerStateDesc, Viewport,
    CONSTANT_BUFFER_SLOTS, CLASS_INSTANCE_SLOTS, SAMPLER_SLOTS, SCISSOR_SLOTS,
    SHADER_RESOURCE_SLOTS, VIEWPORT_SLOTS,
};

verus! {

/// Bumps a strong-reference count, saturating at the top so the operation
/// is total; real counts never come near the bound.
pub open spec fn sat_add(c: u64, n: nat) -> u64 {
    if c + n > u64::MAX { u64::MAX } else { (c + n) as u64 }
}

/// Drops a strong-reference count, saturating at zero: dropping a
/// reference that is not held leaves the count at zero.
pub open spec fn sat_sub(c: u64, n: nat) -> u64 {
    if n > c { 0 } else { (c - n) as u64 }
}

/// The pixels a GPU texture currently holds, with its dimensions.
#[derive(Clone, PartialEq, Eq, Debug)]
pub struct TextureData {
    pub width: usize,
    pub height: usize,
    pub pixels: Vec<Rgba8>,
}

/// What a device handle designates.  A handle, once issued, is never
/// reused; a record whose reference count has dropped to zero is inert.
#[derive(Clone, PartialEq, Eq, Debug)]
pub enum Resource {
    Texture(TextureData),
    ShaderResourceView { texture: usize },
    RenderTargetView { generation: u64 },
    VertexBuffer(Vec<GpuVertex>),
    IndexBuffer(Vec<u8>),
    BlendState(BlendStateDesc),
    RasterizerState(RasterizerStateDesc),
    SamplerState(SamplerStateDesc),
    VertexShader(Vec<u8>),
    PixelShader(Vec<u8>),
    InputLayout(Vec<u8>),
    /// An object the host created; the overlay only ever sees its handle.
    HostObject,
}

/// The graphics device: every object it has issued, one strong-reference
/// count per object, and the swapchain backbuffer's bookkeeping.
///
/// Reference counts track the references that this crate's components and
/// the host hold; a count reaches zero exactly when every holder has
/// released the object once per reference taken.
pub struct Device {
    counts: Vec<u64>,
    resources: Vec<Resource>,
    backbuffer_generation: u64,
    backbuffer_views: u64,
}

/// All reference counts except that of `h` agree between `pre` and `post`.
pub open spec fn refs_same_except(pre: Device, post: Device, h: usize) -> bool {
    forall|x: usize| #![trigger post.rc(x)] #![trigger pre.rc(x)] x != h ==> post.rc(x) == pre.rc(x)
}

/// All reference counts agree between `pre` and `post`.
pub open spec fn refs_same(pre: Device, post: Device) -> bool {
    forall|x: usize| #![trigger post.rc(x)] #![trigger pre.rc(x)] post.rc(x) == pre.rc(x)
}

/// Every resource record agrees between `pre` and `post`.
pub open spec fn resources_same(pre: Device, post: Device) -> bool {
    forall|x: usize| #![trigger post.res(x)] #![trigger pre.res(x)] post.res(x) == pre.res(x)
}

/// Resource records agree between `pre` and `post` except at `h`.
pub open spec fn resources_same_except(pre: Device, post: Device, h: usize) -> bool {
    forall|x: usize| #![trigger post.res(x)] #![trigger pre.res(x)] x != h ==> post.res(x) == pre.res(x)
}

/// The backbuffer generation and its live-view count agree.
pub open spec fn backbuffer_same(pre: Device, post: Device) -> bool {
    post.generation() == pre.generation()
        && post.views_on_backbuffer() == pre.views_on_backbuffer()
}

impl Device {
    /// Number of handles ever issued; handles are dense indices below this.
    pub closed spec fn n(self) -> nat {
        self.resources@.len()
    }

    /// One reference count per issued handle.
    pub closed spec fn wf(self) -> bool {
        self.counts@.len() == self.resources@.len()
    }

    /// Strong-reference count of handle `h`; zero for a handle never issued.
    pub closed spec fn rc(self, h: usize) -> u64 {
        if h < self.counts@.len() { self.counts@[h as int] } else { 0 }
    }

    /// The record handle `h` designates, if `h` has been issued.
    pub closed spec fn res(self, h: usize) -> Option<Resource> {
        if h < self.resources@.len() { Some(self.resources@[h as int]) } else { None }
    }

    /// How often the backbuffer has been reallocated.
    pub closed spec fn generation(self) -> u64 {
        self.backbuffer_generation
    }

    /// How many render-target views onto the current backbuffer are alive.
    pub closed spec fn views_on_backbuffer(self) -> u64 {
        self.backbuffer_views
    }

    pub fn new() -> (d: Self)
        ensures
            d.wf(),
            d.n() == 0,
            d.generation() == 0,
            d.views_on_backbuffer() == 0,
            forall|h: usize| #![trigger d.rc(h)] d.rc(h) == 0,
    {
        Device {
            counts: Vec::new(),
            resources: Vec::new(),
            backbuffer_generation: 0,
            backbuffer_views: 0,
        }
    }

    /// Issues a fresh handle for a newly created object, with one strong
    /// reference held by the creator.
    pub(crate) fn create(&mut self, r: Resource) -> (h: usize)
        requires
            old(self).wf(),
            old(self).n() < usize::MAX,
        ensures
            final(self).wf(),
            h == old(self).n(),
            final(self).n() == old(self).n() + 1,
            final(self).rc(h) == 1,
            final(self).res(h) == Some(r),
            refs_same_except(*old(self), *final(self), h),
            resources_same_except(*old(self), *final(self), h),
            backbuffer_same(*old(self), *final(self)),
    {
        let h = self.resources.len();
        self.resources.push(r);
        self.counts.push(1);
        h
    }

    /// An object fabricated by the host, of which the overlay knows only
    /// the handle.
    pub fn create_host_object(&mut self) -> (h: usize)
        requires
            old(self).wf(),
            old(self).n() < usize::MAX,
        ensures
            final(self).wf(),
            h == old(self).n(),
            final(self).n() == old(self).n() + 1,
            final(self).rc(h) == 1,
            final(self).res(h) == Some(Resource::HostObject),
            refs_same_except(*old(self), *final(self), h),
            resources_same_except(*old(self), *final(self), h),
            backbuffer_same(*old(self), *final(self)),
    {
        self.create(Resource::HostObject)
    }

    /// Takes one more strong reference on `h`, as a device getter does when
    /// it hands an object out.
    pub(crate) fn acquire(&mut self, h: usize)
        requires
            old(self).wf(),
            h < old(self).n(),
        ensures
            final(self).wf(),
            final(self).n() == old(self).n(),
            final(self).rc(h) == sat_add(old(self).rc(h), 1),
            refs_same_except(*old(self), *final(self), h),
            resources_same(*old(self), *final(self)),
            backbuffer_same(*old(self), *final(self)),
    {
        let c: u64 = self.counts[h];
        if c < u64::MAX {
            self.counts.set(h, c + 1);
        }
    }

    /// Releases one strong reference on `h`.
    pub(crate) fn release(&mut self, h: usize)
        requires
            old(self).wf(),
            h < old(self).n(),
        ensures
            final(self).wf(),
            final(self).n() == old(self).n(),
            final(self).rc(h) == sat_sub(old(self).rc(h), 1),
            refs_same_except(*old(self), *final(self), h),
            resources_same(*old(self), *final(self)),
            backbuffer_same(*old(self), *final(self)),
    {
        let c: u64 = self.counts[h];
        if c > 0 {
            self.counts.set(h, c - 1);
        }
    }

    /// Replaces the pixels of an existing texture, as one mapped write of
    /// the full region does.
    pub(crate) fn write_texture(&mut self, h: usize, pixels: Vec<Rgba8>)
        requires
            old(self).wf(),
            old(self).res(h) matches Some(Resource::Texture(t))
                && pixels@.len() == t.pixels@.len(),
        ensures
            final(self).wf(),
            final(self).n() == old(self).n(),
            final(self).res(h) matches Some(Resource::Texture(t2))
                && t2.width == old(self).res(h)->Some_0->Texture_0.width
                && t2.height == old(self).res(h)->Some_0->Texture_0.height
                && t2.pixels@ == pixels@,
            refs_same(*old(self), *final(self)),
            resources_same_except(*old(self), *final(self), h),
            backbuffer_same(*old(self), *final(self)),
    {
        let (w, hgt) = match &self.resources[h] {
            Resource::Texture(t) => (t.width, t.height),
            _ => (0, 0),
        };
        self.resources.set(h, Resource::Texture(TextureData { width: w, height: hgt, pixels }));
    }

    /// Creates a view onto the current backbuffer.  The view pins the
    /// backbuffer: while any such view is alive the backbuffer cannot be
    /// reallocated.
    pub fn create_render_target_view(&mut self) -> (h: usize)
        requires
            old(self).wf(),
            old(self).n() < usize::MAX,
            old(self).views_on_backbuffer() < u64::MAX,
        ensures
            final(self).wf(),
            h == old(self).n(),
            final(self).n() == old(self).n() + 1,
            final(self).rc(h) == 1,
            final(self).res(h) == Some(Resource::RenderTargetView {
                generation: old(self).generation(),
            }),
            refs_same_except(*old(self), *final(self), h),
            resources_same_except(*old(self), *final(self), h),
            final(self).generation() == old(self).generation(),
            final(self).views_on_backbuffer() == old(self).views_on_backbuffer() + 1,
    {
        let generation = self.backbuffer_generation;
        let h = self.create(Resource::RenderTargetView { generation });
        self.backbuffer_views = self.backbuffer_views + 1;
        h
    }

    /// Releases a view onto the current backbuffer.
    pub fn release_render_target_view(&mut self, h: usize)
        requires
            old(self).wf(),
            old(self).res(h) == Some(Resource::RenderTargetView {
                generation: old(self).generation(),
            }),
            old(self).views_on_backbuffer() > 0,
        ensures
            final(self).wf(),
            final(self).n() == old(self).n(),
            final(self).rc(h) == sat_sub(old(self).rc(h), 1),
            refs_same_except(*old(self), *final(self), h),
            resources_same(*old(self), *final(self)),
            final(self).generation() == old(self).generation(),
            final(self).views_on_backbuffer() == old(self).views_on_backbuffer() - 1,
    {
        self.release(h);
        self.backbuffer_views = self.backbuffer_views - 1;
    }

    /// Reallocates the backbuffer, as the host's resize does.  The device
    /// refuses this while any render-target view still pins the old
    /// backbuffer, which is why a caller must release its view first.
    pub fn resize_backbuffer(&mut self)
        requires
            old(self).wf(),
            old(self).views_on_backbuffer() == 0,
            old(self).generation() < u64::MAX,
        ensures
            final(self).wf(),
            final(self).n() == old(self).n(),
            refs_same(*old(self), *final(self)),
            resources_same(*old(self), *final(self)),
            final(self).generation() == old(self).generation() + 1,
            final(self).views_on_backbuffer() == 0,
    {
        self.backbuffer_generation = self.backbuffer_generation + 1;
    }

    /// The strong-reference count of `h`, for callers that watch for leaks.
    pub fn refcount_of(&self, h: usize) -> (c: u64)
        ensures
            c == self.rc(h),
    {
        if h < self.counts.len() { self.counts[h] } else { 0 }
    }

    /// How many handles the device has issued so far.
    pub fn handle_count(&self) -> (n: usize)
        ensures
            n == self.n(),
    {
        self.resources.len()
    }

    /// The current backbuffer generation, for callers that track resizes.
    pub fn current_generation(&self) -> (g: u64)
        ensures
            g == self.generation(),
    {
        self.backbuffer_generation
    }

    /// How many render-target views onto the current backbuffer are alive.
    pub fn live_backbuffer_views(&self) -> (v: u64)
        ensures
            v == self.views_on_backbuffer(),
    {
        self.backbuffer_views
    }

    /// The bytes of the index buffer behind `h`, if `h` is one.
    pub fn index_buffer_contents(&self, h: usize) -> (r: Option<&Vec<u8>>)
        ensures
            r.is_some() <==> (self.res(h) matches Some(Resource::IndexBuffer(b))),
            r matches Some(p) ==> (self.res(h) matches Some(Resource::IndexBuffer(b))
                && p@ == b@),
    {
        if h < self.resources.len() {
            match &self.resources[h] {
                Resource::IndexBuffer(b) => Some(b),
                _ => None,
            }
        } else {
            None
        }
    }

    /// The vertices of the vertex buffer behind `h`, if `h` is one.
    pub fn vertex_buffer_contents(&self, h: usize) -> (r: Option<&Vec<GpuVertex>>)
        ensures
            r.is_some() <==> (self.res(h) matches Some(Resource::VertexBuffer(v))),
            r matches Some(p) ==> (self.res(h) matches Some(Resource::VertexBuffer(v))
                && p@ == v@),
    {
        if h < self.resources.len() {
            match &self.resources[h] {
                Resource::VertexBuffer(v) => Some(v),
                _ => None,
            }
        } else {
            None
        }
    }

    /// The pixels of the texture behind `h`, if `h` is a texture.
    pub fn texture_contents(&self, h: usize) -> (r: Option<&Vec<Rgba8>>)
        ensures
            r.is_some() <==> (self.res(h) matches Some(Resource::Texture(t))),
            r matches Some(p) ==> (self.res(h) matches Some(Resource::Texture(t))
                && p@ == t.pixels@),
    {
        if h < self.resources.len() {
            match &self.resources[h] {
                Resource::Texture(t) => Some(&t.pixels),
                _ => None,
            }
        } else {
            None
        }
    }
}

/// The live, host-visible fixed-function and shader-binding state of the
/// device's immediate context: exactly the categories the preservation
/// protocol captures and restores.
pub struct PipelineState {
    pub scissor_rects: Vec<Rect>,
    pub viewports: Vec<Viewport>,
    pub raster_state: Option<usize>,
    pub blend_state: Option<usize>,
    pub blend_factor: BlendFactor,
    pub blend_mask: u32,
    pub depth_stencil_state: Option<usize>,
    pub stencil_ref: u32,
    pub ps_resources: Vec<Option<usize>>,
    pub samplers: Vec<Option<usize>>,
    pub vertex_shader: Option<usize>,
    pub vs_instances: Vec<usize>,
    pub geometry_shader: Option<usize>,
    pub gs_instances: Vec<usize>,
    pub pixel_shader: Option<usize>,
    pub ps_instances: Vec<usize>,
    pub constant_buffers: Vec<Option<usize>>,
    pub primitive_topology: u32,
    pub index_buffer: Option<usize>,
    pub index_buffer_format: u32,
    pub index_buffer_offset: u32,
    pub vertex_buffer: Option<usize>,
    pub vertex_buffer_stride: u32,
    pub vertex_buffer_offset: u32,
    pub input_layout: Option<usize>,
}

impl PipelineState {
    /// Shapes the slot arrays must have: the per-slot arrays always span
    /// every slot the device offers, the counted arrays never exceed the
    /// documented maxima.
    pub open spec fn wf(self) -> bool {
        &&& self.scissor_rects@.len() <= SCISSOR_SLOTS
        &&& self.viewports@.len() <= VIEWPORT_SLOTS
        &&& self.ps_resources@.len() == SHADER_RESOURCE_SLOTS
        &&& self.samplers@.len() == SAMPLER_SLOTS
        &&& self.constant_buffers@.len() == CONSTANT_BUFFER_SLOTS
        &&& self.vs_instances@.len() <= CLASS_INSTANCE_SLOTS
        &&& self.gs_instances@.len() <= CLASS_INSTANCE_SLOTS
        &&& self.ps_instances@.len() <= CLASS_INSTANCE_SLOTS
    }
}

/// Builds a fully-unbound slot array spanning `n` slots.
pub fn none_slots(n: usize) -> (v: Vec<Option<usize>>)
    ensures
        v@.len() == n,
        forall|i: int| 0 <= i < n ==> v@[i] is None,
{
    let mut v: Vec<Option<usize>> = Vec::new();
    let mut i: usize = 0;
    while i < n
        invariant
            0 <= i <= n,
            v@.len() == i,
            forall|j: int| 0 <= j < i ==> v@[j] is None,
        decreases n - i,
    {
        v.push(None);
        i = i + 1;
    }
    v
}

/// One record per issued draw: everything that decides what the draw puts
/// on the render target, read off the bindings current at the call.
#[derive(Clone, Copy, PartialEq, Eq, Structural, Debug)]
pub struct DrawRecord {
    pub index_count: u32,
    pub scissor: Option<Rect>,
    pub texture: Option<usize>,
    pub vertex_buffer: Option<usize>,
    pub index_buffer: Option<usize>,
}

/// The device's immediate context: its pipeline state, the bound render
/// target, and a log of the draws issued through it.
pub struct DeviceContext {
    pub state: PipelineState,
    pub render_target: Option<usize>,
    pub draws: Vec<DrawRecord>,
}

impl DeviceContext {
    /// The draw record that issuing an indexed draw right now would append.
    pub open spec fn pending_draw(self, index_count: u32) -> DrawRecord {
        DrawRecord {
            index_count,
            scissor: if self.state.scissor_rects@.len() > 0 {
                Some(self.state.scissor_rects@[0])
            } else {
                None
            },
            texture: if self.state.ps_resources@.len() > 0 {
                self.state.ps_resources@[0]
            } else {
                None
            },
            vertex_buffer: self.state.vertex_buffer,
            index_buffer: self.state.index_buffer,
        }
    }

    /// A context in the device's initial state: nothing bound, no scissor
    /// rects or viewports set, default blend factor and mask, no draws.
    pub fn new() -> (c: Self)
        ensures
            c.state.wf(),
            c.state.scissor_rects@.len() == 0,
            c.state.viewports@.len() == 0,
            c.state.raster_state is None,
            c.state.blend_state is None,
            c.state.depth_stencil_state is None,
            c.state.vertex_shader is None,
            c.state.geometry_shader is None,
            c.state.pixel_shader is None,
            c.state.vs_instances@.len() == 0,
            c.state.gs_instances@.len() == 0,
            c.state.ps_instances@.len() == 0,
            forall|i: int| 0 <= i < SHADER_RESOURCE_SLOTS ==> c.state.ps_resources@[i] is None,
            forall|i: int| 0 <= i < SAMPLER_SLOTS ==> c.state.samplers@[i] is None,
            forall|i: int| 0 <= i < CONSTANT_BUFFER_SLOTS ==> c.state.constant_buffers@[i] is None,
            c.state.primitive_topology == 0,
            c.state.index_buffer is None,
            c.state.vertex_buffer is None,
            c.state.input_layout is None,
            c.render_target is None,
            c.draws@.len() == 0,
    {
        DeviceContext {
            state: PipelineState {
                scissor_rects: Vec::new(),
                viewports: Vec::new(),
                raster_state: None,
                blend_state: None,
                blend_factor: BlendFactor {
                    r: crate::types::F32_ONE_BITS,
                    g: crate::types::F32_ONE_BITS,
                    b: crate::types::F32_ONE_BITS,
                    a: crate::types::F32_ONE_BITS,
                },
                blend_mask: 0xffff_ffff,
                depth_stencil_state: None,
                stencil_ref: 0,
                ps_resources: none_slots(SHADER_RESOURCE_SLOTS),
                samplers: none_slots(SAMPLER_SLOTS),
                vertex_shader: None,
                vs_instances: Vec::new(),
                geometry_shader: None,
                gs_instances: Vec::new(),
                pixel_shader: None,
                ps_instances: Vec::new(),
                constant_buffers: none_slots(CONSTANT_BUFFER_SLOTS),
                primitive_topology: 0,
                index_buffer: None,
                index_buffer_format: 0,
                index_buffer_offset: 0,
                vertex_buffer: None,
                vertex_buffer_stride: 0,
                vertex_buffer_offset: 0,
                input_layout: None,
            },
            render_target: None,
            draws: Vec::new(),
        }
    }

    /// Issues one indexed draw under the bindings current at the call; the
    /// draw itself only appends to the log and alters no binding.
    pub fn draw_indexed(&mut self, index_count: u32)
        ensures
            final(self).state == old(self).state,
            final(self).render_target == old(self).render_target,
            final(self).draws@ == old(self).draws@.push(old(self).pending_draw(index_count)),
    {
        let scissor = if self.state.scissor_rects.len() > 0 {
            Some(self.state.scissor_rects[0])
        } else {
            None
        };
        let texture = if self.state.ps_resources.len() > 0 {
            self.state.ps_resources[0]
        } else {
            None
        };
        let rec = DrawRecord {
            index_count,
            scissor,
            texture,
            vertex_buffer: self.state.vertex_buffer,
            index_buffer: self.state.index_buffer,
        };
        self.draws.push(rec);
    }

    /// How many draws have been issued through this context.
    pub fn draw_count(&self) -> (n: usize)
        ensures
            n == self.draws@.len(),
    {
        self.draws.len()
    }
}

/// Copies a vector of plain values.
pub fn copy_vec<T: Copy>(src: &Vec<T>) -> (v: Vec<T>)
    ensures
        v@ == src@,
{
    let mut v: Vec<T> = Vec::new();
    let n: usize = src.len();
    let mut i: usize = 0;
    while i < n
        invariant
            n == src@.len(),
            0 <= i <= n,
            v@ == src@.take(i as int),
        decreases n - i,
    {
        v.push(src[i]);
        proof {
            assert(src@.take(i as int + 1) =~= src@.take(i as int).push(src@[i as int]));
        }
        i = i + 1;
    }
    proof {
        assert(src@.take(n as int) =~= src@);
    }
    v
}

/// A vector of `n` copies of `val`.
pub fn filled<T: Copy>(n: usize, val: T) -> (v: Vec<T>)
    ensures
        v@.len() == n,
        forall|i: int| 0 <= i < n ==> v@[i] == val,
{
    let mut v: Vec<T> = Vec::new();
    let mut i: usize = 0;
    while i < n
        invariant
            0 <= i <= n,
            v@.len() == i,
            forall|j: int| 0 <= j < i ==> v@[j] == val,
        decreases n - i,
    {
        v.push(val);
        i = i + 1;
    }
    v
}

/// The first `n` entries of `src`.
pub fn prefix_of<T: Copy>(src: &Vec<T>, n: usize) -> (v: Vec<T>)
    requires
        n <= src@.len(),
    ensures
        v@ == src@.take(n as int),
{
    let mut v: Vec<T> = Vec::new();
    let mut i: usize = 0;
    while i < n
        invariant
            n <= src@.len(),
            0 <= i <= n,
            v@ == src@.take(i as int),
        decreases n - i,
    {
        v.push(src[i]);
        proof {
            assert(src@.take(i as int + 1) =~= src@.take(i as int).push(src@[i as int]));
        }
        i = i + 1;
    }
    v
}

/// `src` padded with `val` up to length `n`.
pub fn padded<T: Copy>(src: &Vec<T>, n: usize, val: T) -> (v: Vec<T>)
    requires
        src@.len() <= n,
    ensures
        v@.len() == n,
        v@.take(src@.len() as int) == src@,
{
    let mut v: Vec<T> = copy_vec(src);
    let len: usize = src.len();
    let mut i: usize = len;
    while i < n
        invariant
            len == src@.len(),
            len <= i <= n,
            v@.len() == i,
            v@.take(len as int) == src@,
        decreases n - i,
    {
        v.push(val);
        proof {
            assert(v@.take(len as int) =~= v@.drop_last().take(len as int));
        }
        i = i + 1;
    }
    v
}

/// A handle with a record is one the device has issued.
pub proof fn lemma_res_some_bound(d: Device, h: usize)
    ensures
        d.res(h) is Some ==> h < d.n(),
{
}

/// Both states are the same, slot for slot and count for count: what the
/// host observes of the context does not differ between them.
pub open spec fn same_state(a: PipelineState, b: PipelineState) -> bool {
    &&& a.scissor_rects@ == b.scissor_rects@
    &&& a.viewports@ == b.viewports@
    &&& a.raster_state == b.raster_state
    &&& a.blend_state == b.blend_state
    &&& a.blend_factor == b.blend_factor
    &&& a.blend_mask == b.blend_mask
    &&& a.depth_stencil_state == b.depth_stencil_state
    &&& a.stencil_ref == b.stencil_ref
    &&& a.ps_resources@ == b.ps_resources@
    &&& a.samplers@ == b.samplers@
    &&& a.vertex_shader == b.vertex_shader
    &&& a.vs_instances@ == b.vs_instances@
    &&& a.geometry_shader == b.geometry_shader
    &&& a.gs_instances@ == b.gs_instances@
    &&& a.pixel_shader == b.pixel_shader
    &&& a.ps_instances@ == b.ps_instances@
    &&& a.constant_buffers@ == b.constant_buffers@
    &&& a.primitive_topology == b.primitive_topology
    &&& a.index_buffer == b.index_buffer
    &&& a.index_buffer_format == b.index_buffer_format
    &&& a.index_buffer_offset == b.index_buffer_offset
    &&& a.vertex_buffer == b.vertex_buffer
    &&& a.vertex_buffer_stride == b.vertex_buffer_stride
    &&& a.vertex_buffer_offset == b.vertex_buffer_offset
    &&& a.input_layout == b.input_layout
}

/// Every field the snapshot had captured out of `pre` reads the same in
/// `post`: the unconditionally restored categories are equal outright, and
/// each optional state object that was bound in `pre` is bound again.
pub open spec fn captured_state_restored(pre: PipelineState, post: PipelineState) -> bool {
    &&& post.scissor_rects@ == pre.scissor_rects@
    &&& post.viewports@ == pre.viewports@
    &&& (pre.raster_state is Some ==> post.raster_state == pre.raster_state)
    &&& (pre.blend_state is Some ==> post.blend_state == pre.blend_state
        && post.blend_factor == pre.blend_factor
        && post.blend_mask == pre.blend_mask)
    &&& (pre.depth_stencil_state is Some ==> post.depth_stencil_state == pre.depth_stencil_state
        && post.stencil_ref == pre.stencil_ref)
    &&& post.ps_resources@ == pre.ps_resources@
    &&& post.samplers@ == pre.samplers@
    &&& (pre.vertex_shader is Some ==> post.vertex_shader == pre.vertex_shader
        && post.vs_instances@ == pre.vs_instances@)
    &&& (pre.geometry_shader is Some ==> post.geometry_shader == pre.geometry_shader
        && post.gs_instances@ == pre.gs_instances@)
    &&& (pre.pixel_shader is Some ==> post.pixel_shader == pre.pixel_shader
        && post.ps_instances@ == pre.ps_instances@)
    &&& post.constant_buffers@ == pre.constant_buffers@
    &&& post.primitive_topology == pre.primitive_topology
    &&& (pre.index_buffer is Some ==> post.index_buffer == pre.index_buffer
        && post.index_buffer_format == pre.index_buffer_format
        && post.index_buffer_offset == pre.index_buffer_offset)
    &&& post.vertex_buffer == pre.vertex_buffer
    &&& post.vertex_buffer_stride == pre.vertex_buffer_stride
    &&& post.vertex_buffer_offset == pre.vertex_buffer_offset
    &&& (pre.input_layout is Some ==> post.input_layout == pre.input_layout)
}

} // verus!
