use vstd::prelude::*;
use crate::device::{
    backbuffer_same, copy_vec, refs_same_except, resources_same_except, Device, Resource,
};
use crate::types::{Rect, Rgba8, TextureId};

verus! {

/// Fixed-point fractional steps per pixel: positions carry sixteen
/// fractional bits, so every half- or quarter-pixel position is exact.
pub const FP_ONE: i64 = 65536;

/// Largest drawing-surface extent, in pixels, that the device supports for
/// a texture or render target.
pub const MAX_SCREEN_DIM: u32 = 16384;

/// Largest magnitude, in fixed-point units, a vertex coordinate may carry:
/// the far corner of the largest supported surface.
pub const MAX_COORD: i64 = 0x4000_0000;

/// A vertex position in toolkit pixel space (origin at the top left, y
/// growing downwards), in 16.16 fixed point.
#[derive(Clone, Copy, PartialEq, Eq, Structural, Debug)]
pub struct PixelPos {
    pub x: i64,
    pub y: i64,
}

/// One exact clip-space coordinate: the rational `num / den` with `den > 0`.
/// Clip space runs from minus one to one; the conversion to the device's
/// float representation is a single division performed by the embedder.
#[derive(Clone, Copy, PartialEq, Eq, Structural, Debug)]
pub struct ClipCoord {
    pub num: i64,
    pub den: i64,
}

/// The client drawing surface's size in whole pixels.
#[derive(Clone, Copy, PartialEq, Eq, Structural, Debug)]
pub struct ScreenSize {
    pub width: u32,
    pub height: u32,
}

impl ScreenSize {
    /// A size the device can actually present: neither extent is zero and
    /// both are within the device's texture dimension cap.
    pub open spec fn valid(self) -> bool {
        1 <= self.width <= MAX_SCREEN_DIM && 1 <= self.height <= MAX_SCREEN_DIM
    }
}

/// Numerator of the clip-space x coordinate of a vertex at fixed-point
/// pixel position `x` on a surface `w` pixels wide, over `clip_den(w)`:
/// the exact value of `(x - w/2) / (w/2)`.
pub open spec fn clip_x_num(x: int, w: int) -> int {
    2 * x - w * (FP_ONE as int)
}

/// Numerator of the clip-space y coordinate of a vertex at fixed-point
/// pixel position `y` on a surface `h` pixels tall, over `clip_den(h)`:
/// the exact value of `-(y - h/2) / (h/2)`, flipping y to grow upwards.
pub open spec fn clip_y_num(y: int, h: int) -> int {
    h * (FP_ONE as int) - 2 * y
}

/// Common denominator of the clip coordinates for a surface extent `d`.
pub open spec fn clip_den(d: int) -> int {
    d * (FP_ONE as int)
}

/// A vertex as the toolkit's tessellation hands it over: a fixed-point
/// pixel position, a texture coordinate (raw float bit patterns, copied
/// through untouched), and a premultiplied color.
#[derive(Clone, Copy, PartialEq, Eq, Structural, Debug)]
pub struct MeshVertex {
    pub pos: PixelPos,
    pub uv_u: u32,
    pub uv_v: u32,
    pub color: Rgba8,
}

/// One triangle mesh out of the toolkit's tessellation: vertices, indices
/// into them (three per triangle), and the texture the triangles sample.
#[derive(Clone, PartialEq, Eq, Debug)]
pub struct Mesh {
    pub vertices: Vec<MeshVertex>,
    pub indices: Vec<u32>,
    pub texture_id: TextureId,
}

/// A vertex normalized to clip space, ready for the vertex buffer.
#[derive(Clone, Copy, PartialEq, Eq, Structural, Debug)]
pub struct GpuVertex {
    pub x: ClipCoord,
    pub y: ClipCoord,
    pub uv_u: u32,
    pub uv_v: u32,
    pub color: Rgba8,
}

pub open spec fn in_coord_range(p: PixelPos) -> bool {
    -MAX_COORD <= p.x <= MAX_COORD && -MAX_COORD <= p.y <= MAX_COORD
}

/// Every vertex position is within the coordinate range the normalization
/// arithmetic is proved exact for.
pub open spec fn vertices_in_range(vs: Seq<MeshVertex>) -> bool {
    forall|i: int| 0 <= i < vs.len() ==> #[trigger] in_coord_range(vs[i].pos)
}

/// The vertex `out` is exactly the normalization of `v` for screen `s`.
pub open spec fn is_normalized(v: MeshVertex, out: GpuVertex, s: ScreenSize) -> bool {
    &&& out.x.num == clip_x_num(v.pos.x as int, s.width as int)
    &&& out.x.den == clip_den(s.width as int)
    &&& out.y.num == clip_y_num(v.pos.y as int, s.height as int)
    &&& out.y.den == clip_den(s.height as int)
    &&& out.uv_u == v.uv_u
    &&& out.uv_v == v.uv_v
    &&& out.color == v.color
}

/// Converts every vertex of a toolkit mesh from pixel space to the device's
/// clip-space convention: `x' = (x - w/2) / (w/2)`, `y' = -(y - h/2) / (h/2)`,
/// computed exactly as rationals over a positive denominator.
pub fn normalize_mesh(screen: ScreenSize, m: &Mesh) -> (out: Vec<GpuVertex>)
    requires
        screen.valid(),
        vertices_in_range(m.vertices@),
    ensures
        out@.len() == m.vertices@.len(),
        forall|i: int| 0 <= i < out@.len()
            ==> #[trigger] is_normalized(m.vertices@[i], out@[i], screen),
{
    let mut out: Vec<GpuVertex> = Vec::new();
    let den_x: i64 = (screen.width as i64) * FP_ONE;
    let den_y: i64 = (screen.height as i64) * FP_ONE;
    let n: usize = m.vertices.len();
    let mut i: usize = 0;
    while i < n
        invariant
            n == m.vertices@.len(),
            0 <= i <= n,
            screen.valid(),
            vertices_in_range(m.vertices@),
            den_x == clip_den(screen.width as int),
            den_y == clip_den(screen.height as int),
            out@.len() == i,
            forall|j: int| 0 <= j < i
                ==> #[trigger] is_normalized(m.vertices@[j], out@[j], screen),
        decreases n - i,
    {
        proof {
            assert(in_coord_range(m.vertices@[i as int].pos));
        }
        let v = m.vertices[i];
        let gx = ClipCoord { num: 2 * v.pos.x - den_x, den: den_x };
        let gy = ClipCoord { num: den_y - 2 * v.pos.y, den: den_y };
        out.push(GpuVertex { x: gx, y: gy, uv_u: v.uv_u, uv_v: v.uv_v, color: v.color });
        i = i + 1;
    }
    out
}

/// A mesh the geometry builder accepts: at least one whole triangle and
/// every index in bounds.
pub open spec fn mesh_well_formed(m: Mesh) -> bool {
    &&& m.indices@.len() > 0
    &&& m.indices@.len() % 3 == 0
    &&& forall|i: int| 0 <= i < m.indices@.len()
        ==> #[trigger] m.indices@[i] < m.vertices@.len()
}

/// A device-ready mesh: clip-space vertices, triangle indices, the clip
/// rectangle the scissor test will take, and the texture to bind.
#[derive(Clone, PartialEq, Eq, Debug)]
pub struct GpuMesh {
    pub vertices: Vec<GpuVertex>,
    pub indices: Vec<u32>,
    pub clip: Rect,
    pub texture_id: TextureId,
}

impl GpuMesh {
    /// Builds a device-ready mesh from a tessellated toolkit mesh, or
    /// nothing if the mesh is degenerate (no whole triangle, or an index
    /// out of bounds); a degenerate mesh is skipped, never fatal.
    pub fn from_mesh(screen: ScreenSize, m: &Mesh, clip: Rect) -> (r: Option<GpuMesh>)
        requires
            screen.valid(),
            vertices_in_range(m.vertices@),
        ensures
            r.is_some() <==> mesh_well_formed(*m),
            r.is_some() ==> {
                let g = r->Some_0;
                &&& g.vertices@.len() == m.vertices@.len()
                &&& forall|i: int| 0 <= i < g.vertices@.len()
                    ==> #[trigger] is_normalized(m.vertices@[i], g.vertices@[i], screen)
                &&& g.indices@ == m.indices@
                &&& g.clip == clip
                &&& g.texture_id == m.texture_id
            },
    {
        let n_idx: usize = m.indices.len();
        if n_idx == 0 || n_idx % 3 != 0 {
            return None;
        }
        let n_vtx: usize = m.vertices.len();
        let mut i: usize = 0;
        while i < n_idx
            invariant
                n_idx == m.indices@.len(),
                n_vtx == m.vertices@.len(),
                0 <= i <= n_idx,
                forall|j: int| 0 <= j < i ==> #[trigger] m.indices@[j] < n_vtx,
            decreases n_idx - i,
        {
            if m.indices[i] as usize >= n_vtx {
                return None;
            }
            i = i + 1;
        }
        let vertices = normalize_mesh(screen, m);
        let mut indices: Vec<u32> = Vec::new();
        let mut k: usize = 0;
        while k < n_idx
            invariant
                n_idx == m.indices@.len(),
                0 <= k <= n_idx,
                indices@ == m.indices@.take(k as int),
            decreases n_idx - k,
        {
            indices.push(m.indices[k]);
            proof {
                assert(m.indices@.take(k as int + 1)
                    =~= m.indices@.take(k as int).push(m.indices@[k as int]));
            }
            k = k + 1;
        }
        proof {
            assert(m.indices@.take(n_idx as int) =~= m.indices@);
        }
        Some(GpuMesh { vertices, indices, clip, texture_id: m.texture_id })
    }
}

/// The three anchor points of the normalization formula: the top-left
/// pixel maps to clip (-1, 1), the far corner of a w-by-h surface maps to
/// (1, -1), and the surface's center maps to (0, 0) — each as an exact
/// rational over the positive denominator `clip_den`.
pub proof fn lemma_normalize_anchor_points(w: int, h: int)
    requires
        w >= 1,
        h >= 1,
    ensures
        clip_den(w) > 0,
        clip_den(h) > 0,
        clip_x_num(0, w) == -clip_den(w),
        clip_y_num(0, h) == clip_den(h),
        clip_x_num(w * (FP_ONE as int), w) == clip_den(w),
        clip_y_num(h * (FP_ONE as int), h) == -clip_den(h),
        clip_x_num(w * ((FP_ONE as int) / 2), w) == 0,
        clip_y_num(h * ((FP_ONE as int) / 2), h) == 0,
{
    assert(w * (FP_ONE as int) > 0) by (nonlinear_arith)
        requires w >= 1;
    assert(h * (FP_ONE as int) > 0) by (nonlinear_arith)
        requires h >= 1;
    assert(2 * (w * (FP_ONE as int)) - w * (FP_ONE as int) == w * (FP_ONE as int)) by (nonlinear_arith);
    assert(2 * (h * (FP_ONE as int)) - h * (FP_ONE as int) == h * (FP_ONE as int)) by (nonlinear_arith);
    assert(2 * (w * ((FP_ONE as int) / 2)) == w * (FP_ONE as int)) by (nonlinear_arith);
    assert(2 * (h * ((FP_ONE as int) / 2)) == h * (FP_ONE as int)) by (nonlinear_arith);
}

/// Largest number of indices one mesh may carry, so that its byte width
/// fits the device's 32-bit buffer descriptor.
pub const MAX_MESH_INDICES: usize = 0x3FFF_FFFF;

/// The four little-endian bytes of one index.
pub open spec fn le_bytes4(x: u32) -> Seq<u8> {
    seq![
        (x & 0xff) as u8,
        ((x >> 8) & 0xff) as u8,
        ((x >> 16) & 0xff) as u8,
        ((x >> 24) & 0xff) as u8,
    ]
}

/// The little-endian byte serialization of a whole index list, as the
/// device's index buffer holds it.
pub open spec fn index_bytes(s: Seq<u32>) -> Seq<u8>
    decreases s.len(),
{
    if s.len() == 0 {
        Seq::empty()
    } else {
        index_bytes(s.drop_last()) + le_bytes4(s.last())
    }
}

/// Creates the device index buffer for one mesh: a fresh buffer holding
/// exactly the mesh's indices, serialized little-endian.
pub fn create_index_buffer(device: &mut Device, mesh: &GpuMesh) -> (h: usize)
    requires
        old(device).wf(),
        old(device).n() < usize::MAX,
        mesh.indices@.len() <= MAX_MESH_INDICES,
    ensures
        final(device).wf(),
        h == old(device).n(),
        final(device).n() == old(device).n() + 1,
        final(device).rc(h) == 1,
        final(device).res(h) matches Some(Resource::IndexBuffer(b))
            && b@ == index_bytes(mesh.indices@),
        refs_same_except(*old(device), *final(device), h),
        resources_same_except(*old(device), *final(device), h),
        backbuffer_same(*old(device), *final(device)),
{
    let n: usize = mesh.indices.len();
    let mut bytes: Vec<u8> = Vec::new();
    let mut i: usize = 0;
    while i < n
        invariant
            n == mesh.indices@.len(),
            n <= MAX_MESH_INDICES,
            0 <= i <= n,
            bytes@ == index_bytes(mesh.indices@.take(i as int)),
            bytes@.len() == 4 * i,
        decreases n - i,
    {
        let ghost pre = bytes@;
        let x: u32 = mesh.indices[i];
        bytes.push((x & 0xff) as u8);
        bytes.push(((x >> 8) & 0xff) as u8);
        bytes.push(((x >> 16) & 0xff) as u8);
        bytes.push(((x >> 24) & 0xff) as u8);
        proof {
            assert(mesh.indices@.take(i as int + 1).drop_last() =~= mesh.indices@.take(i as int));
            assert(mesh.indices@.take(i as int + 1).last() == mesh.indices@[i as int]);
            assert(bytes@ =~= pre + le_bytes4(x));
        }
        i = i + 1;
    }
    proof {
        assert(mesh.indices@.take(n as int) =~= mesh.indices@);
    }
    device.create(Resource::IndexBuffer(bytes))
}

/// Creates the device vertex buffer for one mesh: a fresh buffer holding
/// exactly the mesh's clip-space vertices.
pub fn create_vertex_buffer(device: &mut Device, mesh: &GpuMesh) -> (h: usize)
    requires
        old(device).wf(),
        old(device).n() < usize::MAX,
    ensures
        final(device).wf(),
        h == old(device).n(),
        final(device).n() == old(device).n() + 1,
        final(device).rc(h) == 1,
        final(device).res(h) matches Some(Resource::VertexBuffer(vs))
            && vs@ == mesh.vertices@,
        refs_same_except(*old(device), *final(device), h),
        resources_same_except(*old(device), *final(device), h),
        backbuffer_same(*old(device), *final(device)),
{
    device.create(Resource::VertexBuffer(copy_vec(&mesh.vertices)))
}

} // verus!
