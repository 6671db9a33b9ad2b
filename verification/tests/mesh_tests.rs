use egui_d3d11::device::Device;
use egui_d3d11::mesh::{
    create_index_buffer, create_vertex_buffer, normalize_mesh, GpuMesh, Mesh, MeshVertex,
    PixelPos, ScreenSize, FP_ONE,
};
use egui_d3d11::types::{Rect, Rgba8, TextureId};

fn vertex(x_pixels: i64, y_pixels: i64) -> MeshVertex {
    MeshVertex {
        pos: PixelPos { x: x_pixels * FP_ONE, y: y_pixels * FP_ONE },
        uv_u: 11,
        uv_v: 22,
        color: Rgba8 { r: 1, g: 2, b: 3, a: 4 },
    }
}

#[test]
fn normalization_maps_the_anchor_points() {
    // On an 800 by 600 surface: (0, 0) maps to clip (-1, 1); (800, 600)
    // maps to (1, -1); the center maps to (0, 0).
    let screen = ScreenSize { width: 800, height: 600 };
    let m = Mesh {
        vertices: vec![vertex(0, 0), vertex(800, 600), vertex(400, 300)],
        indices: vec![0, 1, 2],
        texture_id: TextureId::Managed(0),
    };
    let out = normalize_mesh(screen, &m);
    assert_eq!(out.len(), 3);

    // clip x at pixel 0 is exactly -1: numerator equals minus denominator
    assert_eq!(out[0].x.num, -out[0].x.den);
    // clip y at pixel 0 is exactly 1
    assert_eq!(out[0].y.num, out[0].y.den);

    // the far corner is exactly (1, -1)
    assert_eq!(out[1].x.num, out[1].x.den);
    assert_eq!(out[1].y.num, -out[1].y.den);

    // the center is exactly (0, 0)
    assert_eq!(out[2].x.num, 0);
    assert_eq!(out[2].y.num, 0);

    // denominators are w/2 and h/2 scaled by the fixed-point unit, positive
    assert_eq!(out[0].x.den, 800 * FP_ONE);
    assert_eq!(out[0].y.den, 600 * FP_ONE);

    // texture coordinates and color pass through untouched
    assert_eq!(out[0].uv_u, 11);
    assert_eq!(out[0].uv_v, 22);
    assert_eq!(out[0].color, Rgba8 { r: 1, g: 2, b: 3, a: 4 });
}

#[test]
fn normalization_is_exact_on_half_pixels() {
    // A vertex at pixel 0.5 on a 1-pixel-wide surface sits exactly at clip 0.
    let screen = ScreenSize { width: 1, height: 1 };
    let m = Mesh {
        vertices: vec![MeshVertex {
            pos: PixelPos { x: FP_ONE / 2, y: FP_ONE / 2 },
            uv_u: 0,
            uv_v: 0,
            color: Rgba8 { r: 0, g: 0, b: 0, a: 0 },
        }],
        indices: vec![0, 0, 0],
        texture_id: TextureId::Managed(0),
    };
    let out = normalize_mesh(screen, &m);
    assert_eq!(out[0].x.num, 0);
    assert_eq!(out[0].y.num, 0);
}

#[test]
fn from_mesh_accepts_a_triangle() {
    let screen = ScreenSize { width: 100, height: 100 };
    let m = Mesh {
        vertices: vec![vertex(0, 0), vertex(10, 0), vertex(0, 10)],
        indices: vec![0, 1, 2],
        texture_id: TextureId::User(9),
    };
    let clip = Rect { left: 0, top: 0, right: 100, bottom: 100 };
    let g = GpuMesh::from_mesh(screen, &m, clip).unwrap();
    assert_eq!(g.vertices.len(), 3);
    assert_eq!(g.indices, vec![0, 1, 2]);
    assert_eq!(g.clip, clip);
    assert_eq!(g.texture_id, TextureId::User(9));
}

#[test]
fn from_mesh_rejects_degenerate_meshes() {
    let screen = ScreenSize { width: 100, height: 100 };
    let clip = Rect { left: 0, top: 0, right: 1, bottom: 1 };
    // no indices at all
    let empty = Mesh {
        vertices: vec![vertex(0, 0)],
        indices: vec![],
        texture_id: TextureId::Managed(0),
    };
    assert!(GpuMesh::from_mesh(screen, &empty, clip).is_none());
    // not a whole number of triangles
    let ragged = Mesh {
        vertices: vec![vertex(0, 0), vertex(1, 1)],
        indices: vec![0, 1],
        texture_id: TextureId::Managed(0),
    };
    assert!(GpuMesh::from_mesh(screen, &ragged, clip).is_none());
    // an index out of bounds
    let oob = Mesh {
        vertices: vec![vertex(0, 0), vertex(1, 1)],
        indices: vec![0, 1, 2],
        texture_id: TextureId::Managed(0),
    };
    assert!(GpuMesh::from_mesh(screen, &oob, clip).is_none());
}

#[test]
fn index_buffer_serializes_little_endian() {
    let clip = Rect { left: 0, top: 0, right: 10, bottom: 10 };
    let g = GpuMesh {
        vertices: vec![],
        indices: vec![0x01020304u32, 5, 0],
        clip,
        texture_id: TextureId::Managed(0),
    };
    let mut dev = Device::new();
    let h = create_index_buffer(&mut dev, &g);
    let bytes = dev.index_buffer_contents(h).unwrap();
    assert_eq!(
        bytes.as_slice(),
        &[0x04u8, 0x03, 0x02, 0x01, 5, 0, 0, 0, 0, 0, 0, 0]
    );
}

#[test]
fn buffers_hold_the_mesh_exactly() {
    let screen = ScreenSize { width: 10, height: 10 };
    let m = Mesh {
        vertices: vec![vertex(0, 0), vertex(1, 0), vertex(0, 1)],
        indices: vec![2, 0, 1],
        texture_id: TextureId::Managed(0),
    };
    let clip = Rect { left: 0, top: 0, right: 10, bottom: 10 };
    let g = GpuMesh::from_mesh(screen, &m, clip).unwrap();
    let mut dev = Device::new();
    let ib = create_index_buffer(&mut dev, &g);
    let vb = create_vertex_buffer(&mut dev, &g);
    assert_ne!(ib, vb);
    assert_eq!(dev.refcount_of(ib), 1);
    assert_eq!(dev.refcount_of(vb), 1);
    let bytes = dev.index_buffer_contents(ib).unwrap();
    assert_eq!(
        bytes.as_slice(),
        &[2u8, 0, 0, 0, 0, 0, 0, 0, 1, 0, 0, 0]
    );
    let verts = dev.vertex_buffer_contents(vb).unwrap();
    assert_eq!(verts.as_slice(), g.vertices.as_slice());
}
