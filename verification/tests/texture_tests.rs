use egui_d3d11::device::Device;
use egui_d3d11::texture::{ImageRgba, TextureAllocator, TextureDelta, TexturesDelta};
use egui_d3d11::types::{Rgba8, TextureId};

fn px(v: u8) -> Rgba8 {
    Rgba8 { r: v, g: v, b: v, a: 255 }
}

fn image(w: usize, h: usize, v: u8) -> ImageRgba {
    ImageRgba { width: w, height: h, pixels: vec![px(v); w * h] }
}

fn whole(tid: TextureId, img: ImageRgba) -> (TextureId, TextureDelta) {
    (tid, TextureDelta { pos: None, image: img })
}

fn partial(tid: TextureId, nx: usize, ny: usize, img: ImageRgba) -> (TextureId, TextureDelta) {
    (tid, TextureDelta { pos: Some((nx, ny)), image: img })
}

#[test]
fn whole_delta_allocates_and_resolves() {
    let mut dev = Device::new();
    let mut alloc = TextureAllocator::new();
    let tid = TextureId::Managed(0);
    assert!(alloc.get_by_id(tid).is_none());
    let delta = TexturesDelta { set: vec![whole(tid, image(4, 2, 9))], free: vec![] };
    alloc.process_deltas(&mut dev, delta);
    let view = alloc.get_by_id(tid);
    assert!(view.is_some());
    let mirror = alloc.pixels_of(tid).unwrap();
    assert_eq!(mirror.len(), 8);
    assert_eq!(mirror[0], px(9));
}

#[test]
fn partial_update_changes_only_the_rectangle() {
    // An 8 by 4 texture of value 1; a 3 by 2 delta of value 200 lands at
    // offset (2, 1).
    let mut dev = Device::new();
    let mut alloc = TextureAllocator::new();
    let tid = TextureId::Managed(1);
    alloc.process_deltas(
        &mut dev,
        TexturesDelta { set: vec![whole(tid, image(8, 4, 1))], free: vec![] },
    );
    alloc.process_deltas(
        &mut dev,
        TexturesDelta { set: vec![partial(tid, 2, 1, image(3, 2, 200))], free: vec![] },
    );
    let mirror = alloc.pixels_of(tid).unwrap().clone();
    assert_eq!(mirror.len(), 32);
    for y in 0..4usize {
        for x in 0..8usize {
            let inside = (2..5).contains(&x) && (1..3).contains(&y);
            let expect = if inside { px(200) } else { px(1) };
            assert_eq!(mirror[y * 8 + x], expect, "pixel ({}, {})", x, y);
        }
    }
    // the device-side texture was re-uploaded with the very same contents
    let view = alloc.get_by_id(tid).unwrap();
    // handles are issued in creation order: the texture right before its view
    let tex_handle: usize = view - 1;
    let device_pixels = dev.texture_contents(tex_handle).unwrap();
    assert_eq!(device_pixels.as_slice(), mirror.as_slice());
}

#[test]
fn partial_update_with_unknown_id_is_skipped() {
    let mut dev = Device::new();
    let mut alloc = TextureAllocator::new();
    let known = TextureId::Managed(3);
    alloc.process_deltas(
        &mut dev,
        TexturesDelta { set: vec![whole(known, image(2, 2, 7))], free: vec![] },
    );
    // unknown id: the update must be skipped, not fatal
    alloc.process_deltas(
        &mut dev,
        TexturesDelta {
            set: vec![partial(TextureId::User(99), 0, 0, image(1, 1, 0))],
            free: vec![],
        },
    );
    assert_eq!(alloc.pixels_of(known).unwrap()[0], px(7));
    assert!(alloc.get_by_id(TextureId::User(99)).is_none());
}

#[test]
fn partial_update_that_does_not_fit_is_skipped() {
    let mut dev = Device::new();
    let mut alloc = TextureAllocator::new();
    let tid = TextureId::Managed(4);
    alloc.process_deltas(
        &mut dev,
        TexturesDelta { set: vec![whole(tid, image(2, 2, 5))], free: vec![] },
    );
    alloc.process_deltas(
        &mut dev,
        TexturesDelta { set: vec![partial(tid, 1, 1, image(2, 2, 9))], free: vec![] },
    );
    // out of range: every pixel keeps its value
    let mirror = alloc.pixels_of(tid).unwrap();
    assert!(mirror.iter().all(|p| *p == px(5)));
}

#[test]
fn free_releases_and_removes() {
    let mut dev = Device::new();
    let mut alloc = TextureAllocator::new();
    let tid = TextureId::User(5);
    alloc.process_deltas(
        &mut dev,
        TexturesDelta { set: vec![whole(tid, image(1, 1, 3))], free: vec![] },
    );
    let view = alloc.get_by_id(tid).unwrap();
    let tex: usize = view - 1;
    assert_eq!(dev.refcount_of(view), 1);
    assert_eq!(dev.refcount_of(tex), 1);
    alloc.process_deltas(&mut dev, TexturesDelta { set: vec![], free: vec![tid] });
    assert!(alloc.get_by_id(tid).is_none());
    assert_eq!(dev.refcount_of(view), 0);
    assert_eq!(dev.refcount_of(tex), 0);
}

#[test]
fn sets_apply_before_frees_within_one_frame() {
    let mut dev = Device::new();
    let mut alloc = TextureAllocator::new();
    let tid = TextureId::Managed(6);
    // one frame both creates and frees the id: the free wins
    alloc.process_deltas(
        &mut dev,
        TexturesDelta { set: vec![whole(tid, image(1, 1, 1))], free: vec![tid] },
    );
    assert!(alloc.get_by_id(tid).is_none());
}

#[test]
fn whole_delta_replaces_an_existing_entry() {
    let mut dev = Device::new();
    let mut alloc = TextureAllocator::new();
    let tid = TextureId::Managed(7);
    alloc.process_deltas(
        &mut dev,
        TexturesDelta { set: vec![whole(tid, image(2, 2, 1))], free: vec![] },
    );
    let old_view = alloc.get_by_id(tid).unwrap();
    alloc.process_deltas(
        &mut dev,
        TexturesDelta { set: vec![whole(tid, image(3, 1, 2))], free: vec![] },
    );
    let new_view = alloc.get_by_id(tid).unwrap();
    assert_ne!(old_view, new_view);
    // the replaced entry's objects were released
    assert_eq!(dev.refcount_of(old_view), 0);
    assert_eq!(alloc.pixels_of(tid).unwrap().len(), 3);
}

#[test]
fn premultiplied_white_expansion() {
    let c = Rgba8::premultiplied_white(77);
    assert_eq!(c, Rgba8 { r: 255, g: 255, b: 255, a: 77 });
}
