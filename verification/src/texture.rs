use vstd::prelude::*;
use vstd::arithmetic::div_mod::{lemma_fundamental_div_mod, lemma_fundamental_div_mod_converse};
use crate::device::{
    backbuffer_same, copy_vec, resources_same, Device, Resource, TextureData,
};
use crate::types::{Rgba8, TextureId};

verus! {

/// One CPU-visible image as the toolkit hands it over, already converted
/// to 8-bit-per-channel premultiplied RGBA.
#[derive(Clone, PartialEq, Eq, Debug)]
pub struct ImageRgba {
    pub width: usize,
    pub height: usize,
    pub pixels: Vec<Rgba8>,
}

impl ImageRgba {
    /// Row-major pixels covering the whole image.
    pub open spec fn wf(self) -> bool {
        self.pixels@.len() == self.width * self.height
    }
}

/// One "set" instruction of a frame's texture deltas: a full replacement
/// when `pos` is absent, otherwise a partial update whose rectangle starts
/// at `pos` and spans the delta image's dimensions.
#[derive(Clone, PartialEq, Eq, Debug)]
pub struct TextureDelta {
    pub pos: Option<(usize, usize)>,
    pub image: ImageRgba,
}

impl TextureDelta {
    /// A full replacement rather than a partial update.
    pub open spec fn spec_is_whole(self) -> bool {
        self.pos is None
    }

    pub fn is_whole(&self) -> (r: bool)
        ensures
            r == self.spec_is_whole(),
    {
        self.pos.is_none()
    }
}

/// Everything the toolkit asks of the texture cache for one frame: the
/// "set" instructions, applied in order, then the frees.
#[derive(Clone, PartialEq, Eq, Debug)]
pub struct TexturesDelta {
    pub set: Vec<(TextureId, TextureDelta)>,
    pub free: Vec<TextureId>,
}

/// What the cache knows of one texture, seen abstractly: its dimensions
/// and the CPU-side mirror of the pixels last uploaded.
pub ghost struct MirrorEntry {
    pub width: nat,
    pub height: nat,
    pub pixels: Seq<Rgba8>,
}

/// The pixels after overwriting the `img_w` by `img_h` rectangle with its
/// top-left corner at (`nx`, `ny`) of a `dst_w`-wide image with `img`:
/// every pixel outside the rectangle keeps its value, every pixel inside
/// takes the corresponding delta pixel.
pub open spec fn blit(
    dst: Seq<Rgba8>,
    dst_w: int,
    nx: int,
    ny: int,
    img: Seq<Rgba8>,
    img_w: int,
    img_h: int,
) -> Seq<Rgba8> {
    Seq::new(
        dst.len(),
        |i: int|
            {
                if nx <= i % dst_w < nx + img_w && ny <= i / dst_w < ny + img_h {
                    img[(i / dst_w - ny) * img_w + (i % dst_w - nx)]
                } else {
                    dst[i]
                }
            },
    )
}

/// A partial update fits: the id is known and the rectangle lies within
/// the stored image.
pub open spec fn delta_fits(
    m: Map<TextureId, MirrorEntry>,
    tid: TextureId,
    nx: int,
    ny: int,
    img: ImageRgba,
) -> bool {
    m.contains_key(tid) && nx + img.width <= m[tid].width && ny + img.height <= m[tid].height
}

/// One "set" instruction applied to the abstract cache: a whole delta
/// (re)creates the entry; a partial delta blits into a known entry and is
/// skipped — never fatal — when the id is unknown or the rectangle does
/// not fit.
pub open spec fn apply_one(
    m: Map<TextureId, MirrorEntry>,
    tid: TextureId,
    d: TextureDelta,
) -> Map<TextureId, MirrorEntry> {
    match d.pos {
        None => m.insert(
            tid,
            MirrorEntry {
                width: d.image.width as nat,
                height: d.image.height as nat,
                pixels: d.image.pixels@,
            },
        ),
        Some(p) => if delta_fits(m, tid, p.0 as int, p.1 as int, d.image) {
            m.insert(
                tid,
                MirrorEntry {
                    width: m[tid].width,
                    height: m[tid].height,
                    pixels: blit(
                        m[tid].pixels,
                        m[tid].width as int,
                        p.0 as int,
                        p.1 as int,
                        d.image.pixels@,
                        d.image.width as int,
                        d.image.height as int,
                    ),
                },
            )
        } else {
            m
        },
    }
}

/// All "set" instructions applied in order.
pub open spec fn apply_sets(
    m: Map<TextureId, MirrorEntry>,
    sets: Seq<(TextureId, TextureDelta)>,
) -> Map<TextureId, MirrorEntry>
    decreases sets.len(),
{
    if sets.len() == 0 {
        m
    } else {
        apply_one(apply_sets(m, sets.drop_last()), sets.last().0, sets.last().1)
    }
}

/// All frees applied in order.
pub open spec fn apply_frees(
    m: Map<TextureId, MirrorEntry>,
    frees: Seq<TextureId>,
) -> Map<TextureId, MirrorEntry>
    decreases frees.len(),
{
    if frees.len() == 0 {
        m
    } else {
        apply_frees(m, frees.drop_last()).remove(frees.last())
    }
}

/// One frame's deltas applied to the abstract cache: every "set" first, in
/// order, then every free.
pub open spec fn apply_deltas(
    m: Map<TextureId, MirrorEntry>,
    d: TexturesDelta,
) -> Map<TextureId, MirrorEntry> {
    apply_frees(apply_sets(m, d.set@), d.free@)
}

/// Between `pre` and `post` only texture records may have changed: every
/// issued handle that did not designate a texture keeps its record.
pub open spec fn non_texture_resources_same(pre: Device, post: Device) -> bool {
    forall|h: usize| #![trigger post.res(h)] #![trigger pre.res(h)]
        h < pre.n() && !(pre.res(h) matches Some(Resource::Texture(t)))
            ==> post.res(h) == pre.res(h)
}

/// Every image in the deltas is well-formed.
pub open spec fn deltas_wf(d: TexturesDelta) -> bool {
    forall|k: int| #![trigger d.set@[k]] 0 <= k < d.set@.len() ==> d.set@[k].1.image.wf()
}

proof fn lemma_cell_index(px: int, py: int, w: int, h: int)
    requires
        0 <= px < w,
        0 <= py < h,
    ensures
        0 <= py * w + px < h * w,
        py * w + px < w * h,
        (py * w + px) / w == py,
        (py * w + px) % w == px,
{
    assert(0 <= py * w + px < h * w && py * w + px < w * h) by (nonlinear_arith)
        requires
            0 <= px < w,
            0 <= py < h,
    ;
    lemma_fundamental_div_mod_converse(py * w + px, w, py, px);
}

/// One pixel of a blit that has progressed to pixel row `row_limit` and,
/// within that row, to column `nx + col_limit`.
spec fn blit_upto(
    dst: Seq<Rgba8>,
    dst_w: int,
    nx: int,
    ny: int,
    img: Seq<Rgba8>,
    img_w: int,
    row_limit: int,
    col_limit: int,
    i: int,
) -> Rgba8 {
    let c = i % dst_w;
    let r = i / dst_w;
    if nx <= c < nx + img_w && ny <= r && (r < row_limit || (r == row_limit && c < nx
        + col_limit)) {
        img[(r - ny) * img_w + (c - nx)]
    } else {
        dst[i]
    }
}

/// Overwrites the rectangle with its top-left corner at (`nx`, `ny`) and
/// the delta image's dimensions inside a `dst_w` by `dst_h` pixel buffer,
/// reading untouched pixels from `dst`: exactly the merge a partial update
/// needs before re-uploading a full region.
pub fn blit_pixels(
    dst: &Vec<Rgba8>,
    dst_w: usize,
    dst_h: usize,
    nx: usize,
    ny: usize,
    img: &ImageRgba,
) -> (out: Vec<Rgba8>)
    requires
        img.wf(),
        dst@.len() == dst_w * dst_h,
        nx + img.width <= dst_w,
        ny + img.height <= dst_h,
    ensures
        out@.len() == dst@.len(),
        out@ == blit(
            dst@,
            dst_w as int,
            nx as int,
            ny as int,
            img.pixels@,
            img.width as int,
            img.height as int,
        ),
{
    let mut out = copy_vec(dst);
    let total: usize = dst.len();
    let ipix: usize = img.pixels.len();
    let iw: usize = img.width;
    let ih: usize = img.height;
    let mut y: usize = 0;
    while y < ih
        invariant
            img.wf(),
            iw == img.width,
            ih == img.height,
            total == dst@.len(),
            ipix == img.pixels@.len(),
            dst@.len() == dst_w * dst_h,
            nx + iw <= dst_w,
            ny + ih <= dst_h,
            0 <= y <= ih,
            out@.len() == dst@.len(),
            forall|i: int| #![trigger out@[i]] 0 <= i < dst@.len() ==> out@[i] == blit_upto(
                dst@,
                dst_w as int,
                nx as int,
                ny as int,
                img.pixels@,
                iw as int,
                ny + y,
                0,
                i,
            ),
        decreases ih - y,
    {
        let mut x: usize = 0;
        while x < iw
            invariant
                img.wf(),
                iw == img.width,
                ih == img.height,
                total == dst@.len(),
                ipix == img.pixels@.len(),
                dst@.len() == dst_w * dst_h,
                nx + iw <= dst_w,
                ny + ih <= dst_h,
                0 <= y < ih,
                0 <= x <= iw,
                out@.len() == dst@.len(),
                forall|i: int| #![trigger out@[i]] 0 <= i < dst@.len() ==> out@[i] == blit_upto(
                    dst@,
                    dst_w as int,
                    nx as int,
                    ny as int,
                    img.pixels@,
                    iw as int,
                    ny + y,
                    x as int,
                    i,
                ),
            decreases iw - x,
        {
            proof {
                lemma_cell_index(
                    nx + x,
                    ny + y,
                    dst_w as int,
                    dst_h as int,
                );
                lemma_cell_index(x as int, y as int, iw as int, ih as int);
            }
            let whole: usize = (ny + y) * dst_w + nx + x;
            let frac: usize = y * iw + x;
            out.set(whole, img.pixels[frac]);
            proof {
                let ghost w = dst_w as int;
                assert forall|i: int| 0 <= i < dst@.len() implies #[trigger] out@[i] == blit_upto(
                    dst@,
                    w,
                    nx as int,
                    ny as int,
                    img.pixels@,
                    iw as int,
                    ny + y,
                    x + 1,
                    i,
                ) by {
                    lemma_cell_index(nx + x, ny + y, w, dst_h as int);
                    lemma_fundamental_div_mod(i, w);
                    assert(w * (i / w) == (i / w) * w) by (nonlinear_arith);
                    if i == whole {
                        assert(i % w == nx + x);
                        assert(i / w == ny + y);
                        assert(out@[i] == img.pixels@[(y as int) * (iw as int) + x as int]);
                    } else {
                        assert(out@[i] == blit_upto(
                            dst@,
                            w,
                            nx as int,
                            ny as int,
                            img.pixels@,
                            iw as int,
                            ny + y,
                            x as int,
                            i,
                        ));
                        if i % w == nx + x && i / w == ny + y {
                            assert(i == (i / w) * w + i % w);
                            assert(false);
                        }
                    }
                }
            }
            x = x + 1;
        }
        proof {
            assert forall|i: int| 0 <= i < dst@.len() implies #[trigger] out@[i] == blit_upto(
                dst@,
                dst_w as int,
                nx as int,
                ny as int,
                img.pixels@,
                iw as int,
                ny + y + 1,
                0,
                i,
            ) by {
                assert(out@[i] == blit_upto(
                    dst@,
                    dst_w as int,
                    nx as int,
                    ny as int,
                    img.pixels@,
                    iw as int,
                    ny + y,
                    iw as int,
                    i,
                ));
            }
        }
        y = y + 1;
    }
    proof {
        assert(out@ =~= blit(
            dst@,
            dst_w as int,
            nx as int,
            ny as int,
            img.pixels@,
            img.width as int,
            img.height as int,
        ));
    }
    out
}

/// Partial texture update correctness, pixel by pixel: in the blitted
/// buffer, the pixel at column `x`, row `y` equals the delta pixel when
/// (`x`, `y`) lies inside the updated rectangle, and keeps its previous
/// value when it lies outside.
pub proof fn lemma_blit_region(
    dst: Seq<Rgba8>,
    dst_w: int,
    dst_h: int,
    nx: int,
    ny: int,
    img: Seq<Rgba8>,
    img_w: int,
    img_h: int,
    x: int,
    y: int,
)
    requires
        dst.len() == dst_w * dst_h,
        0 <= nx,
        0 <= ny,
        0 <= img_w,
        0 <= img_h,
        nx + img_w <= dst_w,
        ny + img_h <= dst_h,
        0 <= x < dst_w,
        0 <= y < dst_h,
    ensures
        (nx <= x < nx + img_w && ny <= y < ny + img_h) ==> blit(
            dst,
            dst_w,
            nx,
            ny,
            img,
            img_w,
            img_h,
        )[y * dst_w + x] == img[(y - ny) * img_w + (x - nx)],
        !(nx <= x < nx + img_w && ny <= y < ny + img_h) ==> blit(
            dst,
            dst_w,
            nx,
            ny,
            img,
            img_w,
            img_h,
        )[y * dst_w + x] == dst[y * dst_w + x],
{
    lemma_cell_index(x, y, dst_w, dst_h);
    assert(0 <= y * dst_w + x < dst.len());
}

/// One GPU-resident managed texture: the device texture, its
/// shader-visible view, the CPU-side mirror of its pixels, and its size.
pub struct ManagedTexture {
    resource: usize,
    texture: usize,
    pixels: Vec<Rgba8>,
    width: usize,
    height: usize,
}

/// The abstract reading of one stored entry.
pub closed spec fn mirror_of(e: ManagedTexture) -> MirrorEntry {
    MirrorEntry { width: e.width as nat, height: e.height as nat, pixels: e.pixels@ }
}

/// The abstract cache built from the stored entries.
spec fn map_of(s: Seq<(TextureId, ManagedTexture)>) -> Map<TextureId, MirrorEntry>
    decreases s.len(),
{
    if s.len() == 0 {
        Map::empty()
    } else {
        map_of(s.drop_last()).insert(s.last().0, mirror_of(s.last().1))
    }
}

/// The shader-visible view handles, one per stored id.
spec fn rmap_of(s: Seq<(TextureId, ManagedTexture)>) -> Map<TextureId, usize>
    decreases s.len(),
{
    if s.len() == 0 {
        Map::empty()
    } else {
        rmap_of(s.drop_last()).insert(s.last().0, s.last().1.resource)
    }
}

/// Some stored entry carries this id.
spec fn has_key(s: Seq<(TextureId, ManagedTexture)>, tid: TextureId) -> bool {
    exists|i: int| 0 <= i < s.len() && (#[trigger] s[i]).0 == tid
}

proof fn lemma_map_contains(s: Seq<(TextureId, ManagedTexture)>, tid: TextureId)
    ensures
        map_of(s).contains_key(tid) <==> has_key(s, tid),
        rmap_of(s).contains_key(tid) <==> has_key(s, tid),
    decreases s.len(),
{
    if s.len() > 0 {
        lemma_map_contains(s.drop_last(), tid);
        if s.last().0 == tid {
            assert(s[s.len() - 1].0 == tid);
        } else {
            if has_key(s.drop_last(), tid) {
                let i = choose|i: int| 0 <= i < s.drop_last().len() && (#[trigger] s.drop_last()[i]).0 == tid;
                assert(s[i].0 == tid);
            }
            if has_key(s, tid) {
                let i = choose|i: int| 0 <= i < s.len() && (#[trigger] s[i]).0 == tid;
                assert(i < s.len() - 1);
                assert(s.drop_last()[i].0 == tid);
            }
        }
    }
}

/// No two stored entries share an id.
spec fn unique_keys(s: Seq<(TextureId, ManagedTexture)>) -> bool {
    forall|i: int, j: int| #![trigger s[i], s[j]] 0 <= i < j < s.len() ==> s[i].0 != s[j].0
}

proof fn lemma_map_at(s: Seq<(TextureId, ManagedTexture)>, i: int)
    requires
        unique_keys(s),
        0 <= i < s.len(),
    ensures
        map_of(s).contains_key(s[i].0),
        map_of(s)[s[i].0] == mirror_of(s[i].1),
        rmap_of(s).contains_key(s[i].0),
        rmap_of(s)[s[i].0] == s[i].1.resource,
    decreases s.len(),
{
    if i == s.len() - 1 {
    } else {
        lemma_map_at(s.drop_last(), i);
        assert(s.drop_last()[i] == s[i]);
        assert(s.last().0 != s[i].0);
    }
}

proof fn lemma_map_update(s: Seq<(TextureId, ManagedTexture)>, i: int, e: ManagedTexture)
    requires
        unique_keys(s),
        0 <= i < s.len(),
    ensures
        map_of(s.update(i, (s[i].0, e))) =~= map_of(s).insert(s[i].0, mirror_of(e)),
        rmap_of(s.update(i, (s[i].0, e))) =~= rmap_of(s).insert(s[i].0, e.resource),
        unique_keys(s.update(i, (s[i].0, e))),
    decreases s.len(),
{
    let t = s.update(i, (s[i].0, e));
    assert forall|a: int, b: int| #![trigger t[a], t[b]] 0 <= a < b < t.len() implies t[a].0
        != t[b].0 by {
        assert(s[a].0 != s[b].0);
    }
    if i == s.len() - 1 {
        assert(t.drop_last() =~= s.drop_last());
    } else {
        lemma_map_update(s.drop_last(), i, e);
        assert(t.drop_last() =~= s.drop_last().update(i, (s[i].0, e)));
        assert(t.last() == s.last());
        assert(s.last().0 != s[i].0);
    }
}

proof fn lemma_map_remove(s: Seq<(TextureId, ManagedTexture)>, i: int)
    requires
        unique_keys(s),
        0 <= i < s.len(),
    ensures
        map_of(s.remove(i)) =~= map_of(s).remove(s[i].0),
        rmap_of(s.remove(i)) =~= rmap_of(s).remove(s[i].0),
        unique_keys(s.remove(i)),
    decreases s.len(),
{
    let t = s.remove(i);
    assert forall|a: int, b: int| #![trigger t[a], t[b]] 0 <= a < b < t.len() implies t[a].0
        != t[b].0 by {
        if a < i && b < i {
            assert(s[a].0 != s[b].0);
        } else if a < i {
            assert(s[a].0 != s[b + 1].0);
        } else {
            assert(s[a + 1].0 != s[b + 1].0);
        }
    }
    if i == s.len() - 1 {
        assert(t =~= s.drop_last());
        lemma_map_contains(s.drop_last(), s[i].0);
        assert forall|k: int| 0 <= k < s.drop_last().len() implies (#[trigger] s.drop_last()[
            k
        ]).0 != s[i].0 by {
            assert(s[k].0 != s[i].0);
        }
        assert(!map_of(s.drop_last()).contains_key(s[i].0));
        assert(!rmap_of(s.drop_last()).contains_key(s[i].0));
    } else {
        lemma_map_remove(s.drop_last(), i);
        assert(t.drop_last() =~= s.drop_last().remove(i));
        assert(t.last() == s.last());
        assert(s.last().0 != s[i].0);
    }
}

/// The texture cache: GPU-resident images keyed by the toolkit's texture
/// id; the key's insertion order carries no meaning.
pub struct TextureAllocator {
    allocated: Vec<(TextureId, ManagedTexture)>,
}

impl TextureAllocator {
    /// The abstract cache: id to dimensions and pixel mirror.
    pub closed spec fn mirrors(self) -> Map<TextureId, MirrorEntry> {
        map_of(self.allocated@)
    }

    /// The shader-visible view handle stored for each id.
    pub closed spec fn view_handles(self) -> Map<TextureId, usize> {
        rmap_of(self.allocated@)
    }

    /// Ids are unique and every mirror covers its full image.
    pub closed spec fn wf(self) -> bool {
        &&& unique_keys(self.allocated@)
        &&& forall|k: int| #![trigger self.allocated@[k]] 0 <= k < self.allocated@.len()
            ==> self.allocated@[k].1.pixels@.len() == self.allocated@[k].1.width
                * self.allocated@[k].1.height
        &&& forall|i: int, j: int| #![trigger self.allocated@[i], self.allocated@[j]]
            0 <= i < j < self.allocated@.len() ==> self.allocated@[i].1.texture
                != self.allocated@[j].1.texture
    }

    /// Every entry's device objects exist on `d` and agree with the entry:
    /// the texture holds exactly the mirrored pixels, and the view refers
    /// to that texture.
    pub closed spec fn synced(self, d: Device) -> bool {
        forall|k: int| #![trigger self.allocated@[k]] 0 <= k < self.allocated@.len()
            ==> entry_synced(self.allocated@[k].1, d)
    }

    pub fn new() -> (t: Self)
        ensures
            t.wf(),
            t.mirrors() =~= Map::<TextureId, MirrorEntry>::empty(),
            forall|d: Device| t.synced(d),
    {
        TextureAllocator { allocated: Vec::new() }
    }

    /// The index of the entry for `tid`, if the id is known.
    fn find(&self, tid: TextureId) -> (r: Option<usize>)
        ensures
            r matches Some(i) ==> i < self.allocated@.len() && self.allocated@[i as int].0 == tid,
            r is None ==> forall|k: int| 0 <= k < self.allocated@.len()
                ==> (#[trigger] self.allocated@[k]).0 != tid,
    {
        let n: usize = self.allocated.len();
        let mut i: usize = 0;
        while i < n
            invariant
                n == self.allocated@.len(),
                0 <= i <= n,
                forall|k: int| 0 <= k < i ==> (#[trigger] self.allocated@[k]).0 != tid,
            decreases n - i,
        {
            let e = &self.allocated[i];
            if e.0 == tid {
                return Some(i);
            }
            i = i + 1;
        }
        None
    }

    /// The shader-visible view for `tid`, or nothing if the id is absent;
    /// callers treat "absent" as "skip drawing this mesh", never as fatal.
    pub fn get_by_id(&self, tid: TextureId) -> (r: Option<usize>)
        requires
            self.wf(),
        ensures
            r.is_some() <==> self.mirrors().contains_key(tid),
            r matches Some(h) ==> self.view_handles().contains_key(tid)
                && h == self.view_handles()[tid],
    {
        let r = self.find(tid);
        match r {
            Some(i) => {
                proof {
                    lemma_map_at(self.allocated@, i as int);
                }
                let e = &self.allocated[i];
                Some(e.1.resource)
            }
            None => {
                proof {
                    lemma_map_contains(self.allocated@, tid);
                }
                None
            }
        }
    }

    /// The mirrored pixels stored for `tid`, for callers that check what
    /// the cache believes the GPU holds.
    pub fn pixels_of(&self, tid: TextureId) -> (r: Option<&Vec<Rgba8>>)
        requires
            self.wf(),
        ensures
            r.is_some() <==> self.mirrors().contains_key(tid),
            r matches Some(p) ==> p@ == self.mirrors()[tid].pixels,
    {
        let r = self.find(tid);
        match r {
            Some(i) => {
                proof {
                    lemma_map_at(self.allocated@, i as int);
                }
                let e = &self.allocated[i];
                Some(&e.1.pixels)
            }
            None => {
                proof {
                    lemma_map_contains(self.allocated@, tid);
                }
                None
            }
        }
    }
}

impl TextureAllocator {
    /// Allocates a device texture holding the whole image and a
    /// shader-visible view onto it, and (re)binds them to `tid`; a
    /// previous entry under the same id gives up both its device objects,
    /// each released exactly once.
    fn allocate_new(&mut self, dev: &mut Device, tid: TextureId, image: &ImageRgba)
        requires
            old(self).wf(),
            old(self).synced(*old(dev)),
            old(dev).wf(),
            image.wf(),
            old(dev).n() + 2 <= usize::MAX,
        ensures
            final(self).wf(),
            final(self).synced(*final(dev)),
            final(dev).wf(),
            final(dev).n() == old(dev).n() + 2,
            final(self).mirrors() =~= old(self).mirrors().insert(
                tid,
                (MirrorEntry {
                    width: image.width as nat,
                    height: image.height as nat,
                    pixels: image.pixels@,
                }),
            ),
            non_texture_resources_same(*old(dev), *final(dev)),
            backbuffer_same(*old(dev), *final(dev)),
    {
        let th = dev.create(
            Resource::Texture(
                TextureData {
                    width: image.width,
                    height: image.height,
                    pixels: copy_vec(&image.pixels),
                },
            ),
        );
        let vh = dev.create(Resource::ShaderResourceView { texture: th });
        let entry = ManagedTexture {
            resource: vh,
            texture: th,
            pixels: copy_vec(&image.pixels),
            width: image.width,
            height: image.height,
        };
        let idx = self.find(tid);
        match idx {
            Some(i) => {
                proof {
                    assert(entry_synced(self.allocated@[i as int].1, *old(dev)));
                }
                let old_res: usize = self.allocated[i].1.resource;
                let old_tex: usize = self.allocated[i].1.texture;
                dev.release(old_res);
                dev.release(old_tex);
                let ghost s0 = self.allocated@;
                self.allocated.set(i, (tid, entry));
                proof {
                    assert(s0.update(i as int, (s0[i as int].0, entry)) =~= self.allocated@);
                    lemma_map_update(s0, i as int, entry);
                    assert forall|k: int| 0 <= k < self.allocated@.len()
                        implies entry_synced((#[trigger] self.allocated@[k]).1, *dev) by {
                        if k != i {
                            assert(entry_synced(s0[k].1, *old(dev)));
                        }
                    }
                    assert forall|a: int, b: int|
                        #![trigger self.allocated@[a], self.allocated@[b]]
                        0 <= a < b < self.allocated@.len()
                        implies self.allocated@[a].1.texture != self.allocated@[b].1.texture by {
                        if a != i && b != i {
                            assert(s0[a].1.texture != s0[b].1.texture);
                        } else if a == i {
                            assert(entry_synced(s0[b].1, *old(dev)));
                        } else {
                            assert(entry_synced(s0[a].1, *old(dev)));
                        }
                    }
                }
            }
            None => {
                let ghost s0 = self.allocated@;
                self.allocated.push((tid, entry));
                proof {
                    assert(self.allocated@.drop_last() =~= s0);
                    assert forall|k: int| 0 <= k < self.allocated@.len()
                        implies entry_synced((#[trigger] self.allocated@[k]).1, *dev) by {
                        if k < s0.len() {
                            assert(entry_synced(s0[k].1, *old(dev)));
                        }
                    }
                    assert forall|a: int, b: int|
                        #![trigger self.allocated@[a], self.allocated@[b]]
                        0 <= a < b < self.allocated@.len()
                        implies self.allocated@[a].0 != self.allocated@[b].0 by {
                        if b < s0.len() {
                            assert(s0[a].0 != s0[b].0);
                        } else {
                            assert(s0[a].0 != tid);
                        }
                    }
                    assert forall|a: int, b: int|
                        #![trigger self.allocated@[a], self.allocated@[b]]
                        0 <= a < b < self.allocated@.len()
                        implies self.allocated@[a].1.texture != self.allocated@[b].1.texture by {
                        if b < s0.len() {
                            assert(s0[a].1.texture != s0[b].1.texture);
                        } else {
                            assert(entry_synced(s0[a].1, *old(dev)));
                        }
                    }
                }
            }
        }
    }

    /// Releases a managed texture's device objects and removes it from the
    /// cache; an unknown id is reported, not fatal.
    fn free(&mut self, dev: &mut Device, tid: TextureId) -> (r: bool)
        requires
            old(self).wf(),
            old(self).synced(*old(dev)),
            old(dev).wf(),
        ensures
            final(self).wf(),
            final(self).synced(*final(dev)),
            final(dev).wf(),
            final(dev).n() == old(dev).n(),
            resources_same(*old(dev), *final(dev)),
            non_texture_resources_same(*old(dev), *final(dev)),
            backbuffer_same(*old(dev), *final(dev)),
            r == old(self).mirrors().contains_key(tid),
            final(self).mirrors() =~= old(self).mirrors().remove(tid),
    {
        let idx = self.find(tid);
        match idx {
            Some(i) => {
                proof {
                    assert(entry_synced(self.allocated@[i as int].1, *old(dev)));
                    lemma_map_at(self.allocated@, i as int);
                }
                let old_res: usize = self.allocated[i].1.resource;
                let old_tex: usize = self.allocated[i].1.texture;
                dev.release(old_res);
                dev.release(old_tex);
                let ghost s0 = self.allocated@;
                let _ = self.allocated.remove(i);
                proof {
                    lemma_map_remove(s0, i as int);
                    assert forall|k: int| 0 <= k < self.allocated@.len()
                        implies entry_synced((#[trigger] self.allocated@[k]).1, *dev) by {
                        if k < i {
                            assert(entry_synced(s0[k].1, *old(dev)));
                        } else {
                            assert(entry_synced(s0[k + 1].1, *old(dev)));
                        }
                    }
                    assert forall|a: int, b: int|
                        #![trigger self.allocated@[a], self.allocated@[b]]
                        0 <= a < b < self.allocated@.len()
                        implies self.allocated@[a].1.texture != self.allocated@[b].1.texture by {
                        if a < i && b < i {
                            assert(s0[a].1.texture != s0[b].1.texture);
                        } else if a < i {
                            assert(s0[a].1.texture != s0[b + 1].1.texture);
                        } else {
                            assert(s0[a + 1].1.texture != s0[b + 1].1.texture);
                        }
                    }
                }
                true
            }
            None => {
                proof {
                    lemma_map_contains(self.allocated@, tid);
                    assert(self.mirrors().remove(tid) =~= self.mirrors());
                }
                false
            }
        }
    }

    /// Applies a partial update: reconstitutes the full image from the
    /// CPU-side mirror, overwrites the delta rectangle, re-uploads the
    /// whole region, and keeps the mirror in step.  An unknown id or a
    /// rectangle that does not fit is skipped, never fatal.
    fn update_partial(
        &mut self,
        dev: &mut Device,
        tid: TextureId,
        image: &ImageRgba,
        nx: usize,
        ny: usize,
    ) -> (r: bool)
        requires
            old(self).wf(),
            old(self).synced(*old(dev)),
            old(dev).wf(),
            image.wf(),
        ensures
            final(self).wf(),
            final(self).synced(*final(dev)),
            final(dev).wf(),
            final(dev).n() == old(dev).n(),
            non_texture_resources_same(*old(dev), *final(dev)),
            backbuffer_same(*old(dev), *final(dev)),
            r == delta_fits(old(self).mirrors(), tid, nx as int, ny as int, *image),
            final(self).mirrors() =~= apply_one(
                old(self).mirrors(),
                tid,
                (TextureDelta { pos: Some((nx, ny)), image: *image }),
            ),
    {
        let idx = self.find(tid);
        match idx {
            None => {
                proof {
                    lemma_map_contains(self.allocated@, tid);
                }
                false
            }
            Some(i) => {
                proof {
                    lemma_map_at(self.allocated@, i as int);
                    assert(entry_synced(self.allocated@[i as int].1, *old(dev)));
                }
                let w: usize = self.allocated[i].1.width;
                let h: usize = self.allocated[i].1.height;
                let tex: usize = self.allocated[i].1.texture;
                let res_h: usize = self.allocated[i].1.resource;
                if nx <= w && image.width <= w - nx && ny <= h && image.height <= h - ny {
                    let merged = blit_pixels(&self.allocated[i].1.pixels, w, h, nx, ny, image);
                    dev.write_texture(tex, copy_vec(&merged));
                    let entry = ManagedTexture {
                        resource: res_h,
                        texture: tex,
                        pixels: merged,
                        width: w,
                        height: h,
                    };
                    let ghost s0 = self.allocated@;
                    self.allocated.set(i, (tid, entry));
                    proof {
                        assert(s0.update(i as int, (s0[i as int].0, entry)) =~= self.allocated@);
                        lemma_map_update(s0, i as int, entry);
                        assert forall|k: int| 0 <= k < self.allocated@.len()
                            implies entry_synced((#[trigger] self.allocated@[k]).1, *dev) by {
                            assert(entry_synced(s0[k].1, *old(dev)));
                            if k != i {
                                assert(s0[k].1.texture != tex);
                            }
                        }
                        assert forall|a: int, b: int|
                            #![trigger self.allocated@[a], self.allocated@[b]]
                            0 <= a < b < self.allocated@.len()
                            implies self.allocated@[a].1.texture
                            != self.allocated@[b].1.texture by {
                            assert(s0[a].1.texture != s0[b].1.texture);
                        }
                    }
                    true
                } else {
                    false
                }
            }
        }
    }

    /// Applies one frame's texture deltas in order: every "set" — a full
    /// replacement or a partial update — first, then every free.
    pub fn process_deltas(&mut self, dev: &mut Device, delta: TexturesDelta)
        requires
            old(self).wf(),
            old(self).synced(*old(dev)),
            old(dev).wf(),
            deltas_wf(delta),
            old(dev).n() + 2 * delta.set@.len() <= usize::MAX,
        ensures
            final(self).wf(),
            final(self).synced(*final(dev)),
            final(dev).wf(),
            final(self).mirrors() =~= apply_deltas(old(self).mirrors(), delta),
            old(dev).n() <= final(dev).n() <= old(dev).n() + 2 * delta.set@.len(),
            non_texture_resources_same(*old(dev), *final(dev)),
            backbuffer_same(*old(dev), *final(dev)),
    {
        let ns: usize = delta.set.len();
        let mut i: usize = 0;
        while i < ns
            invariant
                ns == delta.set@.len(),
                0 <= i <= ns,
                self.wf(),
                self.synced(*dev),
                dev.wf(),
                deltas_wf(delta),
                self.mirrors() =~= apply_sets(old(self).mirrors(), delta.set@.take(i as int)),
                old(dev).n() <= dev.n() <= old(dev).n() + 2 * i,
                dev.n() + 2 * (ns - i) <= usize::MAX,
                non_texture_resources_same(*old(dev), *dev),
                backbuffer_same(*old(dev), *dev),
            decreases ns - i,
        {
            let ghost m_pre = self.mirrors();
            let e = &delta.set[i];
            let tid = e.0;
            proof {
                assert(delta.set@[i as int].1.image.wf());
            }
            match &e.1.pos {
                None => {
                    self.allocate_new(dev, tid, &e.1.image);
                }
                Some(p) => {
                    let _ = self.update_partial(dev, tid, &e.1.image, p.0, p.1);
                }
            }
            proof {
                assert(delta.set@.take(i as int + 1).drop_last() =~= delta.set@.take(i as int));
                assert(delta.set@.take(i as int + 1).last() == delta.set@[i as int]);
                assert(self.mirrors() =~= apply_one(m_pre, tid, delta.set@[i as int].1));
                assert(self.mirrors() =~= apply_sets(
                    old(self).mirrors(),
                    delta.set@.take(i as int + 1),
                ));
            }
            i = i + 1;
        }
        proof {
            assert(delta.set@.take(ns as int) =~= delta.set@);
        }
        let ghost m_set = apply_sets(old(self).mirrors(), delta.set@);
        let nf: usize = delta.free.len();
        let mut j: usize = 0;
        while j < nf
            invariant
                nf == delta.free@.len(),
                0 <= j <= nf,
                self.wf(),
                self.synced(*dev),
                dev.wf(),
                self.mirrors() =~= apply_frees(m_set, delta.free@.take(j as int)),
                old(dev).n() <= dev.n() <= old(dev).n() + 2 * delta.set@.len(),
                non_texture_resources_same(*old(dev), *dev),
                backbuffer_same(*old(dev), *dev),
            decreases nf - j,
        {
            let ghost m_pre = self.mirrors();
            let tid = delta.free[j];
            let _ = self.free(dev, tid);
            proof {
                assert(delta.free@.take(j as int + 1).drop_last() =~= delta.free@.take(j as int));
                assert(delta.free@.take(j as int + 1).last() == delta.free@[j as int]);
                assert(self.mirrors() =~= apply_frees(m_set, delta.free@.take(j as int + 1)));
            }
            j = j + 1;
        }
        proof {
            assert(delta.free@.take(nf as int) =~= delta.free@);
        }
    }
}

/// One entry's device objects exist on `d` and agree with the entry.
pub closed spec fn entry_synced(e: ManagedTexture, d: Device) -> bool {
    &&& e.texture < d.n()
    &&& e.resource < d.n()
    &&& d.res(e.texture) matches Some(Resource::Texture(t)) && t.width == e.width && t.height
        == e.height && t.pixels@ == e.pixels@
    &&& d.res(e.resource) matches Some(Resource::ShaderResourceView { texture }) && texture
        == e.texture
}

/// The cache stays in step with the device as long as every object it
/// refers to keeps its record; newly issued handles do not disturb it.
pub proof fn lemma_synced_preserved(t: TextureAllocator, d1: Device, d2: Device)
    requires
        t.synced(d1),
        d2.n() >= d1.n(),
        forall|h: usize| #![trigger d2.res(h)] h < d1.n() ==> d2.res(h) == d1.res(h),
    ensures
        t.synced(d2),
{
    assert forall|k: int| 0 <= k < t.allocated@.len()
        implies entry_synced((#[trigger] t.allocated@[k]).1, d2) by {
        assert(entry_synced(t.allocated@[k].1, d1));
    }
}

} // verus!
