//! Layout of a texture atlas: textures are packed into one larger texture by
//! the `rect_packer` crate, one pixel away from the border and from each
//! other.

use vstd::prelude::*;

verus! {

/// The rectangle packer of the `rect_packer` crate.
#[verifier::external_type_specification]
#[verifier::external_body]
pub struct ExPacker(rect_packer::Packer);

/// The packer that `rect_packer::Packer::new` makes from a configuration
/// `(width, height, border_padding, rectangle_padding)`.
pub uninterp spec fn packer_for(width: i32, height: i32, border_padding: i32, rectangle_padding: i32) -> rect_packer::Packer;

/// The configuration a packer was made with: `(width, height,
/// border_padding, rectangle_padding)`.
pub uninterp spec fn packer_config(p: rect_packer::Packer) -> (i32, i32, i32, i32);

/// Where `Packer::pack` places a `w` by `h` rectangle, without rotation, in
/// packer `p`, as `(x, y, width, height)`; `None` when it finds no room.
pub uninterp spec fn pack_place(p: rect_packer::Packer, w: i32, h: i32) -> Option<(i32, i32, i32, i32)>;

/// The packer after `Packer::pack` was asked for a `w` by `h` rectangle.
pub uninterp spec fn pack_next(p: rect_packer::Packer, w: i32, h: i32) -> rect_packer::Packer;

/// The part of a packer's area still free: the points above its skyline,
/// in the coordinates of the rectangles it hands out (shifted by the border
/// padding).
pub uninterp spec fn packer_free(p: rect_packer::Packer) -> Set<(int, int)>;

/// Point `q` lies in rectangle `r` grown by `pad` to the right and below:
/// the room the packer takes for `r`.
pub open spec fn in_padded(r: (i32, i32, i32, i32), pad: int, q: (int, int)) -> bool {
    &&& r.0 <= q.0 < r.0 + r.2 + pad
    &&& r.1 <= q.1 < r.1 + r.3 + pad
}

/// Two rectangles are at least `gap` apart along one axis.
pub open spec fn separated(a: (i32, i32, i32, i32), b: (i32, i32, i32, i32), gap: int) -> bool {
    ||| a.0 + a.2 + gap <= b.0
    ||| b.0 + b.2 + gap <= a.0
    ||| a.1 + a.3 + gap <= b.1
    ||| b.1 + b.3 + gap <= a.1
}

/// Creates a packer with `rect_packer::Packer::new` for a `width` by
/// `height` area with the given paddings. Claimed: the result is the one
/// that configuration gives, and it remembers the configuration. The
/// requirements are those under which `Packer::new`'s arithmetic does not
/// overflow.
#[verifier::external_body]
fn new_packer(width: i32, height: i32, border_padding: i32, rectangle_padding: i32) -> (p: rect_packer::Packer)
    requires
        0 <= border_padding,
        0 <= rectangle_padding,
        2 * border_padding <= i32::MAX,
        i32::MIN <= width + rectangle_padding - 2 * border_padding,
        i32::MIN <= height + rectangle_padding - 2 * border_padding,
        width + rectangle_padding <= i32::MAX,
        height + rectangle_padding <= i32::MAX,
    ensures
        p == packer_for(width, height, border_padding, rectangle_padding),
        packer_config(p) == (width, height, border_padding, rectangle_padding),
{
    rect_packer::Packer::new(rect_packer::Config { width, height, border_padding, rectangle_padding })
}

/// The side of a packer's inner area, along an axis where the area is `c`
/// long: `c + rectangle_padding - 2 * border_padding`, or 0 when that is
/// negative.
pub open spec fn inner_extent(c: int, rectangle_padding: int, border_padding: int) -> int {
    let e = c + rectangle_padding - 2 * border_padding;
    if e < 0 {
        0
    } else {
        e
    }
}

/// Packs a `w` by `h` rectangle, without rotation, with
/// `rect_packer::Packer::pack`. Claimed, from the crate's skyline packer:
/// the result and the packer afterwards are the ones `pack_place` and
/// `pack_next` name; a rectangle handed out has exactly the requested size,
/// keeps the border padding to every edge of the area, and, grown by the
/// rectangle padding, lies in the free part of the area, which afterwards
/// has lost at least that room and gained nothing; `None` (always for a
/// non-positive size) leaves the packer as it was. A packer as `new` made
/// it is one skyline across its inner area, so there any rectangle that
/// fits inside the border padding is placed. Which place is chosen, and
/// whether one is found otherwise, is not stated.
#[verifier::external_body]
fn pack_rect(p: &mut rect_packer::Packer, w: i32, h: i32) -> (r: Option<(i32, i32, i32, i32)>)
    requires
        packer_config(*old(p)).2 >= 0,
        packer_config(*old(p)).3 >= 0,
        w + packer_config(*old(p)).3 + inner_extent(
            packer_config(*old(p)).0 as int,
            packer_config(*old(p)).3 as int,
            packer_config(*old(p)).2 as int,
        ) <= i32::MAX,
        h + packer_config(*old(p)).3 + inner_extent(
            packer_config(*old(p)).1 as int,
            packer_config(*old(p)).3 as int,
            packer_config(*old(p)).2 as int,
        ) <= i32::MAX,
    ensures
        r == pack_place(*old(p), w, h),
        *final(p) == pack_next(*old(p), w, h),
        packer_config(*final(p)) == packer_config(*old(p)),
        *old(p) == packer_for(
            packer_config(*old(p)).0,
            packer_config(*old(p)).1,
            packer_config(*old(p)).2,
            packer_config(*old(p)).3,
        ) && 0 < w && 0 < h && w + 2 * packer_config(*old(p)).2 <= packer_config(*old(p)).0 && h + 2
            * packer_config(*old(p)).2 <= packer_config(*old(p)).1 ==> r is Some,
        match r {
            Some(rect) => {
                &&& w > 0 && h > 0
                &&& rect.2 == w && rect.3 == h
                &&& rect.0 >= packer_config(*old(p)).2
                &&& rect.1 >= packer_config(*old(p)).2
                &&& rect.0 + w + packer_config(*old(p)).2 <= packer_config(*old(p)).0
                &&& rect.1 + h + packer_config(*old(p)).2 <= packer_config(*old(p)).1
                &&& forall|q: (int, int)|
                    #[trigger] in_padded(rect, packer_config(*old(p)).3 as int, q) ==> packer_free(
                        *old(p),
                    ).contains(q)
                &&& forall|q: (int, int)|
                    #[trigger] packer_free(*final(p)).contains(q) ==> packer_free(*old(p)).contains(q)
                        && !in_padded(rect, packer_config(*old(p)).3 as int, q)
            },
            None => *final(p) == *old(p),
        },
{
    p.pack(w, h, false).map(|rect| (rect.x, rect.y, rect.width, rect.height))
}

/// `frames` places the textures of sizes `sizes` in a `width` by `height`
/// atlas: frame `k` belongs to texture `k`; a placed texture keeps its
/// (positive) size and lies one pixel or more inside the border, and any two placed
/// textures are one pixel or more apart.
pub open spec fn is_atlas_layout(sizes: Seq<(i32, i32)>, width: int, height: int, frames: Seq<Option<(i32, i32, i32, i32)>>) -> bool {
    &&& frames.len() == sizes.len()
    &&& forall|k: int|
        0 <= k < frames.len() && #[trigger] frames[k] is Some ==> {
            let f = frames[k].unwrap();
            &&& f.2 == sizes[k].0 && f.3 == sizes[k].1
            &&& f.2 > 0 && f.3 > 0
            &&& f.0 >= 1 && f.1 >= 1
            &&& f.0 + f.2 + 1 <= width && f.1 + f.3 + 1 <= height
        }
    &&& forall|j: int, k: int|
        0 <= j < k < frames.len() && #[trigger] frames[j] is Some && #[trigger] frames[k] is Some ==> separated(
            frames[j].unwrap(),
            frames[k].unwrap(),
            1,
        )
}

/// `v as i32`: the same bits read as a signed number.
pub open spec fn atlas_side(v: u32) -> i32 {
    if v <= 0x7fff_ffff {
        v as i32
    } else {
        (v - 0x1_0000_0000) as i32
    }
}

fn side_as_i32(v: u32) -> (r: i32)
    ensures
        r == atlas_side(v),
{
    if v <= 0x7fff_ffff {
        v as i32
    } else {
        (v as i64 - 0x1_0000_0000i64) as i32
    }
}

/// The first texture has a positive size and fits a `width` by `height`
/// atlas inside one pixel of padding.
pub open spec fn first_fits(sizes: Seq<(i32, i32)>, width: u32, height: u32) -> bool {
    &&& sizes.len() > 0
    &&& 0 < sizes[0].0 && sizes[0].0 + 2 <= width <= i32::MAX
    &&& 0 < sizes[0].1 && sizes[0].1 + 2 <= height <= i32::MAX
}

/// The frames `Packer::pack` gives textures of sizes `sizes`, asked for in
/// order, starting from packer `p`.
pub open spec fn packed_frames(p: rect_packer::Packer, sizes: Seq<(i32, i32)>) -> Seq<Option<(i32, i32, i32, i32)>>
    decreases sizes.len(),
{
    if sizes.len() == 0 {
        Seq::empty()
    } else {
        seq![pack_place(p, sizes[0].0, sizes[0].1)] + packed_frames(
            pack_next(p, sizes[0].0, sizes[0].1),
            sizes.drop_first(),
        )
    }
}

/// Lays out a texture atlas: packs the textures of the given sizes, in
/// order, into a `width` by `height` area with one pixel of padding at the
/// border and between textures; the sides are taken as `i32`, so a side
/// above `i32::MAX` has room for nothing. Frame `k` is texture `k`'s place,
/// `None` when it did not fit: exactly what the packer gives when asked for
/// the textures one after the other. The first texture is placed whenever
/// it fits the atlas. The two sides whose `i32` value overflows the
/// packer's setup are excluded.
pub fn pack_atlas(sizes: &Vec<(i32, i32)>, width: u32, height: u32) -> (frames: Vec<Option<(i32, i32, i32, i32)>>)
    requires
        atlas_side(width) != i32::MAX && atlas_side(width) != i32::MIN,
        atlas_side(height) != i32::MAX && atlas_side(height) != i32::MIN,
        forall|k: int|
            0 <= k < sizes@.len() ==> #[trigger] sizes@[k].0 + 1 + inner_extent(atlas_side(width) as int, 1, 1)
                <= i32::MAX && sizes@[k].1 + 1 + inner_extent(atlas_side(height) as int, 1, 1) <= i32::MAX,
    ensures
        frames@ == packed_frames(packer_for(atlas_side(width), atlas_side(height), 1, 1), sizes@),
        is_atlas_layout(sizes@, width as int, height as int, frames@),
        first_fits(sizes@, width, height) ==> frames@[0] is Some,
{
    let mut packer = new_packer(side_as_i32(width), side_as_i32(height), 1, 1);
    let ghost start = packer;
    let ghost cfg = packer_config(packer);
    let mut frames: Vec<Option<(i32, i32, i32, i32)>> = Vec::new();
    let n = sizes.len();
    let mut i: usize = 0;
    assert(sizes@.skip(0) =~= sizes@);
    assert(frames@ + packed_frames(packer, sizes@.skip(0)) =~= packed_frames(start, sizes@));
    while i < n
        invariant
            n == sizes@.len(),
            i <= n,
            forall|k: int|
                0 <= k < sizes@.len() ==> #[trigger] sizes@[k].0 + 1 + inner_extent(atlas_side(width) as int, 1, 1)
                    <= i32::MAX && sizes@[k].1 + 1 + inner_extent(atlas_side(height) as int, 1, 1) <= i32::MAX,
            start == packer_for(atlas_side(width), atlas_side(height), 1, 1),
            cfg == (atlas_side(width), atlas_side(height), 1i32, 1i32),
            packer_config(start) == cfg,
            packer_config(packer) == cfg,
            atlas_side(width) <= width && atlas_side(height) <= height,
            i == 0 ==> packer == start,
            i > 0 && first_fits(sizes@, width, height) ==> frames@[0] is Some,
            frames@ + packed_frames(packer, sizes@.skip(i as int)) == packed_frames(start, sizes@),
            is_atlas_layout(sizes@.take(i as int), width as int, height as int, frames@),
            forall|k: int, q: (int, int)|
                0 <= k < frames@.len() && #[trigger] frames@[k] is Some && #[trigger] in_padded(
                    frames@[k].unwrap(),
                    1,
                    q,
                ) ==> !packer_free(packer).contains(q),
        decreases n - i,
    {
        let (w, h) = sizes[i];
        let ghost prev = packer;
        let ghost old_frames = frames@;
        let placed = pack_rect(&mut packer, w, h);
        frames.push(placed);
        proof {
            let rest = sizes@.skip(i as int);
            assert(rest[0] == (w, h));
            assert(rest.drop_first() =~= sizes@.skip(i + 1));
            assert(packed_frames(prev, rest) == seq![placed] + packed_frames(packer, sizes@.skip(i + 1)));
            assert(frames@ + packed_frames(packer, sizes@.skip(i + 1)) =~= old_frames + packed_frames(prev, rest));
            let s = sizes@.take(i + 1);
            assert(sizes@.take(i as int) =~= s.drop_last());
            assert forall|k: int, q: (int, int)|
                0 <= k < frames@.len() && #[trigger] frames@[k] is Some && #[trigger] in_padded(
                    frames@[k].unwrap(),
                    1,
                    q,
                ) implies !packer_free(packer).contains(q) by {
                if k < i {
                    assert(frames@[k] == old_frames[k]);
                    assert(!packer_free(prev).contains(q));
                }
            }
            assert forall|k: int|
                0 <= k < frames@.len() && #[trigger] frames@[k] is Some implies {
                let f = frames@[k].unwrap();
                &&& f.2 == s[k].0 && f.3 == s[k].1
                &&& f.2 > 0 && f.3 > 0
                &&& f.0 >= 1 && f.1 >= 1
                &&& f.0 + f.2 + 1 <= width && f.1 + f.3 + 1 <= height
            } by {
                if k < i {
                    assert(frames@[k] == old_frames[k]);
                    assert(s[k] == sizes@.take(i as int)[k]);
                }
            }
            assert forall|j: int, k: int|
                0 <= j < k < frames@.len() && #[trigger] frames@[j] is Some && #[trigger] frames@[k] is Some implies separated(
                frames@[j].unwrap(),
                frames@[k].unwrap(),
                1,
            ) by {
                assert(frames@[j] == old_frames[j]);
                if k < i {
                    assert(frames@[k] == old_frames[k]);
                } else {
                    let a = old_frames[j].unwrap();
                    let b = placed.unwrap();
                    if !separated(a, b, 1) {
                        let q: (int, int) = (
                            if a.0 < b.0 { b.0 as int } else { a.0 as int },
                            if a.1 < b.1 { b.1 as int } else { a.1 as int },
                        );
                        assert(packer_config(prev).3 as int == 1);
                        assert(in_padded(b, packer_config(prev).3 as int, q));
                        assert(packer_free(prev).contains(q));
                        assert(in_padded(frames@[j].unwrap(), 1, q));
                        assert(!packer_free(prev).contains(q));
                    }
                }
            }
        }
        i = i + 1;
    }
    assert(sizes@.take(n as int) =~= sizes@);
    assert(sizes@.skip(n as int) =~= Seq::<(i32, i32)>::empty());
    assert(packed_frames(packer, sizes@.skip(n as int)) =~= Seq::<Option<(i32, i32, i32, i32)>>::empty());
    assert(frames@ =~= frames@ + packed_frames(packer, sizes@.skip(n as int)));
    frames
}

} // verus!
