//! The glyph atlas: shelf placement of glyph images in a square texture,
//! the bounding box of a rasterised glyph, and the row-aligned byte layout
//! in which a glyph is uploaded.

use vstd::prelude::*;

verus! {

/// Edge length, in pixels, of the glyph atlas texture.
pub const ATLAS_SIZE: u32 = 2048;

/// Gap, in pixels, kept around every glyph in the atlas.
pub const ATLAS_PADDING: u32 = 1;

/// The cursor of shelf packing: glyphs are laid left to right on the current
/// shelf (row), whose height is that of its tallest glyph; a glyph that does
/// not fit on the shelf opens the next one below it.
#[derive(Debug, Clone, Copy, PartialEq, Eq, Structural)]
pub struct GlyphShelf {
    pub next_x: u32,
    pub next_y: u32,
    pub row_height: u32,
}

/// A glyph of width `w` does not fit on the current shelf.
pub open spec fn shelf_full(s: GlyphShelf, w: u32) -> bool {
    s.next_x + w + ATLAS_PADDING > ATLAS_SIZE
}

/// The cursor after opening a new shelf when a glyph of width `w` does not
/// fit on the current one.
pub open spec fn shelf_for(s: GlyphShelf, w: u32) -> GlyphShelf {
    if shelf_full(s, w) {
        GlyphShelf {
            next_x: ATLAS_PADDING,
            next_y: (s.next_y + s.row_height + ATLAS_PADDING) as u32,
            row_height: 0,
        }
    } else {
        s
    }
}

/// Placing a `w` by `h` glyph: the new cursor, and the glyph's top-left
/// corner, or `None` when it runs past the bottom of the atlas (the new
/// shelf, if one was opened, stays open).
pub open spec fn place_outcome(s: GlyphShelf, w: u32, h: u32) -> (GlyphShelf, Option<(u32, u32)>) {
    let t = shelf_for(s, w);
    if t.next_y + h + ATLAS_PADDING > ATLAS_SIZE {
        (t, None)
    } else {
        (
            GlyphShelf {
                next_x: (t.next_x + w + ATLAS_PADDING) as u32,
                next_y: t.next_y,
                row_height: if h > t.row_height { h } else { t.row_height },
            },
            Some((t.next_x, t.next_y)),
        )
    }
}

/// Placing a `w` by `h` glyph runs without overflow.
pub open spec fn place_computable(s: GlyphShelf, w: u32, h: u32) -> bool {
    &&& s.next_x + w + ATLAS_PADDING <= u32::MAX
    &&& 2 * ATLAS_PADDING + w <= u32::MAX
    &&& s.next_y + s.row_height + ATLAS_PADDING <= u32::MAX
    &&& shelf_for(s, w).next_y + h + ATLAS_PADDING <= u32::MAX
}

/// The cursor never moves into the padding at the atlas's top-left edges.
pub open spec fn shelf_wf(s: GlyphShelf) -> bool {
    s.next_x >= ATLAS_PADDING && s.next_y >= ATLAS_PADDING
}

/// The glyph at `(x, y)` of size `w` by `h` lies wholly in the part of the
/// atlas the cursor has passed: on an earlier shelf, or on the current shelf
/// left of the cursor.
pub open spec fn settled(s: GlyphShelf, x: int, y: int, w: int, h: int) -> bool {
    ||| y + h + ATLAS_PADDING <= s.next_y
    ||| (y == s.next_y && x + w + ATLAS_PADDING <= s.next_x && h <= s.row_height)
}

/// Two rectangles do not overlap.
pub open spec fn disjoint(x1: int, y1: int, w1: int, h1: int, x2: int, y2: int, w2: int, h2: int) -> bool {
    x1 + w1 <= x2 || x2 + w2 <= x1 || y1 + h1 <= y2 || y2 + h2 <= y1
}

impl GlyphShelf {
    /// An empty atlas: the cursor at the padding corner, no shelf height yet.
    pub fn new() -> (r: GlyphShelf)
        ensures
            r == (GlyphShelf { next_x: ATLAS_PADDING, next_y: ATLAS_PADDING, row_height: 0 }),
            shelf_wf(r),
    {
        GlyphShelf { next_x: ATLAS_PADDING, next_y: ATLAS_PADDING, row_height: 0 }
    }

    /// Finds a place for a `w` by `h` glyph, moving the cursor past it, and
    /// returns its top-left corner; `None` when the atlas is full.
    pub fn place(&mut self, w: u32, h: u32) -> (r: Option<(u32, u32)>)
        requires
            place_computable(*old(self), w, h),
        ensures
            (*final(self), r) == place_outcome(*old(self), w, h),
    {
        if self.next_x + w + ATLAS_PADDING > ATLAS_SIZE {
            self.next_x = ATLAS_PADDING;
            self.next_y = self.next_y + self.row_height + ATLAS_PADDING;
            self.row_height = 0;
        }
        if self.next_y + h + ATLAS_PADDING > ATLAS_SIZE {
            return None;
        }
        let x = self.next_x;
        let y = self.next_y;
        self.next_x = self.next_x + w + ATLAS_PADDING;
        if h > self.row_height {
            self.row_height = h;
        }
        Some((x, y))
    }
}

/// Glyphs never overlap: a glyph already placed stays in the settled part
/// of the atlas whatever is placed next, and a newly placed glyph is settled
/// and overlaps no settled glyph. Since an empty atlas has nothing settled,
/// all glyphs placed since the atlas was created are pairwise disjoint.
pub proof fn law_placements_disjoint(s: GlyphShelf, w: u32, h: u32, x: int, y: int, gw: int, gh: int)
    requires
        place_computable(s, w, h),
        settled(s, x, y, gw, gh),
        gw >= 0,
        gh >= 0,
    ensures
        settled(place_outcome(s, w, h).0, x, y, gw, gh),
        place_outcome(s, w, h).1 matches Some((px, py)) ==> settled(
            place_outcome(s, w, h).0,
            px as int,
            py as int,
            w as int,
            h as int,
        ) && disjoint(px as int, py as int, w as int, h as int, x, y, gw, gh),
{
}

/// Every glyph placed in a well-formed atlas, when it is at most the atlas
/// width less the padding on both sides, lies with its padding inside the
/// atlas; placing keeps the atlas well-formed.
pub proof fn law_placement_inside_atlas(s: GlyphShelf, w: u32, h: u32)
    requires
        shelf_wf(s),
        place_computable(s, w, h),
        w + 2 * ATLAS_PADDING <= ATLAS_SIZE,
    ensures
        shelf_wf(place_outcome(s, w, h).0),
        place_outcome(s, w, h).1 matches Some((px, py)) ==> ATLAS_PADDING <= px && px + w + ATLAS_PADDING
            <= ATLAS_SIZE && ATLAS_PADDING <= py && py + h + ATLAS_PADDING <= ATLAS_SIZE,
{
}

/// The alpha byte of pixel `(x, y)` of an RGBA image `iw` pixels wide whose
/// bytes are stored row by row.
pub open spec fn alpha_at(raw: Seq<u8>, iw: int, x: int, y: int) -> u8 {
    raw[(y * iw + x) * 4 + 3]
}

/// Pixel `(x, y)` is not fully transparent.
pub open spec fn opaque(raw: Seq<u8>, iw: int, x: int, y: int) -> bool {
    alpha_at(raw, iw, x, y) > 0
}

/// Some pixel of the `w` by `h` top-left corner is not fully transparent.
pub open spec fn any_opaque(raw: Seq<u8>, iw: int, w: int, h: int) -> bool {
    exists|x: int, y: int| 0 <= x < w && 0 <= y < h && #[trigger] opaque(raw, iw, x, y)
}

/// `b = (min_x, min_y, max_x, max_y)` is the bounding box of the visible
/// pixels of the `w` by `h` corner: the smallest and largest columns and rows
/// holding one. With no visible pixel it is `(w, h, 0, 0)`.
pub open spec fn is_visible_bounds(raw: Seq<u8>, iw: int, w: int, h: int, b: (u32, u32, u32, u32)) -> bool {
    if any_opaque(raw, iw, w, h) {
        &&& b.0 < w && b.2 < w && b.1 < h && b.3 < h
        &&& forall|x: int, y: int|
            0 <= x < w && 0 <= y < h && #[trigger] opaque(raw, iw, x, y) ==> b.0 <= x <= b.2 && b.1 <= y <= b.3
        &&& exists|y: int| 0 <= y < h && #[trigger] opaque(raw, iw, b.0 as int, y)
        &&& exists|y: int| 0 <= y < h && #[trigger] opaque(raw, iw, b.2 as int, y)
        &&& exists|x: int| 0 <= x < w && #[trigger] opaque(raw, iw, x, b.1 as int)
        &&& exists|x: int| 0 <= x < w && #[trigger] opaque(raw, iw, x, b.3 as int)
    } else {
        b == (w as u32, h as u32, 0u32, 0u32)
    }
}

/// Pixel `(x, y)` comes before the scan position `(sx, sy)` in row-major
/// order, within the first `w` columns.
pub open spec fn scanned(w: int, sy: int, sx: int, x: int, y: int) -> bool {
    0 <= x < w && 0 <= y && (y < sy || (y == sy && x < sx))
}

/// What the bounding-box scan knows at scan position `(sx, sy)`: `found`
/// tells whether a visible pixel was passed, `b` bounds all of them, and
/// `wit` holds, for each side of `b`, a visible pixel lying on it.
pub open spec fn scan_ok(
    raw: Seq<u8>,
    iw: int,
    w: int,
    h: int,
    sy: int,
    sx: int,
    b: (u32, u32, u32, u32),
    found: bool,
    wit: (int, int, int, int),
) -> bool {
    &&& found <==> exists|x: int, y: int| scanned(w, sy, sx, x, y) && #[trigger] opaque(raw, iw, x, y)
    &&& forall|x: int, y: int|
        scanned(w, sy, sx, x, y) && #[trigger] opaque(raw, iw, x, y) ==> b.0 <= x <= b.2 && b.1 <= y <= b.3
    &&& found ==> {
        &&& scanned(w, sy, sx, b.0 as int, wit.0) && opaque(raw, iw, b.0 as int, wit.0)
        &&& scanned(w, sy, sx, b.2 as int, wit.1) && opaque(raw, iw, b.2 as int, wit.1)
        &&& scanned(w, sy, sx, wit.2, b.1 as int) && opaque(raw, iw, wit.2, b.1 as int)
        &&& scanned(w, sy, sx, wit.3, b.3 as int) && opaque(raw, iw, wit.3, b.3 as int)
    }
    &&& !found ==> b == (w as u32, h as u32, 0u32, 0u32)
}

/// Finds the bounding box `(min_x, min_y, max_x, max_y)` of the visible
/// pixels in the `w` by `h` top-left corner of an RGBA image `iw` pixels
/// wide; `(w, h, 0, 0)` when all of them are transparent.
pub fn find_bounds(raw: &Vec<u8>, iw: u32, w: u32, h: u32) -> (r: (u32, u32, u32, u32))
    requires
        w <= iw,
        (iw as int) * (h as int) * 4 <= raw.len(),
    ensures
        is_visible_bounds(raw@, iw as int, w as int, h as int, r),
{
    let ghost img = raw@;
    let ghost iwi = iw as int;
    let ghost wi = w as int;
    let ghost hi = h as int;
    let mut min_x: u32 = w;
    let mut min_y: u32 = h;
    let mut max_x: u32 = 0;
    let mut max_y: u32 = 0;
    let ghost mut found = false;
    let ghost mut wit: (int, int, int, int) = (0, 0, 0, 0);
    let len: usize = raw.len();
    let mut y: u32 = 0;
    while y < h
        invariant
            img == raw@,
            iwi == iw as int,
            wi == w as int,
            hi == h as int,
            w <= iw,
            iwi * hi * 4 <= img.len(),
            len == img.len(),
            y <= h,
            scan_ok(img, iwi, wi, hi, y as int, 0, (min_x, min_y, max_x, max_y), found, wit),
            found ==> min_x < w && max_x < w && min_y < h && max_y < h,
        decreases h - y,
    {
        assert((y as int) * iwi <= iwi * hi) by (nonlinear_arith)
            requires
                y < h,
                iwi >= 0,
                iwi == iw as int,
                hi == h as int,
        ;
        let row_base: usize = (y as usize) * (iw as usize);
        let mut x: u32 = 0;
        while x < w
            invariant
                img == raw@,
                iwi == iw as int,
                wi == w as int,
                hi == h as int,
                w <= iw,
                iwi * hi * 4 <= img.len(),
                len == img.len(),
                y < h,
                x <= w,
                row_base as int == (y as int) * iwi,
                scan_ok(img, iwi, wi, hi, y as int, x as int, (min_x, min_y, max_x, max_y), found, wit),
                found ==> min_x < w && max_x < w && min_y < h && max_y < h,
            decreases w - x,
        {
            assert((y as int) * iwi + (x as int) < iwi * hi) by (nonlinear_arith)
                requires
                    y < h,
                    x < w,
                    w <= iw,
                    iwi == iw as int,
                    hi == h as int,
            ;
            let idx: usize = (row_base + x as usize) * 4 + 3;
            let ghost old_b = (min_x, min_y, max_x, max_y);
            let ghost old_found = found;
            let ghost old_wit = wit;
            if raw[idx] > 0 {
                assert(opaque(img, iwi, x as int, y as int));
                proof {
                    if !found {
                        wit = (y as int, y as int, x as int, x as int);
                    }
                }
                if x < min_x {
                    min_x = x;
                    proof {
                        wit.0 = y as int;
                    }
                }
                if y < min_y {
                    min_y = y;
                    proof {
                        wit.2 = x as int;
                    }
                }
                if x > max_x {
                    max_x = x;
                    proof {
                        wit.1 = y as int;
                    }
                }
                if y > max_y {
                    max_y = y;
                    proof {
                        wit.3 = x as int;
                    }
                }
                proof {
                    if !old_found {
                        assert(min_x == x && min_y == y);
                        assert(max_x == x) by {
                            if x > 0 {
                            }
                        }
                        assert(max_y == y);
                    }
                    found = true;
                }
            }
            proof {
                let b = (min_x, min_y, max_x, max_y);
                let sy = y as int;
                let sx = x as int;
                assert forall|px: int, py: int|
                    scanned(wi, sy, sx + 1, px, py) && #[trigger] opaque(img, iwi, px, py) implies b.0 <= px
                    <= b.2 && b.1 <= py <= b.3 by {
                    if scanned(wi, sy, sx, px, py) {
                    } else {
                        assert(px == sx && py == sy);
                    }
                }
                if found {
                    if old_found {
                        let (ex, ey) = choose|ex: int, ey: int| scanned(wi, sy, sx, ex, ey) && #[trigger] opaque(img, iwi, ex, ey);
                        assert(scanned(wi, sy, sx + 1, ex, ey));
                    } else {
                        assert(scanned(wi, sy, sx + 1, sx, sy));
                    }
                } else {
                    assert forall|px: int, py: int|
                        scanned(wi, sy, sx + 1, px, py) implies !#[trigger] opaque(img, iwi, px, py) by {
                        if scanned(wi, sy, sx, px, py) {
                        } else {
                            assert(px == sx && py == sy);
                        }
                    }
                }
            }
            x = x + 1;
        }
        proof {
            let b = (min_x, min_y, max_x, max_y);
            let sy = y as int;
            assert forall|px: int, py: int| #[trigger] scanned(wi, sy + 1, 0, px, py) == scanned(wi, sy, wi, px, py) by {
            }
            if found {
                let (ex, ey) = choose|ex: int, ey: int| scanned(wi, sy, wi, ex, ey) && #[trigger] opaque(img, iwi, ex, ey);
                assert(scanned(wi, sy + 1, 0, ex, ey));
            }
        }
        y = y + 1;
    }
    proof {
        let b = (min_x, min_y, max_x, max_y);
        assert forall|px: int, py: int| #[trigger] scanned(wi, hi, 0, px, py) == (0 <= px < wi && 0 <= py < hi) by {
        }
        if found {
            let (ex, ey) = choose|ex: int, ey: int| scanned(wi, hi, 0, ex, ey) && #[trigger] opaque(img, iwi, ex, ey);
            assert(0 <= ex < wi && 0 <= ey < hi);
            assert(any_opaque(img, iwi, wi, hi));
        } else {
            if any_opaque(img, iwi, wi, hi) {
                let (ex, ey) = choose|ex: int, ey: int| 0 <= ex < wi && 0 <= ey < hi && #[trigger] opaque(img, iwi, ex, ey);
                assert(scanned(wi, hi, 0, ex, ey));
            }
        }
    }
    (min_x, min_y, max_x, max_y)
}

/// Bytes per uploaded row of a glyph `width` pixels wide: its RGBA pixels
/// rounded up to a multiple of 256 bytes, as texture uploads require.
pub open spec fn aligned_row_bytes(width: int) -> int {
    ((width * 4 + 255) / 256) * 256
}

/// The upload of a glyph: for each of its first `rows` rows, from row
/// `min_y` down, the RGBA bytes of its `width` pixels from column `min_x` on,
/// then zeros up to `stride` bytes.
pub open spec fn glyph_upload_bytes(
    raw: Seq<u8>,
    iw: int,
    min_x: int,
    min_y: int,
    width: int,
    rows: nat,
    stride: int,
) -> Seq<u8>
    decreases rows,
{
    if rows == 0 {
        Seq::empty()
    } else {
        let start = ((min_y + rows - 1) * iw + min_x) * 4;
        glyph_upload_bytes(raw, iw, min_x, min_y, width, (rows - 1) as nat, stride) + raw.subrange(
            start,
            start + width * 4,
        ) + Seq::new((stride - width * 4) as nat, |i: int| 0u8)
    }
}

/// Bytes per uploaded row of a glyph `width` pixels wide.
pub fn padded_row_bytes(width: u32) -> (r: u32)
    requires
        width * 4 + 255 <= u32::MAX,
    ensures
        r == aligned_row_bytes(width as int),
        width * 4 <= r,
{
    let unpadded: u32 = width * 4;
    let p: u32 = unpadded + 255;
    let r = p & !255u32;
    assert((p & !255u32) == (p / 256u32) * 256u32) by (bit_vector);
    r
}

/// Lays out the `width` by `height` glyph at `(min_x, min_y)` of an RGBA
/// image `iw` pixels wide for upload: row after row, each padded with zeros
/// to the aligned row length, which is returned beside the bytes.
pub fn pack_glyph_rows(raw: &Vec<u8>, iw: u32, min_x: u32, min_y: u32, width: u32, height: u32) -> (r: (
    Vec<u8>,
    u32,
))
    requires
        min_x + width <= iw,
        min_y + height <= u32::MAX,
        (min_y + height) * iw * 4 <= raw.len(),
        width * 4 + 255 <= u32::MAX,
        aligned_row_bytes(width as int) * height <= u32::MAX,
    ensures
        r.1 == aligned_row_bytes(width as int),
        r.0@ == glyph_upload_bytes(
            raw@,
            iw as int,
            min_x as int,
            min_y as int,
            width as int,
            height as nat,
            r.1 as int,
        ),
        r.0@.len() == aligned_row_bytes(width as int) * height,
{
    let stride = padded_row_bytes(width);
    let ghost img = raw@;
    let ghost st = stride as int;
    let row_len: usize = (width as usize) * 4;
    let len: usize = raw.len();
    let mut out: Vec<u8> = Vec::new();
    let mut row: u32 = 0;
    while row < height
        invariant
            img == raw@,
            st == stride as int,
            st == aligned_row_bytes(width as int),
            row_len as int == width * 4,
            row_len <= stride,
            min_x + width <= iw,
            (min_y + height) * iw * 4 <= img.len(),
            min_y + height <= u32::MAX,
            len == img.len(),
            row <= height,
            out@ == glyph_upload_bytes(img, iw as int, min_x as int, min_y as int, width as int, row as nat, st),
            out@.len() == st * row,
        decreases height - row,
    {
        let ghost before = out@;
        assert(((min_y + row) * iw + min_x + width) * 4 <= (min_y + height) * iw * 4) by (nonlinear_arith)
            requires
                row < height,
                min_x + width <= iw,
        ;
        let line: usize = min_y as usize + row as usize;
        let iwu: usize = iw as usize;
        assert((line as int) * (iwu as int) + min_x as int + width as int <= len as int / 4);
        let line_start: usize = line * iwu;
        let start: usize = (line_start + min_x as usize) * 4;
        let end: usize = start + row_len;
        let mut k: usize = start;
        while k < end
            invariant
                img == raw@,
                start <= k <= end,
                end <= img.len(),
                out@ == before + img.subrange(start as int, k as int),
            decreases end - k,
        {
            out.push(raw[k]);
            assert(img.subrange(start as int, k + 1) =~= img.subrange(start as int, k as int).push(img[k as int]));
            k = k + 1;
        }
        let ghost with_row = out@;
        let mut z: usize = row_len;
        while z < stride as usize
            invariant
                row_len <= z <= stride,
                out@ == with_row + Seq::new((z - row_len) as nat, |i: int| 0u8),
            decreases stride - z,
        {
            out.push(0u8);
            assert(with_row + Seq::new((z + 1 - row_len) as nat, |i: int| 0u8) =~= (with_row + Seq::new(
                (z - row_len) as nat,
                |i: int| 0u8,
            )).push(0u8));
            z = z + 1;
        }
        proof {
            assert(((min_y + (row + 1) - 1) * iw + min_x) * 4 == start as int);
            assert(out@ =~= glyph_upload_bytes(
                img,
                iw as int,
                min_x as int,
                min_y as int,
                width as int,
                (row + 1) as nat,
                st,
            ));
            assert(st * (row + 1) == st * row + st) by (nonlinear_arith);
        }
        row = row + 1;
    }
    (out, stride)
}

} // verus!
