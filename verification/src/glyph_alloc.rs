//! Space for rasterised glyphs in the text atlas, handed out by the
//! `etagere` atlas allocator. When the atlas is full it is emptied once and
//! the glyph tried again; the caller then drops every glyph it had cached.

use vstd::prelude::*;
use crate::error::TextError;

verus! {

/// The atlas allocator of the `etagere` crate.
#[verifier::external_type_specification]
#[verifier::external_body]
pub struct ExAtlasAllocator(etagere::AtlasAllocator);

/// The rectangles an allocator holds allocated, as `(min_x, min_y, max_x,
/// max_y)`: those of its shelf items marked allocated.
pub uninterp spec fn atlas_allocations(a: etagere::AtlasAllocator) -> Set<(i32, i32, i32, i32)>;

/// The `(width, height)` an allocator was made with (its `size` field).
pub uninterp spec fn atlas_extent(a: etagere::AtlasAllocator) -> (i32, i32);

/// The allocator that `AtlasAllocator::new` makes for a `width` by `height`
/// area.
pub uninterp spec fn atlas_made(width: i32, height: i32) -> etagere::AtlasAllocator;

/// The allocator was made with etagere's default options: alignment 1 by
/// 1, horizontal shelves, one column as wide as the area.
pub uninterp spec fn atlas_default_options(a: etagere::AtlasAllocator) -> bool;

/// Where `AtlasAllocator::allocate` puts a `w` by `h` rectangle in
/// allocator `a`; `None` when it finds no room.
pub uninterp spec fn atlas_place(a: etagere::AtlasAllocator, w: i32, h: i32) -> Option<(i32, i32, i32, i32)>;

/// Two rectangles given by their corners do not overlap.
pub open spec fn boxes_disjoint(a: (i32, i32, i32, i32), b: (i32, i32, i32, i32)) -> bool {
    a.2 <= b.0 || b.2 <= a.0 || a.3 <= b.1 || b.3 <= a.1
}

/// Makes an allocator over a `width` by `height` area with
/// `etagere::AtlasAllocator::new`. Claimed: the result is the one that size
/// gives, made with the default options, nothing is allocated and the area
/// is remembered. The requirements are the assertions of the allocator's
/// setup.
#[verifier::external_body]
fn new_atlas_allocator(width: i32, height: i32) -> (a: etagere::AtlasAllocator)
    requires
        0 < width <= u16::MAX,
        0 < height <= u16::MAX,
        width * height <= i32::MAX,
    ensures
        a == atlas_made(width, height),
        atlas_default_options(a),
        atlas_allocations(a) == Set::<(i32, i32, i32, i32)>::empty(),
        atlas_extent(a) == (width, height),
{
    etagere::AtlasAllocator::new(etagere::size2(width, height))
}

/// The most allocations an allocator is asked for between two clears. The
/// allocator numbers its shelf items with `u16`, reserving `u16::MAX` for
/// "none"; an allocation adds at most two items and, without deallocation,
/// none is reused, so below this many the numbers cannot wrap.
pub const MAX_GLYPH_ALLOCATIONS: usize = 32000;

/// Allocates a `w` by `h` rectangle with `AtlasAllocator::allocate`.
/// Claimed, from the crate's shelf allocator: the result is the one
/// `atlas_place` names; a rectangle handed out is at least the requested
/// size, lies inside the area, overlaps no rectangle still allocated, and
/// is allocated afterwards; `None` (always for a non-positive size) leaves
/// the allocator as it was. The area and the options do not change. An
/// allocator as `new` made it is one shelf as tall as the area holding one
/// free item as wide as the area, so there any rectangle that fits the area
/// is placed. Where a rectangle is placed, and whether room is found
/// otherwise, is not stated.
#[verifier::external_body]
fn allocate_rect(a: &mut etagere::AtlasAllocator, w: i32, h: i32) -> (r: Option<(i32, i32, i32, i32)>)
    requires
        atlas_extent(*old(a)).1 + 8 <= u16::MAX,
        atlas_allocations(*old(a)).len() < MAX_GLYPH_ALLOCATIONS,
    ensures
        r == atlas_place(*old(a), w, h),
        atlas_extent(*final(a)) == atlas_extent(*old(a)),
        atlas_default_options(*final(a)) == atlas_default_options(*old(a)),
        *old(a) == atlas_made(atlas_extent(*old(a)).0, atlas_extent(*old(a)).1) && 0 < w <= atlas_extent(
            *old(a),
        ).0 && 0 < h <= atlas_extent(*old(a)).1 ==> r is Some,
        match r {
            Some(b) => {
                &&& 0 < w && 0 < h
                &&& 0 <= b.0 && 0 <= b.1
                &&& b.0 + w <= b.2 && b.1 + h <= b.3
                &&& b.2 <= atlas_extent(*old(a)).0 && b.3 <= atlas_extent(*old(a)).1
                &&& forall|k: (i32, i32, i32, i32)|
                    #[trigger] atlas_allocations(*old(a)).contains(k) ==> boxes_disjoint(b, k)
                &&& atlas_allocations(*final(a)) == atlas_allocations(*old(a)).insert(b)
            },
            None => *final(a) == *old(a),
        },
{
    a.allocate(etagere::size2(w, h)).map(|al| (al.rectangle.min.x, al.rectangle.min.y, al.rectangle.max.x, al.rectangle.max.y))
}

/// Frees every allocation with `AtlasAllocator::clear`, which rebuilds the
/// allocator's shelves as its setup does. Claimed, for an allocator made
/// with the default options: it is then the allocator `new` makes for its
/// area.
#[verifier::external_body]
fn clear_allocator(a: &mut etagere::AtlasAllocator)
    requires
        atlas_default_options(*old(a)),
    ensures
        *final(a) == atlas_made(atlas_extent(*old(a)).0, atlas_extent(*old(a)).1),
        atlas_default_options(*final(a)),
        atlas_allocations(*final(a)) == Set::<(i32, i32, i32, i32)>::empty(),
        atlas_extent(*final(a)) == atlas_extent(*old(a)),
{
    a.clear()
}

/// Space for glyphs in a square atlas texture.
pub struct GlyphAtlasSpace {
    allocator: etagere::AtlasAllocator,
    allocated: usize,
}

/// The padding, in pixels, kept around each glyph's allocation.
pub const GLYPH_ALLOC_PAD: u32 = 1;

/// No two allocations overlap.
pub open spec fn allocations_disjoint(s: Set<(i32, i32, i32, i32)>) -> bool {
    forall|p: (i32, i32, i32, i32), q: (i32, i32, i32, i32)|
        #[trigger] s.contains(p) && #[trigger] s.contains(q) && p != q ==> boxes_disjoint(p, q)
}

/// A `width` by `height` glyph at `(x, y)` sits, with its padding, inside
/// allocation `b`.
pub open spec fn glyph_inside(x: int, y: int, width: int, height: int, b: (i32, i32, i32, i32)) -> bool {
    &&& b.0 + GLYPH_ALLOC_PAD == x && b.1 + GLYPH_ALLOC_PAD == y
    &&& x + width + GLYPH_ALLOC_PAD <= b.2 && y + height + GLYPH_ALLOC_PAD <= b.3
}

/// The corner of the glyph placed in allocation `b`, or `AtlasFull` when
/// there is none.
pub open spec fn glyph_corner(b: Option<(i32, i32, i32, i32)>) -> Result<(u32, u32), TextError> {
    match b {
        Some(b) => Ok(((b.0 + GLYPH_ALLOC_PAD) as u32, (b.1 + GLYPH_ALLOC_PAD) as u32)),
        None => Err(TextError::AtlasFull),
    }
}

impl GlyphAtlasSpace {
    /// The rectangles allocated since the space was made or last emptied.
    pub closed spec fn allocations(&self) -> Set<(i32, i32, i32, i32)> {
        atlas_allocations(self.allocator)
    }

    /// The edge length of the atlas.
    pub closed spec fn size(&self) -> int {
        atlas_extent(self.allocator).0 as int
    }

    /// Where the allocator would put a `w` by `h` rectangle now.
    pub closed spec fn placement(&self, w: i32, h: i32) -> Option<(i32, i32, i32, i32)> {
        atlas_place(self.allocator, w, h)
    }

    /// Where the allocator would put a `w` by `h` rectangle once emptied.
    pub closed spec fn emptied_placement(&self, w: i32, h: i32) -> Option<(i32, i32, i32, i32)> {
        atlas_place(atlas_made(atlas_extent(self.allocator).0, atlas_extent(self.allocator).1), w, h)
    }

    /// The space's invariant: a square atlas small enough for the
    /// allocator's arithmetic, made with the default options, whose
    /// allocations do not overlap and are counted.
    pub closed spec fn wf(&self) -> bool {
        &&& atlas_extent(self.allocator).0 == atlas_extent(self.allocator).1
        &&& 0 < atlas_extent(self.allocator).0 <= u16::MAX - 8
        &&& atlas_default_options(self.allocator)
        &&& atlas_allocations(self.allocator).finite()
        &&& allocations_disjoint(atlas_allocations(self.allocator))
        &&& self.allocated == atlas_allocations(self.allocator).len()
        &&& self.allocated <= MAX_GLYPH_ALLOCATIONS
    }

    /// An empty `atlas_size` by `atlas_size` atlas.
    pub fn new(atlas_size: u32) -> (r: GlyphAtlasSpace)
        requires
            0 < atlas_size,
            atlas_size * atlas_size <= i32::MAX,
        ensures
            r.wf(),
            r.size() == atlas_size,
            r.allocations() == Set::<(i32, i32, i32, i32)>::empty(),
            forall|w: i32, h: i32| #[trigger] r.placement(w, h) == r.emptied_placement(w, h),
    {
        assert(atlas_size <= u16::MAX - 8) by (nonlinear_arith)
            requires
                0 < atlas_size,
                atlas_size * atlas_size <= i32::MAX,
        ;
        GlyphAtlasSpace {
            allocator: new_atlas_allocator(atlas_size as i32, atlas_size as i32),
            allocated: 0,
        }
    }

    /// Reserves room for a `width` by `height` glyph with one pixel of
    /// padding on each side. The atlas is emptied, and the glyph tried once
    /// more, exactly when the allocator finds no room for it or already
    /// holds `MAX_GLYPH_ALLOCATIONS` glyphs; the second result tells whether
    /// that happened, and then every glyph placed before is gone. Gives the
    /// glyph's top-left corner, or `AtlasFull` when even the empty atlas has
    /// no room, which happens only for a glyph that with its padding is
    /// wider or taller than the atlas.
    pub fn reserve_glyph(&mut self, width: u32, height: u32) -> (r: (Result<(u32, u32), TextError>, bool))
        requires
            old(self).wf(),
            width + 2 * GLYPH_ALLOC_PAD <= i32::MAX,
            height + 2 * GLYPH_ALLOC_PAD <= i32::MAX,
        ensures
            final(self).wf(),
            final(self).size() == old(self).size(),
            ({
                let aw = (width + 2 * GLYPH_ALLOC_PAD) as i32;
                let ah = (height + 2 * GLYPH_ALLOC_PAD) as i32;
                let emptied = old(self).allocations().len() >= MAX_GLYPH_ALLOCATIONS || old(self).placement(
                    aw,
                    ah,
                ) is None;
                let chosen = if emptied {
                    old(self).emptied_placement(aw, ah)
                } else {
                    old(self).placement(aw, ah)
                };
                let before = if emptied {
                    Set::<(i32, i32, i32, i32)>::empty()
                } else {
                    old(self).allocations()
                };
                &&& r.1 == emptied
                &&& r.0 == glyph_corner(chosen)
                &&& match chosen {
                    Some(b) => {
                        &&& final(self).allocations() == before.insert(b)
                        &&& !before.contains(b)
                        &&& glyph_inside(
                            b.0 + GLYPH_ALLOC_PAD,
                            b.1 + GLYPH_ALLOC_PAD,
                            width as int,
                            height as int,
                            b,
                        )
                        &&& b.2 <= final(self).size() && b.3 <= final(self).size()
                    },
                    None => final(self).allocations() == Set::<(i32, i32, i32, i32)>::empty(),
                }
            }),
            width + 2 * GLYPH_ALLOC_PAD <= old(self).size() && height + 2 * GLYPH_ALLOC_PAD
                <= old(self).size() ==> r.0 is Ok,
    {
        let alloc_w = (width + 2 * GLYPH_ALLOC_PAD) as i32;
        let alloc_h = (height + 2 * GLYPH_ALLOC_PAD) as i32;
        let ghost start = self.allocator;
        let mut cleared = false;
        let mut placed = if self.allocated < MAX_GLYPH_ALLOCATIONS {
            allocate_rect(&mut self.allocator, alloc_w, alloc_h)
        } else {
            None
        };
        if placed.is_none() {
            clear_allocator(&mut self.allocator);
            self.allocated = 0;
            cleared = true;
            placed = allocate_rect(&mut self.allocator, alloc_w, alloc_h);
        }
        let ghost before = if cleared {
            Set::<(i32, i32, i32, i32)>::empty()
        } else {
            atlas_allocations(start)
        };
        proof {
            if let Some(b) = placed {
                let now = atlas_allocations(self.allocator);
                assert(!before.contains(b)) by {
                    if before.contains(b) {
                        assert(boxes_disjoint(b, b));
                    }
                }
                assert(now == before.insert(b));
                assert forall|p: (i32, i32, i32, i32), q: (i32, i32, i32, i32)|
                    #[trigger] now.contains(p) && #[trigger] now.contains(q) && p != q implies boxes_disjoint(
                    p,
                    q,
                ) by {
                    if p != b && q != b {
                        assert(before.contains(p) && before.contains(q));
                    } else if p == b {
                        assert(before.contains(q));
                    } else {
                        assert(before.contains(p));
                        assert(boxes_disjoint(q, p));
                    }
                }
            }
        }
        if placed.is_some() {
            self.allocated = self.allocated + 1;
        }
        match placed {
            Some(b) => {
                let x = (b.0 + 1) as u32;
                let y = (b.1 + 1) as u32;
                (Ok((x, y)), cleared)
            },
            None => (Err(TextError::AtlasFull), cleared),
        }
    }
}

} // verus!
