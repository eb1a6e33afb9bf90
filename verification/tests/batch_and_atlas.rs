use moonwalk::atlas::{find_bounds, pack_glyph_rows, padded_row_bytes, GlyphShelf, ATLAS_PADDING, ATLAS_SIZE};
use moonwalk::batching::{group_draw_commands, rect_slots_to_batch, text_slots_to_batch, DrawCommand};
use moonwalk::error::TextError;
use moonwalk::glyph_alloc::{GlyphAtlasSpace, MAX_GLYPH_ALLOCATIONS};
use moonwalk::objects::ObjectId;
use moonwalk::scene::{material_flags, BatchKey, MaterialFlags, MeshId, SceneObjects};
use moonwalk::store::ObjectStore;
use moonwalk::text::FontId;

fn cmd(texture_id: u32, start_index: u32, count: u32) -> DrawCommand {
    DrawCommand { texture_id, start_index, count }
}

#[test]
fn draw_commands_follow_texture_runs() {
    assert!(group_draw_commands(&vec![]).is_empty());
    assert_eq!(group_draw_commands(&vec![7]), vec![cmd(7, 0, 1)]);
    assert_eq!(
        group_draw_commands(&vec![0, 0, 5, 5, 5, 0]),
        vec![cmd(0, 0, 2), cmd(5, 2, 3), cmd(0, 5, 1)]
    );
    assert_eq!(group_draw_commands(&vec![3, 3, 3]), vec![cmd(3, 0, 3)]);
    assert_eq!(group_draw_commands(&vec![1, 2, 1]), vec![cmd(1, 0, 1), cmd(2, 1, 1), cmd(1, 2, 1)]);
}

#[test]
fn draw_commands_cover_all_instances() {
    let ids: Vec<u32> = (0..100u32).map(|i| (i / 7) % 3).collect();
    let cmds = group_draw_commands(&ids);
    let total: u32 = cmds.iter().map(|c| c.count).sum();
    assert_eq!(total, 100);
    for w in cmds.windows(2) {
        assert_eq!(w[0].start_index + w[0].count, w[1].start_index);
        assert_ne!(w[0].texture_id, w[1].texture_id);
    }
}

#[test]
fn batch_takes_listed_live_rects() {
    let mut store = ObjectStore::new();
    let a = store.new_rect();
    let b = store.new_rect();
    let c = store.new_rect();
    let _t = store.new_text(String::from("t"), FontId(0));
    assert_eq!(rect_slots_to_batch(&store, None), vec![0, 1, 2]);
    store.remove(b);
    assert_eq!(rect_slots_to_batch(&store, None), vec![0, 2]);
    // Only the listed objects are drawn, matched by slot index.
    let filter = vec![ObjectId(2)];
    assert_eq!(rect_slots_to_batch(&store, Some(&filter)), vec![2]);
    let both = vec![ObjectId(0), ObjectId(2)];
    assert_eq!(rect_slots_to_batch(&store, Some(&both)), vec![0, 2]);
    // A listed dead object is not drawn.
    let dead = vec![ObjectId(1)];
    assert!(rect_slots_to_batch(&store, Some(&dead)).is_empty());
    // An empty filter draws every live rectangle.
    assert_eq!(rect_slots_to_batch(&store, Some(&vec![])), vec![0, 2]);
    let _ = (a, c);
}

#[test]
fn batch_takes_live_nonempty_texts() {
    let mut store = ObjectStore::new();
    let a = store.new_text(String::from("one"), FontId(0));
    let _b = store.new_text(String::new(), FontId(0));
    let c = store.new_text(String::from("three"), FontId(1));
    let _r = store.new_rect();
    assert_eq!(text_slots_to_batch(&store), vec![0, 2]);
    store.remove(c);
    assert_eq!(text_slots_to_batch(&store), vec![0]);
    store.set_text(a, String::new());
    assert!(text_slots_to_batch(&store).is_empty());
}

#[test]
fn scene_batch_keys_use_defaults() {
    let mut s = SceneObjects::new();
    let a = s.new_instance(MeshId(2));
    let b = s.new_instance(MeshId(3));
    s.set_texture(b, 40);
    s.set_normal_map(b, 41);
    s.set_mr_map(b, 42);
    assert_eq!(s.batch_key(a.0, 1, 2), BatchKey { mesh_id: 2, albedo_id: 1, normal_id: 2, mr_id: 1 });
    assert_eq!(s.batch_key(b.0, 1, 2), BatchKey { mesh_id: 3, albedo_id: 40, normal_id: 41, mr_id: 42 });
    let plain = material_flags(&s.batch_key(a.0, 1, 2), 2, 1);
    assert_eq!(plain, MaterialFlags { use_albedo_map: 1, use_normal_map: 0, use_mr_map: 0, pad: 0 });
    let mapped = material_flags(&s.batch_key(b.0, 1, 2), 2, 1);
    assert_eq!(mapped, MaterialFlags { use_albedo_map: 1, use_normal_map: 1, use_mr_map: 1, pad: 0 });
}

#[test]
fn shelf_packing() {
    let mut s = GlyphShelf::new();
    assert_eq!(s, GlyphShelf { next_x: ATLAS_PADDING, next_y: ATLAS_PADDING, row_height: 0 });
    assert_eq!(s.place(10, 20), Some((1, 1)));
    assert_eq!(s, GlyphShelf { next_x: 12, next_y: 1, row_height: 20 });
    assert_eq!(s.place(5, 8), Some((12, 1)));
    assert_eq!(s.row_height, 20);
    // Does not fit on the first shelf: a new shelf opens below the tallest glyph.
    assert_eq!(s.place(2040, 5), Some((1, 22)));
    assert_eq!(s, GlyphShelf { next_x: 2042, next_y: 22, row_height: 5 });
}

#[test]
fn shelf_reports_full_atlas() {
    let mut s = GlyphShelf { next_x: 1, next_y: ATLAS_SIZE - 8, row_height: 0 };
    assert_eq!(s.place(10, 10), None);
    assert_eq!(s.place(10, 7), Some((1, ATLAS_SIZE - 8)));
    let mut t = GlyphShelf { next_x: 2000, next_y: 2000, row_height: 40 };
    assert_eq!(t.place(100, 7), None);
    // The new shelf stays open although nothing was placed.
    assert_eq!(t, GlyphShelf { next_x: 1, next_y: 2041, row_height: 0 });
}

#[test]
fn shelf_glyphs_never_overlap() {
    let mut s = GlyphShelf::new();
    let mut placed: Vec<(u32, u32, u32, u32)> = Vec::new();
    let mut k: u32 = 0;
    loop {
        let w = 3 + (k * 37) % 90;
        let h = 2 + (k * 53) % 70;
        match s.place(w, h) {
            Some((x, y)) => {
                assert!(x >= 1 && x + w + 1 <= ATLAS_SIZE);
                assert!(y >= 1 && y + h + 1 <= ATLAS_SIZE);
                placed.push((x, y, w, h));
            }
            None => break,
        }
        k += 1;
    }
    assert!(placed.len() > 100);
    for (i, a) in placed.iter().enumerate() {
        for b in placed.iter().skip(i + 1) {
            let apart = a.0 + a.2 <= b.0 || b.0 + b.2 <= a.0 || a.1 + a.3 <= b.1 || b.1 + b.3 <= a.1;
            assert!(apart, "{:?} overlaps {:?}", a, b);
        }
    }
}

fn rgba(width: u32, height: u32, visible: &[(u32, u32)]) -> Vec<u8> {
    let mut raw = vec![0u8; (width * height * 4) as usize];
    for &(x, y) in visible {
        let i = ((y * width + x) * 4) as usize;
        raw[i] = 10 + x as u8;
        raw[i + 1] = 20 + y as u8;
        raw[i + 2] = 30;
        raw[i + 3] = 255;
    }
    raw
}

#[test]
fn bounds_of_visible_pixels() {
    let raw = rgba(6, 5, &[(1, 0), (3, 3), (2, 1)]);
    assert_eq!(find_bounds(&raw, 6, 6, 5), (1, 0, 3, 3));
    assert_eq!(find_bounds(&raw, 6, 3, 2), (1, 0, 2, 1));
    let empty = rgba(4, 4, &[]);
    assert_eq!(find_bounds(&empty, 4, 4, 4), (4, 4, 0, 0));
    let corner = rgba(4, 4, &[(0, 0)]);
    assert_eq!(find_bounds(&corner, 4, 4, 4), (0, 0, 0, 0));
}

#[test]
fn aligned_rows() {
    assert_eq!(padded_row_bytes(0), 0);
    assert_eq!(padded_row_bytes(1), 256);
    assert_eq!(padded_row_bytes(64), 256);
    assert_eq!(padded_row_bytes(65), 512);
}

#[test]
fn glyph_rows_are_packed_with_padding() {
    let raw = rgba(4, 3, &[(1, 1), (2, 1), (1, 2)]);
    let (bytes, stride) = pack_glyph_rows(&raw, 4, 1, 1, 2, 2);
    assert_eq!(stride, 256);
    assert_eq!(bytes.len(), 512);
    assert_eq!(&bytes[0..8], &[11, 21, 30, 255, 12, 21, 30, 255]);
    assert!(bytes[8..256].iter().all(|&b| b == 0));
    assert_eq!(&bytes[256..264], &[11, 22, 30, 255, 0, 0, 0, 0]);
    assert!(bytes[264..512].iter().all(|&b| b == 0));
}

#[test]
fn glyph_space_reserves_padded_rectangles() {
    let mut space = GlyphAtlasSpace::new(256);
    let (a, cleared) = space.reserve_glyph(10, 20);
    assert!(!cleared);
    let (ax, ay) = a.unwrap();
    assert!(ax >= 1 && ay >= 1);
    assert!(ax + 10 + 1 <= 256 && ay + 20 + 1 <= 256);
    let (b, cleared) = space.reserve_glyph(30, 12);
    assert!(!cleared);
    let (bx, by) = b.unwrap();
    let apart = ax + 11 <= bx - 1 || bx + 31 <= ax - 1 || ay + 21 <= by - 1 || by + 13 <= ay - 1;
    assert!(apart);
}

#[test]
fn glyph_space_resets_when_full() {
    let mut space = GlyphAtlasSpace::new(64);
    let mut resets = 0;
    for _ in 0..40 {
        let (r, cleared) = space.reserve_glyph(14, 14);
        assert!(r.is_ok());
        if cleared {
            resets += 1;
        }
    }
    assert!(resets >= 1);
    let (r, cleared) = space.reserve_glyph(100, 10);
    assert!(matches!(r, Err(TextError::AtlasFull)));
    assert!(cleared);
}

#[test]
fn glyph_space_places_atlas_sized_glyph_after_reset() {
    let mut space = GlyphAtlasSpace::new(64);
    let (first, cleared) = space.reserve_glyph(10, 10);
    assert!(first.is_ok());
    assert!(!cleared);
    let (whole, cleared) = space.reserve_glyph(62, 62);
    assert!(cleared);
    assert_eq!(whole.unwrap(), (1, 1));
    let (over, cleared) = space.reserve_glyph(63, 1);
    assert!(matches!(over, Err(TextError::AtlasFull)));
    assert!(cleared);
}

#[test]
fn glyph_space_resets_at_allocation_limit() {
    let mut space = GlyphAtlasSpace::new(4096);
    let mut resets = 0;
    for _ in 0..(MAX_GLYPH_ALLOCATIONS + 1) {
        let (r, cleared) = space.reserve_glyph(1, 1);
        assert!(r.is_ok());
        if cleared {
            resets += 1;
        }
    }
    assert_eq!(resets, 1);
}
