use moonwalk::objects::{ObjectId, ObjectType};
use moonwalk::store::{ObjectStore, PACKED_FULL_UV, PACKED_NO_GRADIENT, PACKED_WHITE};
use moonwalk::text::FontId;

#[test]
fn object_pool() {
    let mut store = ObjectStore::new();

    let rect = store.new_rect();
    store.new_rect();
    store.new_rect();

    assert_eq!(store.rect_ids.len(), 3);

    store.remove(rect);

    assert_eq!(store.free_slots.len(), 1);

    let rect2 = store.new_rect();

    assert_eq!(rect, rect2);
}

#[test]
fn new_store_is_empty_and_clean() {
    let store = ObjectStore::new();
    assert_eq!(store.len(), 0);
    assert!(store.free_slots.is_empty());
    assert!(store.rect_ids.is_empty());
    assert!(store.text_ids.is_empty());
    assert!(!store.dirty);
}

#[test]
fn rect_ids_carry_type_and_slot() {
    let mut store = ObjectStore::new();
    let a = store.new_rect();
    let b = store.new_rect();
    assert_eq!(a, ObjectId((1usize << 24) | 0));
    assert_eq!(b, ObjectId((1usize << 24) | 1));
    assert_eq!(b.index(), 1);
    assert_eq!(b.get_type(), Some(ObjectType::Rect));
    assert_eq!(store.len(), 2);
    assert!(store.dirty);
}

#[test]
fn new_object_gets_defaults() {
    let mut store = ObjectStore::new();
    let id = store.new_rect();
    let i = id.index();
    assert!(store.alive[i]);
    assert_eq!(store.colors_cache[i], PACKED_WHITE);
    assert_eq!(store.colors2_cache[i], PACKED_WHITE);
    assert_eq!(store.uvs_cache[i], PACKED_FULL_UV);
    assert_eq!(store.gradient_data_cache[i], PACKED_NO_GRADIENT);
    assert_eq!(store.rect_radii_cache[i], [0, 0, 0, 0]);
    assert_eq!(store.effect_data_cache[i], [0, 0]);
    assert_eq!(store.texture_ids[i], 0);
    assert_eq!(store.hit_groups[i], 0);
    assert_eq!(store.get_text(id), "");
    assert!(store.dirty_objects[i].0);
}

#[test]
fn removed_slot_gets_defaults_again() {
    let mut store = ObjectStore::new();
    let id = store.new_rect();
    store.config_color(id, 0x1234_5678);
    store.config_texture(id, 7);
    store.set_hit_group(id, 3);
    store.remove(id);
    assert!(!store.is_alive(id));
    let again = store.new_rect();
    assert_eq!(again, id);
    assert!(store.is_alive(again));
    assert_eq!(store.colors_cache[again.index()], PACKED_WHITE);
    assert_eq!(store.texture_ids[again.index()], 0);
    assert_eq!(store.get_hit_group(again), 0);
    // The slot already was a rectangle, so it is not recorded twice.
    assert_eq!(store.rect_ids.len(), 1);
    assert!(store.free_slots.is_empty());
}

#[test]
fn most_recently_freed_slot_is_taken_first() {
    let mut store = ObjectStore::new();
    let a = store.new_rect();
    let b = store.new_rect();
    let _c = store.new_rect();
    store.remove(a);
    store.remove(b);
    assert_eq!(store.free_slots, vec![0, 1]);
    let d = store.new_rect();
    assert_eq!(d, b);
    let e = store.new_rect();
    assert_eq!(e, a);
    let f = store.new_rect();
    assert_eq!(f.index(), 3);
}

#[test]
fn removing_twice_frees_once() {
    let mut store = ObjectStore::new();
    let a = store.new_rect();
    store.remove(a);
    store.remove(a);
    assert_eq!(store.free_slots.len(), 1);
    store.remove(ObjectId(1 << 24 | 500));
    assert_eq!(store.free_slots.len(), 1);
    assert_eq!(store.len(), 1);
}

#[test]
fn text_objects_keep_text_and_font() {
    let mut store = ObjectStore::new();
    let t = store.new_text(String::from("hello"), FontId(4));
    assert_eq!(t.index(), 0);
    assert_eq!(t, ObjectId((2usize << 24) | 0));
    assert_eq!(t.get_type(), None);
    assert_eq!(store.get_text(t), "hello");
    assert_eq!(store.font_ids[0], FontId(4));
    assert_eq!(store.text_ids, vec![t]);
    assert!(store.rect_ids.is_empty());
    assert_eq!(store.object_types[0], ObjectType::Text);
}

#[test]
fn slot_changing_kind_is_recorded_for_new_kind() {
    let mut store = ObjectStore::new();
    let r = store.new_rect();
    store.remove(r);
    let t = store.new_text(String::from("x"), FontId(0));
    assert_eq!(t.index(), r.index());
    assert_eq!(store.text_ids.len(), 1);
    assert_eq!(store.rect_ids.len(), 1);
    assert_eq!(store.object_types[0], ObjectType::Text);
}

#[test]
fn set_text_marks_change_only_when_different() {
    let mut store = ObjectStore::new();
    let t = store.new_text(String::from("a"), FontId(0));
    store.dirty = false;
    store.dirty_objects[0].0 = false;
    store.set_text(t, String::from("a"));
    assert!(!store.dirty);
    assert!(!store.dirty_objects[0].0);
    store.set_text(t, String::from("b"));
    assert!(store.dirty);
    assert!(store.dirty_objects[0].0);
    assert_eq!(store.get_text(t), "b");
}

#[test]
fn get_text_beyond_store_is_empty() {
    let store = ObjectStore::new();
    assert_eq!(store.get_text(ObjectId(9)), "");
    assert_eq!(store.get_text_align(ObjectId(9)), 0);
    assert!(!store.is_alive(ObjectId(9)));
}

#[test]
fn setters_store_packed_values_and_mark_changed() {
    let mut store = ObjectStore::new();
    let id = store.new_rect();
    let _other = store.new_rect();
    store.dirty = false;
    store.dirty_objects[0].0 = false;
    store.dirty_objects[1].0 = false;

    store.config_color(id, 0xFF00_00FF);
    assert_eq!(store.colors_cache[0], 0xFF00_00FF);
    assert!(store.dirty);
    assert!(store.dirty_objects[0].0);
    assert!(!store.dirty_objects[1].0);

    store.config_color2(id, 0x00FF_00FF);
    assert_eq!(store.colors2_cache[0], 0x00FF_00FF);
    store.config_uv(id, [1, 2, 3, 4]);
    assert_eq!(store.uvs_cache[0], [1, 2, 3, 4]);
    store.config_texture(id, 42);
    assert_eq!(store.texture_ids[0], 42);
    store.config_gradient_data(id, [-1, 2, -3, 4]);
    assert_eq!(store.gradient_data_cache[0], [-1, 2, -3, 4]);
    store.config_effect_data(id, [10, 20]);
    assert_eq!(store.effect_data_cache[0], [10, 20]);
    store.set_rounded(id, [5, 6, 7, 8]);
    assert_eq!(store.rect_radii_cache[0], [5, 6, 7, 8]);
    assert_eq!(store.colors_cache[1], PACKED_WHITE);
}

#[test]
fn set_rounded_beyond_store_is_ignored() {
    let mut store = ObjectStore::new();
    let _id = store.new_rect();
    store.dirty = false;
    store.set_rounded(ObjectId(1 << 24 | 5), [1, 1, 1, 1]);
    assert!(!store.dirty);
    assert_eq!(store.rect_radii_cache.len(), 1);
    assert_eq!(store.rect_radii_cache[0], [0, 0, 0, 0]);
}

#[test]
fn text_align_and_hit_group_change_only_when_different() {
    let mut store = ObjectStore::new();
    let id = store.new_rect();
    store.dirty = false;
    store.set_text_align(id, 0);
    store.set_hit_group(id, 0);
    assert!(!store.dirty);
    store.set_text_align(id, 2);
    assert_eq!(store.get_text_align(id), 2);
    assert!(store.dirty);
    store.dirty = false;
    store.set_hit_group(id, 9);
    assert_eq!(store.get_hit_group(id), 9);
    assert!(store.dirty);
}

#[test]
fn mark_changed_sets_both_flags() {
    let mut store = ObjectStore::new();
    let id = store.new_rect();
    store.dirty = false;
    store.dirty_objects[0].0 = false;
    store.mark_changed(id);
    assert!(store.dirty);
    assert!(store.dirty_objects[0].0);
}

#[test]
fn hit_candidates_are_live_members_of_group() {
    let mut store = ObjectStore::new();
    let a = store.new_rect();
    let b = store.new_rect();
    let c = store.new_text(String::from("x"), FontId(0));
    store.set_hit_group(a, 1);
    store.set_hit_group(b, 2);
    store.set_hit_group(c, 1);
    assert_eq!(store.hit_candidates(1), vec![0, 2]);
    assert_eq!(store.hit_candidates(2), vec![1]);
    assert_eq!(store.hit_candidates(0), Vec::<usize>::new());
    store.remove(a);
    assert_eq!(store.hit_candidates(1), vec![2]);
    assert_eq!(store.id_of_slot(2), c);
    assert_eq!(store.id_of_slot(1), b);
}
