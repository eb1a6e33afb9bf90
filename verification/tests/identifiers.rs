use moonwalk::objects::{ObjectDirty, ObjectId, ObjectType, ShaderId, TextureId, OBJECT_INDEX_MASK, OBJECT_TYPE_SHIFT};
use moonwalk::text::{map_align, FontAsset, FontId, TextAlign};

#[test]
fn object_id_round_trip() {
    let id = ObjectId::new(ObjectType::Rect, 12345);
    assert_eq!(id.index(), 12345);
    assert_eq!(id.get_type(), Some(ObjectType::Rect));
    assert_eq!(id.0, (1 << OBJECT_TYPE_SHIFT) | 12345);
}

#[test]
fn object_id_drops_high_index_bits() {
    let id = ObjectId::new(ObjectType::Rect, 0x0100_0003);
    assert_eq!(id.index(), 3);
    assert_eq!(id.index(), 0x0100_0003 & OBJECT_INDEX_MASK);
    assert_eq!(id, ObjectId::new(ObjectType::Rect, 3));
}

#[test]
fn object_id_distinct_slots_distinct_ids() {
    let a = ObjectId::new(ObjectType::Text, 7);
    let b = ObjectId::new(ObjectType::Text, 8);
    assert_ne!(a, b);
    assert_ne!(ObjectId::new(ObjectType::Rect, 7), a);
}

#[test]
fn only_rect_code_decodes() {
    assert_eq!(ObjectType::from_u8(1), Some(ObjectType::Rect));
    assert_eq!(ObjectType::from_u8(0), None);
    assert_eq!(ObjectType::from_u8(2), None);
    assert_eq!(ObjectType::from_u8(255), None);
    assert_eq!(ObjectType::Unknown.code(), 0);
    assert_eq!(ObjectType::Rect.code(), 1);
    assert_eq!(ObjectType::Text.code(), 2);
    assert_eq!(ObjectId::new(ObjectType::Text, 1).get_type(), None);
    assert_eq!(ObjectId::new(ObjectType::Unknown, 1).get_type(), None);
}

#[test]
fn dirty_flag_reported_once() {
    let mut d = ObjectDirty::new();
    assert!(d.get());
    assert!(!d.get());
    d.update();
    assert!(d.get());
    assert!(!d.get());
    assert!(!d.get());
}

#[test]
fn simple_identifiers() {
    assert_eq!(TextureId::new(17).0, 17);
    assert_eq!(ShaderId::default_id(), ShaderId(0));
    assert_eq!(FontId::default_id(), FontId(0));
    assert_eq!(FontAsset(3).0, 3);
}

#[test]
fn alignment_bytes() {
    assert_eq!(map_align(0), TextAlign::Left);
    assert_eq!(map_align(1), TextAlign::Center);
    assert_eq!(map_align(2), TextAlign::Right);
    assert_eq!(map_align(3), TextAlign::Justified);
    assert_eq!(map_align(4), TextAlign::Left);
    assert_eq!(map_align(255), TextAlign::Left);
}
