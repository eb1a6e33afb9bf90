use moonwalk::error::MoonWalkError;
use moonwalk::fonts::{FontId, FontRegistry};
use moonwalk::texture_atlas::pack_atlas;

fn empty_registry() -> FontRegistry {
    let sys = cosmic_text::FontSystem::new_with_locale_and_db(
        String::from("en-US"),
        cosmic_text::fontdb::Database::new(),
    );
    FontRegistry::with_system(sys)
}

fn font_loading_message(r: Result<FontId, MoonWalkError>) -> String {
    match r {
        Err(MoonWalkError::FontLoading(m)) => m,
        other => panic!("expected a font loading error, got {:?}", other),
    }
}

#[test]
fn registering_fonts_hands_out_increasing_ids() {
    let mut reg = empty_registry();
    assert_eq!(reg.register_loaded_font(0, 1, Some(Some(String::from("Roboto")))).unwrap(), FontId(1));
    assert_eq!(reg.register_loaded_font(1, 3, Some(None)).unwrap(), FontId(2));
    assert_eq!(reg.get_family_name(FontId(1)).map(|s| s.as_str()), Some("Roboto"));
    assert_eq!(reg.get_family_name(FontId(2)).map(|s| s.as_str()), Some("Unknown Family"));
    assert_eq!(reg.get_family_name(FontId(3)), None);
    assert_eq!(reg.get_family_name(FontId(0)), None);
}

#[test]
fn registering_fails_without_new_faces() {
    let mut reg = empty_registry();
    assert_eq!(font_loading_message(reg.register_loaded_font(2, 2, Some(Some(String::from("x"))))), "Failed to parse font data");
    assert_eq!(font_loading_message(reg.register_loaded_font(0, 1, None)), "Database error after loading");
    // Failures hand out no identifier.
    assert_eq!(reg.register_loaded_font(0, 1, Some(None)).unwrap(), FontId(1));
}

#[test]
fn garbage_font_data_is_rejected() {
    let mut reg = empty_registry();
    let r = reg.load_font_from_bytes(&[1, 2, 3, 4, 5, 6, 7, 8], "junk");
    assert_eq!(font_loading_message(r), "Failed to parse font data");
    assert_eq!(reg.get_family_name(FontId(1)), None);
}

#[test]
fn system_font_data_is_registered() {
    let mut db = cosmic_text::fontdb::Database::new();
    db.load_system_fonts();
    let first = db.faces().next().map(|f| (f.id, f.families.first().map(|n| n.0.clone())));
    let mut reg = empty_registry();
    if let Some((id, family)) = first {
        let bytes = db.with_face_data(id, |data, _| data.to_vec()).unwrap();
        let loaded = reg.load_font_from_bytes(&bytes, "ignored").unwrap();
        assert_eq!(loaded, FontId(1));
        let recorded = reg.get_family_name(loaded).cloned();
        assert!(recorded.is_some());
        if let Some(name) = family {
            // The font data may hold several faces; the last one names the font.
            assert!(!name.is_empty());
        }
        let again = reg.load_font_from_bytes(&bytes, "ignored").unwrap();
        assert_eq!(again, FontId(2));
    } else {
        let r = reg.load_font_from_bytes(&[0u8; 16], "none");
        assert_eq!(font_loading_message(r), "Failed to parse font data");
    }
}

#[test]
fn atlas_layout_places_textures_apart() {
    let sizes = vec![(100, 50), (30, 30), (0, 10), (500, 500), (60, 200), (2000, 10)];
    let frames = pack_atlas(&sizes, 512, 512);
    assert_eq!(frames.len(), sizes.len());
    // Non-positive sizes and sizes larger than the atlas get no frame.
    assert!(frames[2].is_none());
    assert!(frames[5].is_none());
    let placed: Vec<(usize, (i32, i32, i32, i32))> =
        frames.iter().enumerate().filter_map(|(k, f)| f.map(|r| (k, r))).collect();
    assert!(placed.len() >= 3);
    for (k, r) in &placed {
        assert_eq!((r.2, r.3), sizes[*k]);
        assert!(r.0 >= 1 && r.1 >= 1);
        assert!(r.0 + r.2 + 1 <= 512 && r.1 + r.3 + 1 <= 512);
    }
    for (i, (_, a)) in placed.iter().enumerate() {
        for (_, b) in placed.iter().skip(i + 1) {
            let apart = a.0 + a.2 + 1 <= b.0 || b.0 + b.2 + 1 <= a.0 || a.1 + a.3 + 1 <= b.1 || b.1 + b.3 + 1 <= a.1;
            assert!(apart, "{:?} and {:?} are not apart", a, b);
        }
    }
}

#[test]
fn atlas_layout_of_nothing() {
    assert!(pack_atlas(&vec![], 64, 64).is_empty());
    assert_eq!(pack_atlas(&vec![(10, 10)], 0, 0), vec![None]);
}

#[test]
fn atlas_layout_places_a_first_texture_that_fits() {
    assert_eq!(pack_atlas(&vec![(62, 30), (1, 1)], 64, 64)[0], Some((1, 1, 62, 30)));
    assert_eq!(pack_atlas(&vec![(63, 30)], 64, 64), vec![None]);
    // A side above i32::MAX wraps to a negative side: nothing fits.
    assert_eq!(pack_atlas(&vec![(10, 10)], 0x9000_0000, 64), vec![None]);
}

#[test]
fn font_data_adds_faces_to_the_database() {
    let mut db = cosmic_text::fontdb::Database::new();
    db.load_system_fonts();
    let first = db.faces().next().map(|f| f.id);
    let mut reg = empty_registry();
    let before = reg.sys.db().faces().count();
    if let Some(id) = first {
        let bytes = db.with_face_data(id, |data, _| data.to_vec()).unwrap();
        reg.load_font_from_bytes(&bytes, "ignored").unwrap();
        assert!(reg.sys.db().faces().count() > before);
    }
    let after = reg.sys.db().faces().count();
    let _ = reg.load_font_from_bytes(&[9u8; 32], "junk");
    assert_eq!(reg.sys.db().faces().count(), after);
}
