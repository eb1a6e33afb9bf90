use moonwalk::brush::{stroke_blend_mode, BlendMode};
use moonwalk::color::{pack_rgba, unpack_channel};
use moonwalk::error::{chars_of, contains_chars, str_contains, MoonWalkError, TypedBackendError};
use moonwalk::fuse::{MoonFuse, MAX_FONTS, MAX_OBJECTS, MAX_TEXTURES};
use moonwalk::info::GraphicsInfo;
use moonwalk::objects::TextureId;
use moonwalk::random::{Lcg, LCG_INCREMENT, LCG_MULTIPLIER};
use moonwalk::strings::{decimal_string, prefixed_decimal};
use moonwalk::video::{check_recorder_request, check_video_dimensions, check_video_format, VideoFormat, VideoFrames, VideoPreset};

#[test]
fn backend_messages_are_classified() {
    assert!(matches!(TypedBackendError::from_message("Surface Lost"), TypedBackendError::SurfaceLost));
    assert!(matches!(TypedBackendError::from_message("OutOfMemory"), TypedBackendError::OutOfMemory));
    assert!(matches!(TypedBackendError::from_message("Timeout reached"), TypedBackendError::SurfaceTimeout));
    assert!(matches!(TypedBackendError::from_message("Context not found: 3"), TypedBackendError::ContextNotFound));
    assert!(matches!(TypedBackendError::from_message("Bind group not found"), TypedBackendError::BindGroupNotFound));
    assert!(matches!(
        TypedBackendError::from_message("No suitable surface format"),
        TypedBackendError::NoSuitableSurfaceFormat
    ));
    match TypedBackendError::from_message("Internal failure") {
        TypedBackendError::Internal(m) => assert_eq!(m, "Internal failure"),
        other => panic!("unexpected {:?}", other),
    }
    match TypedBackendError::from_message("Validation Error in pass") {
        TypedBackendError::Validation(m) => assert_eq!(m, "Validation Error in pass"),
        other => panic!("unexpected {:?}", other),
    }
    match TypedBackendError::from_message("something else") {
        TypedBackendError::Other(m) => assert_eq!(m, "something else"),
        other => panic!("unexpected {:?}", other),
    }
}

#[test]
fn backend_classification_order() {
    // The first key phrase in the fixed order wins.
    assert!(matches!(TypedBackendError::from_message("Lost after OutOfMemory"), TypedBackendError::OutOfMemory));
    assert!(matches!(TypedBackendError::from_message("Internal: Lost"), TypedBackendError::SurfaceLost));
    assert!(matches!(TypedBackendError::from_message("Validation Internal"), TypedBackendError::Internal(_)));
    // Matching is case sensitive.
    assert!(matches!(TypedBackendError::from_message("lost"), TypedBackendError::Other(_)));
}

#[test]
fn backend_error_from_str() {
    let e: TypedBackendError = "Timeout".into();
    assert!(matches!(e, TypedBackendError::SurfaceTimeout));
    let e = TypedBackendError::from("plain");
    match e {
        TypedBackendError::Other(m) => assert_eq!(m, "plain"),
        other => panic!("unexpected {:?}", other),
    }
}

#[test]
fn substring_search() {
    assert!(str_contains("abcdef", "cde"));
    assert!(str_contains("abc", ""));
    assert!(str_contains("abc", "abc"));
    assert!(!str_contains("abc", "abcd"));
    assert!(!str_contains("", "a"));
    assert!(!str_contains("aab", "abb"));
    assert_eq!(chars_of("héllo"), vec!['h', 'é', 'l', 'l', 'o']);
    assert!(contains_chars(&chars_of("héllo"), &chars_of("él")));
}

#[test]
fn decimal_rendering() {
    assert_eq!(decimal_string(0), "0");
    assert_eq!(decimal_string(7), "7");
    assert_eq!(decimal_string(10), "10");
    assert_eq!(decimal_string(4096), "4096");
    assert_eq!(decimal_string(u32::MAX), "4294967295");
    assert_eq!(prefixed_decimal("n=", 42), "n=42");
}

#[test]
fn lcg_sequence() {
    assert_eq!(LCG_MULTIPLIER, 1664525);
    assert_eq!(LCG_INCREMENT, 1013904223);
    let mut g = Lcg::new(0);
    assert_eq!(g.next_bits(), 0x3f9e_3779);
    assert_eq!(g.next_bits(), 0x3fa3_a814);
    assert_eq!(g.next_bits(), 0x3fe8_e67b);
    let mut h = Lcg::new(12345);
    assert_eq!(h.next_bits(), 0x3f82_9c8e);
}

#[test]
fn lcg_bits_are_floats_in_one_two() {
    let mut g = Lcg::new(987654321);
    for _ in 0..1000 {
        let f = f32::from_bits(g.next_bits());
        assert!((1.0..2.0).contains(&f));
    }
}

#[test]
fn fuse_predicates() {
    let fuse = MoonFuse::new();
    assert_eq!(fuse.render_calls, 0);
    assert!(MoonFuse::texture_id_allowed(TextureId(0)));
    assert!(MoonFuse::texture_id_allowed(TextureId(u32::MAX - 2)));
    assert!(!MoonFuse::texture_id_allowed(TextureId(u32::MAX - 1)));
    assert!(!MoonFuse::texture_id_allowed(TextureId(u32::MAX)));
    assert!(MoonFuse::objects_count_allowed(MAX_OBJECTS));
    assert!(!MoonFuse::objects_count_allowed(MAX_OBJECTS + 1));
    assert!(MoonFuse::resource_count_allowed(MAX_TEXTURES, MAX_FONTS));
    assert!(!MoonFuse::resource_count_allowed(MAX_TEXTURES + 1, 0));
    assert!(!MoonFuse::resource_count_allowed(0, MAX_FONTS + 1));
    fuse.validate_texture_id(TextureId(5));
    fuse.validate_objects_count(10);
    fuse.validate_resource_count(1, 1);
}

#[test]
fn eraser_overrides_blend_mode() {
    assert_eq!(stroke_blend_mode(true, BlendMode::Add), BlendMode::Eraser);
    assert_eq!(stroke_blend_mode(true, BlendMode::Normal), BlendMode::Eraser);
    assert_eq!(stroke_blend_mode(false, BlendMode::Multiply), BlendMode::Multiply);
    assert_eq!(stroke_blend_mode(false, BlendMode::Screen), BlendMode::Screen);
    assert_eq!(BlendMode::default(), BlendMode::Normal);
}

#[test]
fn video_dimensions_must_be_even() {
    assert!(check_video_dimensions(1920, 1080).is_ok());
    assert!(check_video_dimensions(0, 0).is_ok());
    for (w, h) in [(1921, 1080), (1920, 1081), (1, 1)] {
        match check_video_dimensions(w, h) {
            Err(MoonWalkError::IOError(m)) => assert_eq!(m, "Video dimensions must be even numbers"),
            other => panic!("unexpected {:?}", other),
        }
    }
    assert_eq!(VideoFormat::default(), VideoFormat::Mp4);
    assert_eq!(VideoPreset::default(), VideoPreset::Balanced);
}

#[test]
fn graphics_info_unreported() {
    let info = GraphicsInfo::unreported();
    assert_eq!(info.name, "");
    assert_eq!(info.backend, "");
    assert_eq!(info.driver, "");
}

#[test]
fn colour_words() {
    assert_eq!(pack_rgba(255, 255, 255, 255), 0xFFFF_FFFF);
    assert_eq!(pack_rgba(0, 0, 0, 255), 0xFF00_0000);
    assert_eq!(pack_rgba(255, 0, 0, 255), 0xFF00_00FF);
    assert_eq!(pack_rgba(0x12, 0x34, 0x56, 0x78), 0x7856_3412);
    let p = pack_rgba(25, 51, 76, 102);
    assert_eq!(unpack_channel(p, 0), 25);
    assert_eq!(unpack_channel(p, 1), 51);
    assert_eq!(unpack_channel(p, 2), 76);
    assert_eq!(unpack_channel(p, 3), 102);
    // A channel above 255 spills into the next one.
    assert_eq!(pack_rgba(256, 0, 0, 0), 0x100);
}

fn io_message<T: std::fmt::Debug>(r: Result<T, MoonWalkError>) -> String {
    match r {
        Err(MoonWalkError::IOError(m)) => m,
        other => panic!("expected an IO error, got {:?}", other),
    }
}

#[test]
fn video_formats() {
    assert!(check_video_format(VideoFormat::Mp4).is_ok());
    assert!(check_video_format(VideoFormat::Mov).is_ok());
    assert!(check_video_format(VideoFormat::Mkv).is_ok());
    let expected = "GIF/RAW formats are currently not supported by video-rs 0.10 backend";
    assert_eq!(io_message(check_video_format(VideoFormat::Gif)), expected);
    assert_eq!(io_message(check_video_format(VideoFormat::Raw)), expected);
    assert!(check_recorder_request(640, 480, VideoFormat::Mp4).is_ok());
    assert_eq!(io_message(check_recorder_request(641, 480, VideoFormat::Gif)), "Video dimensions must be even numbers");
    assert_eq!(io_message(check_recorder_request(640, 480, VideoFormat::Raw)), expected);
}

#[test]
fn video_frames_are_numbered() {
    let mut v = VideoFrames::new(64, 32);
    assert_eq!(v.accept_frame(64, 32).unwrap(), 0);
    assert_eq!(io_message(v.accept_frame(32, 64)), "Frame size mismatch");
    assert_eq!(v.accept_frame(64, 32).unwrap(), 1);
    assert_eq!(v.frame_count, 2);
}
