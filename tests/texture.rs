use mime_more::texture::{is_texture_manual, is_texture_mime, is_texture_std};
use mime_more::Mime;

const PNG: [u8; 15] = [
    0x89, 0x50, 0x4E, 0x47, 0x0D, 0x0A, 0x1A, 0x0A, 0x11, 0x45, 0x14, 0x19, 0x19, 0x81, 0x0,
];

fn mime(s: &str) -> Mime {
    Mime::from_str(s).unwrap()
}

#[test]
fn mime_is_texture() {
    assert!(is_texture_mime(&mime("text/plain")));
    assert!(is_texture_mime(&mime("application/json")));
    assert!(is_texture_mime(&mime("image/svg+xml")));
    assert!(is_texture_mime(&mime("text/html")));
    assert!(!is_texture_mime(&mime("application/octet-stream")));
    assert!(!is_texture_mime(&mime("application/pdf")));
    assert!(!is_texture_mime(&mime("image/png")));
    assert!(!is_texture_mime(&mime("image/bmp")));
}

#[test]
fn std_content_is_texture() {
    let texture = b"Hello, world! This is Rust.";
    let binding = "Hello, world! This is Rust. こんにちは、世界！你好，世界！".to_string();
    let texture_with_utf8 = binding.as_bytes();
    let non_texture = &PNG;

    assert!(is_texture_std(texture));
    assert!(is_texture_std(texture_with_utf8));
    assert!(!is_texture_std(non_texture));
}

#[test]
fn manual_content_is_texture() {
    let texture = b"Hello, world! This is Rust.";
    let binding = "Hello, world! This is Rust. こんにちは、世界！你好，世界！".to_string();
    let texture_with_utf8 = binding.as_bytes();
    let non_texture = &PNG;

    assert!(is_texture_manual(texture, 64));
    assert!(is_texture_manual(texture_with_utf8, 64));
    assert!(!is_texture_manual(non_texture, 64));
}

#[test]
fn validators_agree_on_short_buffers() {
    let samples: [&[u8]; 6] = [b"", b"plain", "é漢字🦀".as_bytes(), &PNG, &[0xE3, 0x81], &[0xFF]];
    for s in samples {
        assert_eq!(is_texture_manual(s, 64), is_texture_std(s));
        assert_eq!(is_texture_manual(s, -1), is_texture_std(s));
    }
}

#[test]
fn relaxed_validator_accepts_overlong_forms() {
    let overlong = [0xC0, 0x80];
    assert!(is_texture_manual(&overlong, 64));
    assert!(!is_texture_std(&overlong));
    let beyond_unicode = [0xF7, 0xBF, 0xBF, 0xBF];
    assert!(is_texture_manual(&beyond_unicode, 64));
    assert!(!is_texture_std(&beyond_unicode));
}

#[test]
fn truncated_sequence_is_rejected() {
    assert!(!is_texture_manual(&[0xE3, 0x81], 64));
    assert!(!is_texture_manual(&[b'a', 0xC3], 64));
    assert!(!is_texture_manual(&[0xF0, 0x9F, 0xA6], 64));
}

#[test]
fn bad_lead_byte_is_rejected() {
    assert!(!is_texture_manual(&[0xFF], 64));
    assert!(!is_texture_manual(&[0x80, b'a'], 64));
    assert!(!is_texture_manual(&[0xF8, 0x80, 0x80, 0x80], 64));
}

#[test]
fn window_bounds_the_scan() {
    let data = [b'a', b'b', 0xFF];
    assert!(is_texture_manual(&data, 2));
    assert!(!is_texture_manual(&data, 3));
    assert!(is_texture_manual(&data, 0));
    assert!(!is_texture_manual(&data, -1));
    // a sequence that starts inside the window must still be complete
    assert!(!is_texture_manual(&[b'a', 0xE3, 0x81], 2));
}

#[test]
fn empty_buffer_is_text() {
    assert!(mime("image/png").is_texture(&[]));
    assert!(mime("application/octet-stream").is_texture(b""));
}

#[test]
fn texture_policy_cases() {
    assert!(mime("application/json").is_texture(&[0xFF, 0xFE]));
    assert!(mime("image/png").is_texture(b"ascii"));
    assert!(!mime("image/png").is_texture(&PNG));
}
