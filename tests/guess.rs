use mime_more::light_guess::{lookup_light, mime_type_by_extension, try_from_ext};
use mime_more::magic::mime_type_by_content;
use mime_more::resolve::{from_ext_and_content, resolve, Capabilities};
use mime_more::utils::get_extension;
use mime_more::{Mime, MimeError};

const PNG: [u8; 15] = [
    0x89, 0x50, 0x4E, 0x47, 0x0D, 0x0A, 0x1A, 0x0A, 0x11, 0x45, 0x14, 0x19, 0x19, 0x81, 0x0,
];
const PDF: [u8; 12] = [0x25, 0x50, 0x44, 0x46, 0x2D, 0x11, 0x45, 0x14, 0x19, 0x19, 0x81, 0x0];

#[test]
fn normal_extensions() {
    assert_eq!(mime_type_by_extension("txt").unwrap(), "text/plain");
    assert_eq!(mime_type_by_extension("css").unwrap(), "text/css");
    assert_eq!(mime_type_by_extension("html").unwrap(), "text/html");
    assert_eq!(mime_type_by_extension("json").unwrap(), "application/json");
    assert_eq!(mime_type_by_extension("png").unwrap(), "image/png");
    assert_eq!(mime_type_by_extension("svg").unwrap(), "image/svg+xml");
    assert_eq!(mime_type_by_extension("woff2").unwrap(), "font/woff2");
    assert_eq!(mime_type_by_extension("aac").unwrap(), "audio/aac");
    assert_eq!(mime_type_by_extension("avi").unwrap(), "video/x-msvideo");
    assert_eq!(mime_type_by_extension("pdf").unwrap(), "application/pdf");
    assert_eq!(mime_type_by_extension("wasm").unwrap(), "application/wasm");
    assert_eq!(mime_type_by_extension("webmanifest").unwrap(), "application/manifest+json");
}

#[test]
fn unknown_extensions() {
    assert!(mime_type_by_extension("unknown").is_none());
}

#[test]
fn try_from_exts() {
    assert_eq!(try_from_ext("png").unwrap().subtype(), "png");
    assert_eq!(try_from_ext("svg").unwrap().subtype(), "svg");
    assert_eq!(try_from_ext("woff2").unwrap().type_(), "font");
}

#[test]
fn light_lookup_ignores_case() {
    assert_eq!(mime_type_by_extension("PNG").unwrap(), "image/png");
    assert_eq!(mime_type_by_extension("Jpg").unwrap(), "image/jpeg");
    assert_eq!(lookup_light("PNG"), None);
    assert_eq!(lookup_light("htm"), Some("text/html"));
    assert_eq!(try_from_ext("unknown"), Err(MimeError::LookupNotFound));
}

#[test]
fn test_html() {
    let data = b"<!DOCTYPE html><html><head><title>Test</title></head><body><p>Test</p></body></html>";
    assert_eq!(mime_type_by_content(data).unwrap().to_string(), "text/html");
}

#[test]
fn test_mp3() {
    let data = &[0xFF, 0xFB, 0x11, 0x45, 0x14, 0x19, 0x19, 0x81, 0x0];
    assert_eq!(mime_type_by_content(data).unwrap().to_string(), "audio/mpeg");
}

#[test]
fn test_jpg() {
    let data = &[0xFF, 0xD8, 0xFF, 0xE0, 0x11, 0x45, 0x14, 0x19, 0x19, 0x81, 0x0];
    assert_eq!(mime_type_by_content(data).unwrap().to_string(), "image/jpeg");
}

#[test]
fn test_script() {
    let data = b"#!/usr/bin/env python\nprint('Hello, World!')";
    assert_eq!(mime_type_by_content(data).unwrap().to_string(), "text/x-shellscript");
}

#[test]
fn test_png() {
    assert_eq!(mime_type_by_content(&PNG).unwrap().to_string(), "image/png");
}

#[test]
fn test_pdf() {
    assert_eq!(mime_type_by_content(&PDF).unwrap().to_string(), "application/pdf");
}

#[test]
fn unknown_content_is_not_found() {
    assert_eq!(mime_type_by_content(b"plain words").unwrap_err(), MimeError::LookupNotFound);
    assert_eq!(Mime::from_content(&[]).unwrap_err(), MimeError::LookupNotFound);
}

#[test]
fn test_get_extension() {
    assert_eq!(get_extension("test.txt"), Some("txt"));
    assert_eq!(get_extension("test"), None);
}

#[test]
fn extension_edge_cases() {
    assert_eq!(get_extension("dir.d/archive.tar.gz"), Some("gz"));
    assert_eq!(get_extension("dir.d/readme"), None);
    assert_eq!(get_extension(".bashrc"), None);
    assert_eq!(get_extension("a/.."), None);
    assert_eq!(get_extension("foo.txt/"), Some("txt"));
    assert_eq!(get_extension("foo.txt/."), Some("txt"));
    assert_eq!(get_extension("name."), Some(""));
    assert_eq!(get_extension(""), None);
}

#[test]
fn media_type_parsing() {
    let m = Mime::from_str("Text/HTML").unwrap();
    assert_eq!(m.to_string(), "text/html");
    assert_eq!(m.type_(), "text");
    assert_eq!(m.subtype(), "html");
    assert_eq!(Mime::from_str("image/svg+xml").unwrap().subtype(), "svg");
    assert_eq!(Mime::from_str("textplain").unwrap_err(), MimeError::InvalidTypeGrammar);
}

#[test]
fn catalog_lookup() {
    assert_eq!(Mime::from_ext("png").unwrap().to_string(), "image/png");
    assert_eq!(Mime::from_ext("PNG").unwrap().to_string(), "image/png");
    assert_eq!(Mime::from_ext("no-such-ext").unwrap_err(), MimeError::LookupNotFound);
    assert_eq!(Mime::from_ext_light("css").unwrap().to_string(), "text/css");
}

#[test]
fn extension_wins_over_content() {
    // the bytes sniff as PDF, the extension says PNG
    assert_eq!(Mime::from_content(&PDF).unwrap().to_string(), "application/pdf");
    let m = from_ext_and_content("png", &PDF).unwrap();
    assert_eq!(m.to_string(), "image/png");
    let light_only = Capabilities { extension: false, extension_light: true, magic: true, texture: true };
    assert_eq!(resolve(Some("png"), Some(&PDF), light_only).to_string(), "image/png");
}

#[test]
fn chain_falls_through() {
    assert_eq!(from_ext_and_content("unknown", &PNG).unwrap().to_string(), "image/png");
    assert_eq!(from_ext_and_content("unknown", b"just words").unwrap().to_string(), "text/plain");
    assert_eq!(
        from_ext_and_content("unknown", &[0xFF, 0xFE, 0x00]).unwrap().to_string(),
        "application/octet-stream"
    );
    let none = Capabilities { extension: false, extension_light: false, magic: false, texture: false };
    assert_eq!(resolve(Some("png"), Some(&PNG), none).to_string(), "application/octet-stream");
    assert_eq!(resolve(None, None, Capabilities::all()).to_string(), "application/octet-stream");
    let texture_only = Capabilities { extension: false, extension_light: false, magic: false, texture: true };
    assert_eq!(resolve(Some("png"), Some(b""), texture_only).to_string(), "text/plain");
}
