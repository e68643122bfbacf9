//! A small built-in table from file extensions to media types.

use crate::media::{media_type_of, parse_media_type, str_eq, Mime, MimeError, MimeView};
use vstd::prelude::*;
use vstd::utf8::is_ascii_chars;

verus! {

/// What `str::to_lowercase` makes of a string.
pub uninterp spec fn lower_of(s: Seq<char>) -> Seq<char>;

/// A character with ASCII `A`..=`Z` mapped to `a`..=`z`.
pub open spec fn ascii_lower_char(c: char) -> char {
    if 'A' <= c <= 'Z' {
        ((c as u32) + 32) as char
    } else {
        c
    }
}

/// Relies on `str::to_lowercase`: the result depends on the characters alone,
/// and on ASCII text it maps `A`..=`Z` to `a`..=`z` and keeps every other
/// character.
#[verifier::external_body]
fn lowercase(s: &str) -> (r: String)
    ensures
        r@ == lower_of(s@),
        is_ascii_chars(s@) ==> r@ == s@.map_values(|c: char| ascii_lower_char(c)),
{
    s.to_lowercase()
}

/// The media type that the table gives for an already lowercased extension.
pub open spec fn light_table(key: Seq<char>) -> Option<Seq<char>> {
    if key == "txt"@ {
        Some("text/plain"@)
    } else if key == "css"@ {
        Some("text/css"@)
    } else if key == "htm"@ || key == "html"@ {
        Some("text/html"@)
    } else if key == "js"@ || key == "mjs"@ || key == "jsx"@ || key == "ecma"@ || key == "es"@ {
        Some("text/javascript"@)
    } else if key == "json"@ {
        Some("application/json"@)
    } else if key == "json5"@ {
        Some("application/json5"@)
    } else if key == "yaml"@ || key == "yml"@ {
        Some("text/x-yaml"@)
    } else if key == "toml"@ {
        Some("text/x-toml"@)
    } else if key == "markdown"@ || key == "md"@ {
        Some("text/markdown"@)
    } else if key == "xhtml"@ {
        Some("application/xhtml+xml"@)
    } else if key == "xml"@ {
        Some("text/xml"@)
    } else if key == "csv"@ {
        Some("text/csv"@)
    } else if key == "tsv"@ {
        Some("text/tab-separated-values"@)
    } else if key == "bmp"@ {
        Some("image/bmp"@)
    } else if key == "avif"@ {
        Some("image/avif"@)
    } else if key == "gif"@ {
        Some("image/gif"@)
    } else if key == "ico"@ {
        Some("image/x-icon"@)
    } else if key == "jpeg"@ || key == "jpg"@ {
        Some("image/jpeg"@)
    } else if key == "png"@ {
        Some("image/png"@)
    } else if key == "svg"@ {
        Some("image/svg+xml"@)
    } else if key == "webp"@ {
        Some("image/webp"@)
    } else if key == "otf"@ {
        Some("font/otf"@)
    } else if key == "ttf"@ {
        Some("font/ttf"@)
    } else if key == "ttc"@ {
        Some("font/collection"@)
    } else if key == "woff"@ {
        Some("font/woff"@)
    } else if key == "woff2"@ {
        Some("font/woff2"@)
    } else if key == "aac"@ {
        Some("audio/aac"@)
    } else if key == "midi"@ || key == "mid"@ {
        Some("audio/midi"@)
    } else if key == "mp3"@ {
        Some("audio/mpeg"@)
    } else if key == "oga"@ || key == "ogg"@ {
        Some("audio/ogg"@)
    } else if key == "wav"@ {
        Some("audio/wav"@)
    } else if key == "weba"@ {
        Some("audio/webm"@)
    } else if key == "flac"@ {
        Some("audio/flac"@)
    } else if key == "m3u"@ || key == "m3u8"@ {
        Some("audio/x-mpegurl"@)
    } else if key == "m4a"@ {
        Some("audio/m4a"@)
    } else if key == "avi"@ {
        Some("video/x-msvideo"@)
    } else if key == "mpeg"@ {
        Some("video/mpeg"@)
    } else if key == "ogv"@ {
        Some("video/ogg"@)
    } else if key == "ivf"@ {
        Some("video/x-ivf"@)
    } else if key == "webm"@ {
        Some("video/webm"@)
    } else if key == "mp4"@ {
        Some("video/mp4"@)
    } else if key == "flv"@ {
        Some("video/x-flv"@)
    } else if key == "ts"@ {
        Some("audio/vnd.dlna.mpeg-tts"@)
    } else if key == "mov"@ {
        Some("video/quicktime"@)
    } else if key == "wmv"@ {
        Some("video/x-ms-wmv"@)
    } else if key == "pdf"@ {
        Some("application/pdf"@)
    } else if key == "wasm"@ {
        Some("application/wasm"@)
    } else if key == "webmanifest"@ {
        Some("application/manifest+json"@)
    } else {
        None
    }
}

/// Looks an already lowercased extension up in the table.
pub fn lookup_light(key: &str) -> (r: Option<&'static str>)
    ensures
        match r {
            Some(v) => light_table(key@) == Some(v@),
            None => light_table(key@) is None,
        },
{
    if str_eq(key, "txt") {
        Some("text/plain")
    } else if str_eq(key, "css") {
        Some("text/css")
    } else if str_eq(key, "htm") || str_eq(key, "html") {
        Some("text/html")
    } else if str_eq(key, "js") || str_eq(key, "mjs") || str_eq(key, "jsx") || str_eq(key, "ecma") || str_eq(key, "es") {
        Some("text/javascript")
    } else if str_eq(key, "json") {
        Some("application/json")
    } else if str_eq(key, "json5") {
        Some("application/json5")
    } else if str_eq(key, "yaml") || str_eq(key, "yml") {
        Some("text/x-yaml")
    } else if str_eq(key, "toml") {
        Some("text/x-toml")
    } else if str_eq(key, "markdown") || str_eq(key, "md") {
        Some("text/markdown")
    } else if str_eq(key, "xhtml") {
        Some("application/xhtml+xml")
    } else if str_eq(key, "xml") {
        Some("text/xml")
    } else if str_eq(key, "csv") {
        Some("text/csv")
    } else if str_eq(key, "tsv") {
        Some("text/tab-separated-values")
    } else if str_eq(key, "bmp") {
        Some("image/bmp")
    } else if str_eq(key, "avif") {
        Some("image/avif")
    } else if str_eq(key, "gif") {
        Some("image/gif")
    } else if str_eq(key, "ico") {
        Some("image/x-icon")
    } else if str_eq(key, "jpeg") || str_eq(key, "jpg") {
        Some("image/jpeg")
    } else if str_eq(key, "png") {
        Some("image/png")
    } else if str_eq(key, "svg") {
        Some("image/svg+xml")
    } else if str_eq(key, "webp") {
        Some("image/webp")
    } else if str_eq(key, "otf") {
        Some("font/otf")
    } else if str_eq(key, "ttf") {
        Some("font/ttf")
    } else if str_eq(key, "ttc") {
        Some("font/collection")
    } else if str_eq(key, "woff") {
        Some("font/woff")
    } else if str_eq(key, "woff2") {
        Some("font/woff2")
    } else if str_eq(key, "aac") {
        Some("audio/aac")
    } else if str_eq(key, "midi") || str_eq(key, "mid") {
        Some("audio/midi")
    } else if str_eq(key, "mp3") {
        Some("audio/mpeg")
    } else if str_eq(key, "oga") || str_eq(key, "ogg") {
        Some("audio/ogg")
    } else if str_eq(key, "wav") {
        Some("audio/wav")
    } else if str_eq(key, "weba") {
        Some("audio/webm")
    } else if str_eq(key, "flac") {
        Some("audio/flac")
    } else if str_eq(key, "m3u") || str_eq(key, "m3u8") {
        Some("audio/x-mpegurl")
    } else if str_eq(key, "m4a") {
        Some("audio/m4a")
    } else if str_eq(key, "avi") {
        Some("video/x-msvideo")
    } else if str_eq(key, "mpeg") {
        Some("video/mpeg")
    } else if str_eq(key, "ogv") {
        Some("video/ogg")
    } else if str_eq(key, "ivf") {
        Some("video/x-ivf")
    } else if str_eq(key, "webm") {
        Some("video/webm")
    } else if str_eq(key, "mp4") {
        Some("video/mp4")
    } else if str_eq(key, "flv") {
        Some("video/x-flv")
    } else if str_eq(key, "ts") {
        Some("audio/vnd.dlna.mpeg-tts")
    } else if str_eq(key, "mov") {
        Some("video/quicktime")
    } else if str_eq(key, "wmv") {
        Some("video/x-ms-wmv")
    } else if str_eq(key, "pdf") {
        Some("application/pdf")
    } else if str_eq(key, "wasm") {
        Some("application/wasm")
    } else if str_eq(key, "webmanifest") {
        Some("application/manifest+json")
    } else {
        None
    }
}

/// Looks an extension up in the table, whatever its case.
pub fn mime_type_by_extension(ext: &str) -> (r: Option<&'static str>)
    ensures
        match r {
            Some(v) => light_table(lower_of(ext@)) == Some(v@),
            None => light_table(lower_of(ext@)) is None,
        },
        is_ascii_chars(ext@) ==> lower_of(ext@) == ext@.map_values(|c: char| ascii_lower_char(c)),
{
    let key = lowercase(ext);
    lookup_light(key.as_str())
}

/// The media type that the table and the parser give for an extension.
pub open spec fn light_guess(ext: Seq<char>) -> Result<MimeView, MimeError> {
    match light_table(lower_of(ext)) {
        None => Err(MimeError::LookupNotFound),
        Some(t) => match media_type_of(t) {
            Some(m) => Ok(m),
            None => Err(MimeError::InvalidTypeGrammar),
        },
    }
}

/// The parsed media type that the table gives for an extension.
pub fn try_from_ext(ext: &str) -> (r: Result<Mime, MimeError>)
    ensures
        match r {
            Ok(m) => light_guess(ext@) == Ok::<MimeView, MimeError>(m@),
            Err(e) => light_guess(ext@) == Err::<MimeView, MimeError>(e),
        },
{
    match mime_type_by_extension(ext) {
        None => Err(MimeError::LookupNotFound),
        Some(t) => match parse_media_type(t) {
            Ok(m) => Ok(m),
            Err(_) => Err(MimeError::InvalidTypeGrammar),
        },
    }
}

} // verus!
