//! Resolving a media type from an extension and content by an ordered chain
//! of lookups.

use crate::light_guess::{light_guess, try_from_ext};
use crate::magic::{content_guess, mime_type_by_content};
use crate::media::{
    media_type_of, octet_stream, octet_stream_view, parse_media_type, text_plain, text_plain_view,
    Mime, MimeError, MimeView,
};
use crate::texture::{is_texture_std, texture_of, texture_policy};
use vstd::prelude::*;
use vstd::utf8::valid_utf8;

verus! {

/// The media type text that the `mime_guess` catalog lists first for an
/// extension.
pub uninterp spec fn catalog_type(ext: Seq<char>) -> Option<Seq<char>>;

/// Relies on `mime_guess::from_ext` and `MimeGuess::first_raw`: the first
/// catalog entry for an extension depends on the extension alone.
#[verifier::external_body]
fn catalog_lookup(ext: &str) -> (r: Option<&'static str>)
    ensures
        match r {
            Some(t) => catalog_type(ext@) == Some(t@),
            None => catalog_type(ext@) is None,
        },
{
    mime_guess::from_ext(ext).first_raw()
}

/// The parsed media type that the full catalog gives for an extension.
pub open spec fn catalog_guess(ext: Seq<char>) -> Result<MimeView, MimeError> {
    match catalog_type(ext) {
        None => Err(MimeError::LookupNotFound),
        Some(t) => match media_type_of(t) {
            Some(m) => Ok(m),
            None => Err(MimeError::InvalidTypeGrammar),
        },
    }
}

impl Mime {
    /// Looks an extension up in the full catalog.
    pub fn from_ext(ext: &str) -> (r: Result<Mime, MimeError>)
        ensures
            match r {
                Ok(m) => catalog_guess(ext@) == Ok::<MimeView, MimeError>(m@),
                Err(e) => catalog_guess(ext@) == Err::<MimeView, MimeError>(e),
            },
    {
        match catalog_lookup(ext) {
            None => Err(MimeError::LookupNotFound),
            Some(t) => match parse_media_type(t) {
                Ok(m) => Ok(m),
                Err(_) => Err(MimeError::InvalidTypeGrammar),
            },
        }
    }

    /// Looks an extension up in the small built-in table.
    pub fn from_ext_light(ext: &str) -> (r: Result<Mime, MimeError>)
        ensures
            match r {
                Ok(m) => light_guess(ext@) == Ok::<MimeView, MimeError>(m@),
                Err(e) => light_guess(ext@) == Err::<MimeView, MimeError>(e),
            },
    {
        try_from_ext(ext)
    }

    /// Guesses the media type of a buffer from its magic bytes.
    pub fn from_content(data: &[u8]) -> (r: Result<Mime, MimeError>)
        ensures
            match r {
                Ok(m) => content_guess(data@) == Ok::<MimeView, MimeError>(m@),
                Err(e) => content_guess(data@) == Err::<MimeView, MimeError>(e),
            },
    {
        mime_type_by_content(data)
    }

    /// Classifies a buffer of this media type: text when it is empty, when the
    /// type is textual by name, or when the buffer is strict UTF-8.
    pub fn is_texture(self, data: &[u8]) -> (r: bool)
        ensures
            r == texture_policy(self@, data@),
    {
        texture_of(&self, data)
    }
}

/// Which stages of the resolution chain are switched on.
#[derive(Debug, Clone, Copy, PartialEq, Eq, Structural)]
pub struct Capabilities {
    /// Lookup in the full extension catalog.
    pub extension: bool,
    /// Lookup in the small built-in extension table.
    pub extension_light: bool,
    /// Sniffing of the content's magic bytes.
    pub magic: bool,
    /// Text or binary by classifying the content.
    pub texture: bool,
}

impl Capabilities {
    /// Every stage switched on.
    pub fn all() -> (r: Capabilities)
        ensures
            r == all_capabilities(),
    {
        Capabilities { extension: true, extension_light: true, magic: true, texture: true }
    }
}

/// Every stage switched on.
pub open spec fn all_capabilities() -> Capabilities {
    Capabilities { extension: true, extension_light: true, magic: true, texture: true }
}

/// The media type that the chain resolves: the first stage that is switched
/// on and finds one, else `application/octet-stream`.
pub open spec fn resolved(
    ext: Option<Seq<char>>,
    content: Option<Seq<u8>>,
    caps: Capabilities,
) -> MimeView {
    if caps.extension && ext is Some && catalog_guess(ext->Some_0) is Ok {
        catalog_guess(ext->Some_0)->Ok_0
    } else if caps.extension_light && ext is Some && light_guess(ext->Some_0) is Ok {
        light_guess(ext->Some_0)->Ok_0
    } else if caps.magic && content is Some && content_guess(content->Some_0) is Ok {
        content_guess(content->Some_0)->Ok_0
    } else if caps.texture && content is Some {
        if valid_utf8(content->Some_0) {
            text_plain_view()
        } else {
            octet_stream_view()
        }
    } else {
        octet_stream_view()
    }
}

/// Resolves a media type by the chain of stages that `caps` switches on. It
/// never fails: when no stage finds a type, the type is
/// `application/octet-stream`.
pub fn resolve(ext: Option<&str>, content: Option<&[u8]>, caps: Capabilities) -> (r: Mime)
    ensures
        r@ == resolved(
            match ext {
                Some(e) => Some(e@),
                None => None,
            },
            match content {
                Some(c) => Some(c@),
                None => None,
            },
            caps,
        ),
{
    if caps.extension {
        if let Some(e) = ext {
            if let Ok(m) = Mime::from_ext(e) {
                return m;
            }
        }
    }
    if caps.extension_light {
        if let Some(e) = ext {
            if let Ok(m) = Mime::from_ext_light(e) {
                return m;
            }
        }
    }
    if caps.magic {
        if let Some(c) = content {
            if let Ok(m) = Mime::from_content(c) {
                return m;
            }
        }
    }
    if caps.texture {
        if let Some(c) = content {
            if is_texture_std(c) {
                return text_plain();
            }
        }
    }
    octet_stream()
}

/// Resolves a media type from an extension and content with every stage of
/// the chain switched on.
pub fn from_ext_and_content(ext: &str, data: &[u8]) -> (r: Result<Mime, MimeError>)
    ensures
        r matches Ok(m) && m@ == resolved(Some(ext@), Some(data@), all_capabilities()),
{
    Ok(resolve(Some(ext), Some(data), Capabilities::all()))
}

/// When an extension stage that is switched on finds a type, the chain
/// returns it, whatever sniffing the content would give.
pub proof fn lemma_extension_wins(ext: Seq<char>, content: Option<Seq<u8>>, caps: Capabilities)
    requires
        (caps.extension && catalog_guess(ext) is Ok) || (caps.extension_light && light_guess(
            ext,
        ) is Ok),
    ensures
        resolved(Some(ext), content, caps) == (if caps.extension && catalog_guess(ext) is Ok {
            catalog_guess(ext)->Ok_0
        } else {
            light_guess(ext)->Ok_0
        }),
{
}

/// With every stage switched off the chain gives `application/octet-stream`.
pub proof fn lemma_no_stage_default(ext: Option<Seq<char>>, content: Option<Seq<u8>>)
    ensures
        resolved(
            ext,
            content,
            Capabilities { extension: false, extension_light: false, magic: false, texture: false },
        ) == octet_stream_view(),
{
}

} // verus!
