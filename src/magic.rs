//! Content sniffing by magic bytes.

use crate::media::{media_type_of, parse_media_type, Mime, MimeError, MimeView};
use vstd::prelude::*;

verus! {

/// The media type text that the `infer` crate's signatures give for a buffer.
pub uninterp spec fn sniffed_type(data: Seq<u8>) -> Option<Seq<char>>;

/// Relies on `infer::get` (and `Type::mime_type` on its result): the guess
/// depends on the bytes alone.
#[verifier::external_body]
fn sniff(data: &[u8]) -> (r: Option<&'static str>)
    ensures
        match r {
            Some(t) => sniffed_type(data@) == Some(t@),
            None => sniffed_type(data@) is None,
        },
{
    match infer::get(data) {
        Some(t) => Some(t.mime_type()),
        None => None,
    }
}

/// The parsed media type that sniffing gives for a buffer.
pub open spec fn content_guess(data: Seq<u8>) -> Result<MimeView, MimeError> {
    match sniffed_type(data) {
        None => Err(MimeError::LookupNotFound),
        Some(t) => match media_type_of(t) {
            Some(m) => Ok(m),
            None => Err(MimeError::InvalidTypeGrammar),
        },
    }
}

/// Guesses the media type of a buffer from its magic bytes.
pub fn mime_type_by_content(data: &[u8]) -> (r: Result<Mime, MimeError>)
    ensures
        match r {
            Ok(m) => content_guess(data@) == Ok::<MimeView, MimeError>(m@),
            Err(e) => content_guess(data@) == Err::<MimeView, MimeError>(e),
        },
{
    match sniff(data) {
        None => Err(MimeError::LookupNotFound),
        Some(t) => match parse_media_type(t) {
            Ok(m) => Ok(m),
            Err(_) => Err(MimeError::InvalidTypeGrammar),
        },
    }
}

} // verus!
