//! The media type of this library, built only by the `mime` crate's parser or
//! taken from its constants, held as the plain strings the logic reads.

use vstd::prelude::*;
use vstd::string::*;

verus! {

/// A media type as its canonical text, its top-level type and its subtype.
pub type MimeView = (Seq<char>, Seq<char>, Seq<char>);

/// The errors of this library.
#[derive(Debug, Clone, Copy, PartialEq, Eq, Structural)]
pub enum MimeError {
    /// A lookup by extension or content found no media type.
    LookupNotFound,
    /// A `data:` URL without its prefix, its `;` or its `,`.
    MalformedDataurl,
    /// A `data:` URL whose encoding token is neither UTF-8 nor base64.
    UnknownCharsetToken,
    /// Text that the media-type grammar refuses.
    InvalidTypeGrammar,
    /// A base64 payload that does not decode.
    InvalidBase64,
    /// A percent-encoded payload with a `%` not followed by two hexadecimal
    /// digits.
    InvalidPercentEncoding,
}

/// What the `mime` crate's parser makes of a string: `None` when it refuses it,
/// else the canonical text, the type and the subtype.
pub uninterp spec fn media_type_of(s: Seq<char>) -> Option<MimeView>;

/// A parsed media type. Its canonical text parses back to the same value.
#[derive(Debug, PartialEq, Eq)]
pub struct Mime {
    text: String,
    top: String,
    sub: String,
}

impl View for Mime {
    type V = MimeView;

    closed spec fn view(&self) -> MimeView {
        (self.text@, self.top@, self.sub@)
    }
}

impl Mime {
    /// The canonical text parses back to this value.
    #[verifier::type_invariant]
    pub open spec fn wf(&self) -> bool {
        media_type_of(self@.0) == Some(self@)
    }

    /// Parses a media type.
    pub fn from_str(s: &str) -> (r: Result<Mime, MimeError>)
        ensures
            match r {
                Ok(m) => media_type_of(s@) == Some(m@),
                Err(e) => media_type_of(s@) is None && e == MimeError::InvalidTypeGrammar,
            },
    {
        match parse_media_type(s) {
            Ok(m) => Ok(m),
            Err(_) => Err(MimeError::InvalidTypeGrammar),
        }
    }

    /// The canonical text.
    pub fn as_str(&self) -> (r: &str)
        ensures
            r@ == self@.0,
    {
        self.text.as_str()
    }

    /// The canonical text, as an owned string.
    pub fn to_string(&self) -> (r: String)
        ensures
            r@ == self@.0,
    {
        self.text.as_str().to_owned()
    }

    /// The top-level type.
    pub fn type_(&self) -> (r: &str)
        ensures
            r@ == self@.1,
    {
        self.top.as_str()
    }

    /// The subtype, without a `+suffix`.
    pub fn subtype(&self) -> (r: &str)
        ensures
            r@ == self@.2,
    {
        self.sub.as_str()
    }
}

impl Clone for Mime {
    fn clone(&self) -> (r: Self)
        ensures
            r@ == self@,
    {
        proof {
            use_type_invariant(self);
        }
        Mime { text: self.text.clone(), top: self.top.clone(), sub: self.sub.clone() }
    }
}

#[verifier::external_type_specification]
#[verifier::external_body]
pub struct ExFromStrError(mime::FromStrError);

/// Relies on `mime::Mime::from_str`, with the parsed value's `Display`,
/// `type_` and `subtype`: the outcome depends on the string alone, and the
/// displayed text of a parsed type is its lowercased source, which parses to
/// the same text, type and subtype.
#[verifier::external_body]
pub(crate) fn parse_media_type(s: &str) -> (r: Result<Mime, mime::FromStrError>)
    ensures
        match r {
            Ok(m) => media_type_of(s@) == Some(m@),
            Err(_) => media_type_of(s@) is None,
        },
        r matches Ok(m) ==> media_type_of(m@.0) == Some(m@),
{
    let m = <mime::Mime as std::str::FromStr>::from_str(s)?;
    Ok(Mime { text: m.to_string(), top: m.type_().as_str().to_string(), sub: m.subtype().as_str().to_string() })
}

/// The view of `text/plain`.
pub open spec fn text_plain_view() -> MimeView {
    ("text/plain"@, "text"@, "plain"@)
}

/// The view of `application/octet-stream`.
pub open spec fn octet_stream_view() -> MimeView {
    ("application/octet-stream"@, "application"@, "octet-stream"@)
}

/// Relies on `mime::TEXT_PLAIN`: it displays as `text/plain`, with type `text`
/// and subtype `plain`, which is also what parsing that text gives.
#[verifier::external_body]
pub(crate) fn text_plain() -> (r: Mime)
    ensures
        r@ == text_plain_view(),
        media_type_of(r@.0) == Some(r@),
{
    let m = mime::TEXT_PLAIN;
    Mime { text: m.to_string(), top: m.type_().as_str().to_string(), sub: m.subtype().as_str().to_string() }
}

/// Relies on `mime::APPLICATION_OCTET_STREAM`: it displays as
/// `application/octet-stream`, with type `application` and subtype
/// `octet-stream`, which is also what parsing that text gives.
#[verifier::external_body]
pub(crate) fn octet_stream() -> (r: Mime)
    ensures
        r@ == octet_stream_view(),
        media_type_of(r@.0) == Some(r@),
{
    let m = mime::APPLICATION_OCTET_STREAM;
    Mime { text: m.to_string(), top: m.type_().as_str().to_string(), sub: m.subtype().as_str().to_string() }
}

/// Character-wise equality of two strings.
pub fn str_eq(a: &str, b: &str) -> (r: bool)
    ensures
        r == (a@ == b@),
{
    let n = a.unicode_len();
    if n != b.unicode_len() {
        return false;
    }
    let mut i: usize = 0;
    while i < n
        invariant
            n == a@.len(),
            n == b@.len(),
            i <= n,
            forall|j: int| 0 <= j < i ==> a@[j] == b@[j],
        decreases n - i,
    {
        if a.get_char(i) != b.get_char(i) {
            return false;
        }
        i += 1;
    }
    assert(a@ =~= b@);
    true
}

} // verus!
