//! The `data:` URL codec. Text payloads are percent-encoded, binary payloads
//! are base64-encoded, and the token between `;` and `,` says which.

use crate::magic::{content_guess, mime_type_by_content};
use crate::media::{media_type_of, parse_media_type, str_eq, Mime, MimeError, MimeView};
use crate::texture::{texture_of, texture_policy};
use base64::engine::general_purpose;
use base64::Engine;
use vstd::prelude::*;
use vstd::std_specs::iter::IteratorSpec;
use vstd::string::*;
use vstd::utf8::{encode_utf8, is_ascii_chars, is_ascii_chars_encode_utf8};

verus! {

/// How the payload of a `data:` URL is encoded.
#[derive(Debug, Clone, Copy, PartialEq, Eq, PartialOrd, Ord, Structural)]
pub enum DataurlCharset {
    /// Percent-encoded text.
    Utf8,
    /// Standard base64 with padding.
    Base64,
}

/// The encoding that a token names: `utf-8` for text, `base64` for binary,
/// nothing else.
pub open spec fn charset_of_token(tok: Seq<char>) -> Option<DataurlCharset> {
    if tok == "utf-8"@ {
        Some(DataurlCharset::Utf8)
    } else if tok == "base64"@ {
        Some(DataurlCharset::Base64)
    } else {
        None
    }
}

impl DataurlCharset {
    /// `true` for text.
    pub fn to_texture_bool(self) -> (r: bool)
        ensures
            r == (self == DataurlCharset::Utf8),
    {
        match self {
            DataurlCharset::Utf8 => true,
            DataurlCharset::Base64 => false,
        }
    }

    /// Reads an encoding token.
    pub fn from_str(s: &str) -> (r: Result<DataurlCharset, MimeError>)
        ensures
            match r {
                Ok(c) => charset_of_token(s@) == Some(c),
                Err(e) => charset_of_token(s@) is None && e == MimeError::UnknownCharsetToken,
            },
    {
        if str_eq(s, "utf-8") {
            Ok(DataurlCharset::Utf8)
        } else if str_eq(s, "base64") {
            Ok(DataurlCharset::Base64)
        } else {
            Err(MimeError::UnknownCharsetToken)
        }
    }

    /// The token that names this encoding.
    pub fn as_str(self) -> (r: &'static str)
        ensures
            r@ == (if self == DataurlCharset::Utf8 {
                "utf-8"@
            } else {
                "base64"@
            }),
    {
        match self {
            DataurlCharset::Utf8 => "utf-8",
            DataurlCharset::Base64 => "base64",
        }
    }
}

impl From<bool> for DataurlCharset {
    fn from(b: bool) -> (r: DataurlCharset) {
        if b {
            DataurlCharset::Utf8
        } else {
            DataurlCharset::Base64
        }
    }
}

impl vstd::std_specs::convert::FromSpecImpl<bool> for DataurlCharset {
    open spec fn obeys_from_spec() -> bool {
        true
    }

    open spec fn from_spec(b: bool) -> DataurlCharset {
        charset_for(b)
    }
}

/// The encoding for a classification: text or binary.
pub open spec fn charset_for(texture: bool) -> DataurlCharset {
    if texture {
        DataurlCharset::Utf8
    } else {
        DataurlCharset::Base64
    }
}

/// The text that base64's standard engine makes of some bytes.
pub uninterp spec fn base64_of(b: Seq<u8>) -> Seq<char>;

/// The bytes that base64's standard engine reads from a text, if it is valid.
pub uninterp spec fn base64_decoded(s: Seq<char>) -> Option<Seq<u8>>;

/// True for the bytes that percent-encoding leaves as they are: ASCII
/// letters, digits and `-`, `.`, `_`, `~`.
pub open spec fn unreserved(x: u8) -> bool {
    (0x30 <= x <= 0x39) || (0x41 <= x <= 0x5a) || (0x61 <= x <= 0x7a) || x == 0x2d || x == 0x2e
        || x == 0x5f || x == 0x7e
}

/// An uppercase hexadecimal digit.
pub open spec fn hex_digit(d: u8) -> char {
    if d < 10 {
        (0x30 + d) as char
    } else {
        (0x41 + d - 10) as char
    }
}

/// Percent-encoding: an unreserved byte stands for itself, any other byte
/// becomes `%` and its two uppercase hexadecimal digits.
pub open spec fn percent_of(b: Seq<u8>) -> Seq<char>
    decreases b.len(),
{
    if b.len() == 0 {
        Seq::empty()
    } else {
        let x = b[0];
        let head = if unreserved(x) {
            seq![x as char]
        } else {
            seq!['%', hex_digit(x / 16), hex_digit(x % 16)]
        };
        head + percent_of(b.drop_first())
    }
}


#[verifier::external_type_specification]
#[verifier::external_body]
pub struct ExDecodeError(base64::DecodeError);

/// Relies on `Engine::encode` of `base64::engine::general_purpose::STANDARD`:
/// padded standard-alphabet text, which the same engine decodes back to the
/// input.
#[verifier::external_body]
fn base64_encode(b: &[u8]) -> (r: String)
    ensures
        r@ == base64_of(b@),
        base64_decoded(r@) == Some(b@),
{
    general_purpose::STANDARD.encode(b)
}

/// Relies on `Engine::decode` of `base64::engine::general_purpose::STANDARD`.
#[verifier::external_body]
fn base64_decode(s: &str) -> (r: Result<Vec<u8>, base64::DecodeError>)
    ensures
        match r {
            Ok(v) => base64_decoded(s@) == Some(v@),
            Err(_) => base64_decoded(s@) is None,
        },
{
    general_purpose::STANDARD.decode(s.as_bytes())
}

/// Relies on `urlencoding::encode_binary`: every byte but ASCII letters,
/// digits and `-._~` becomes `%XX`, with uppercase digits.
#[verifier::external_body]
fn percent_encode(b: &[u8]) -> (r: String)
    ensures
        r@ == percent_of(b@),
{
    urlencoding::encode_binary(b).into_owned()
}

/// Relies on `urlencoding::decode_binary`, which never fails: each `%` with
/// two hexadecimal digits (either case) becomes one byte, and every other
/// byte is copied.
#[verifier::external_body]
fn percent_decode(s: &str) -> (r: Vec<u8>)
    ensures
        r@ == percent_decoded(s@),
{
    urlencoding::decode_binary(s.as_bytes()).into_owned()
}

/// `s` cut at the first `c`: what comes before it and what comes after it.
pub open spec fn split_once(s: Seq<char>, c: char) -> Option<(Seq<char>, Seq<char>)>
    decreases s.len(),
{
    if s.len() == 0 {
        None
    } else if s[0] == c {
        Some((Seq::empty(), s.drop_first()))
    } else {
        match split_once(s.drop_first(), c) {
            Some(p) => Some((seq![s[0]] + p.0, p.1)),
            None => None,
        }
    }
}

/// The media type, the encoding token and the payload text of a `data:` URL.
pub open spec fn dataurl_fields(s: Seq<char>) -> Option<(Seq<char>, Seq<char>, Seq<char>)> {
    let p = "data:"@;
    if p.len() <= s.len() && s.subrange(0, p.len() as int) == p {
        match split_once(s.skip(p.len() as int), ';') {
            Some(a) => match split_once(a.1, ',') {
                Some(b) => Some((a.0, b.0, b.1)),
                None => None,
            },
            None => None,
        }
    } else {
        None
    }
}

/// The encoding that the part of a `data:` URL between `;` and `,` declares:
/// the `charset=utf-8` that the encoder writes for text, or a token.
pub open spec fn wire_charset_of(tok: Seq<char>) -> Option<DataurlCharset> {
    if tok == "charset=utf-8"@ {
        Some(DataurlCharset::Utf8)
    } else {
        charset_of_token(tok)
    }
}

/// True for an ASCII hexadecimal digit, in either case.
pub open spec fn is_hex_char(c: char) -> bool {
    ('0' <= c <= '9') || ('A' <= c <= 'F') || ('a' <= c <= 'f')
}

/// The value of a hexadecimal digit.
pub open spec fn hex_value(c: char) -> u8 {
    if '0' <= c <= '9' {
        (c as u32 - 0x30) as u8
    } else if 'A' <= c <= 'F' {
        (c as u32 - 0x41 + 10) as u8
    } else {
        (c as u32 - 0x61 + 10) as u8
    }
}

/// Percent-decoding: `%` and two hexadecimal digits become the byte they
/// spell; any other character stands for its own UTF-8 bytes.
pub open spec fn percent_decoded(s: Seq<char>) -> Seq<u8>
    decreases s.len(),
{
    if s.len() == 0 {
        Seq::empty()
    } else if s[0] == '%' && s.len() >= 3 && is_hex_char(s[1]) && is_hex_char(s[2]) {
        seq![(hex_value(s[1]) * 16 + hex_value(s[2])) as u8] + percent_decoded(s.skip(3))
    } else {
        encode_utf8(seq![s[0]]) + percent_decoded(s.drop_first())
    }
}

/// True when every `%` in `s` is followed by two hexadecimal digits, given
/// that the first `pending` characters must be such digits.
pub open spec fn escapes_ok(s: Seq<char>, pending: int) -> bool
    decreases s.len(),
{
    if s.len() == 0 {
        pending <= 0
    } else if pending > 0 {
        is_hex_char(s[0]) && escapes_ok(s.drop_first(), pending - 1)
    } else if s[0] == '%' {
        escapes_ok(s.drop_first(), 2)
    } else {
        escapes_ok(s.drop_first(), 0)
    }
}

/// True when every `%` in `s` starts a well-formed `%XX` escape.
pub open spec fn well_escaped(s: Seq<char>) -> bool {
    escapes_ok(s, 0)
}

/// A `data:` URL's media type, payload and encoding.
pub type DataurlView = (MimeView, Seq<u8>, DataurlCharset);

/// What decoding a `data:` URL gives.
pub open spec fn dataurl_parse(s: Seq<char>) -> Result<DataurlView, MimeError> {
    match dataurl_fields(s) {
        None => Err(MimeError::MalformedDataurl),
        Some(f) => match media_type_of(f.0) {
            None => Err(MimeError::InvalidTypeGrammar),
            Some(m) => match wire_charset_of(f.1) {
                None => Err(MimeError::UnknownCharsetToken),
                Some(DataurlCharset::Utf8) => if well_escaped(f.2) {
                    Ok((m, percent_decoded(f.2), DataurlCharset::Utf8))
                } else {
                    Err(MimeError::InvalidPercentEncoding)
                },
                Some(DataurlCharset::Base64) => match base64_decoded(f.2) {
                    None => Err(MimeError::InvalidBase64),
                    Some(d) => Ok((m, d, DataurlCharset::Base64)),
                },
            },
        },
    }
}

/// The text of a `data:` URL.
pub open spec fn dataurl_text(m: MimeView, data: Seq<u8>, charset: DataurlCharset) -> Seq<char> {
    match charset {
        DataurlCharset::Utf8 => "data:"@ + m.0 + ";charset=utf-8,"@ + percent_of(data),
        DataurlCharset::Base64 => "data:"@ + m.0 + ";base64,"@ + base64_of(data),
    }
}

proof fn lemma_split_once_at(s: Seq<char>, c: char, k: int)
    requires
        0 <= k < s.len(),
        s[k] == c,
        forall|j: int| 0 <= j < k ==> s[j] != c,
    ensures
        split_once(s, c) == Some((s.take(k), s.skip(k + 1))),
    decreases s.len(),
{
    if k > 0 {
        lemma_split_once_at(s.drop_first(), c, k - 1);
        assert(seq![s[0]] + s.drop_first().take(k - 1) =~= s.take(k));
        assert(s.drop_first().skip(k) =~= s.skip(k + 1));
    } else {
        assert(s.skip(1) =~= s.drop_first());
    }
}

proof fn lemma_split_once_none(s: Seq<char>, c: char)
    requires
        forall|j: int| 0 <= j < s.len() ==> s[j] != c,
    ensures
        split_once(s, c) is None,
    decreases s.len(),
{
    if s.len() > 0 {
        lemma_split_once_none(s.drop_first(), c);
    }
}

/// Checks that every `%` of `s` starts a well-formed `%XX` escape, in one
/// pass over its characters.
fn check_escapes(s: &str) -> (r: bool)
    ensures
        r == well_escaped(s@),
{
    broadcast use axiom_spec_iter, next_postcondition;

    let mut it = s.chars();
    let mut pending: usize = 0;
    loop
        invariant
            pending <= 2,
            it.obeys_prophetic_iter_laws(),
            it.decrease() is Some,
            well_escaped(s@) == escapes_ok(it.remaining(), pending as int),
        decreases it.decrease()->0,
    {
        let ghost before = it.remaining();
        match it.next() {
            None => {
                return pending == 0;
            },
            Some(c) => {
                assert(c == before[0] && it.remaining() == before.drop_first());
                if pending > 0 {
                    if !(('0' <= c && c <= '9') || ('A' <= c && c <= 'F') || ('a' <= c && c
                        <= 'f')) {
                        return false;
                    }
                    pending -= 1;
                } else if c == '%' {
                    pending = 2;
                }
            },
        }
    }
}

/// Position of the first `c` in `s` at or after `from`.
fn find_char(s: &str, n: usize, from: usize, c: char) -> (r: Option<usize>)
    requires
        n == s@.len(),
        from <= n,
    ensures
        match r {
            Some(k) => from <= k < n && s@[k as int] == c && forall|j: int|
                from <= j < k ==> s@[j] != c,
            None => forall|j: int| from <= j < n ==> s@[j] != c,
        },
{
    let mut i = from;
    while i < n
        invariant
            n == s@.len(),
            from <= i <= n,
            forall|j: int| from <= j < i ==> s@[j] != c,
        decreases n - i,
    {
        if s.get_char(i) == c {
            return Some(i);
        }
        i += 1;
    }
    None
}

/// A media type with a payload and the encoding chosen for it. The three are
/// fixed when the value is built.
#[derive(Debug, PartialEq, Eq)]
pub struct Dataurl {
    mime: Mime,
    data: Vec<u8>,
    charset: DataurlCharset,
}

impl View for Dataurl {
    type V = DataurlView;

    closed spec fn view(&self) -> DataurlView {
        (self.mime@, self.data@, self.charset)
    }
}

impl Clone for Dataurl {
    fn clone(&self) -> (r: Self)
        ensures
            r@ == self@,
    {
        Dataurl { mime: self.mime.clone(), data: self.data.clone(), charset: self.charset }
    }
}

proof fn lemma_hex_digit(d: u8)
    requires
        d < 16,
    ensures
        is_hex_char(hex_digit(d)),
{
}

proof fn lemma_hex_round_trip(d: u8)
    requires
        d < 16,
    ensures
        hex_value(hex_digit(d)) == d,
{
}

proof fn lemma_percent_decodes_back(b: Seq<u8>)
    ensures
        percent_decoded(percent_of(b)) == b,
    decreases b.len(),
{
    if b.len() > 0 {
        let x = b[0];
        let t = percent_of(b.drop_first());
        lemma_percent_decodes_back(b.drop_first());
        let s = percent_of(b);
        if unreserved(x) {
            assert(s =~= seq![x as char] + t);
            assert(s.drop_first() =~= t);
            let c = seq![x as char];
            assert(is_ascii_chars(c));
            is_ascii_chars_encode_utf8(c);
            assert(encode_utf8(c) =~= seq![x]);
            assert(seq![x] + b.drop_first() =~= b);
        } else {
            let h1 = hex_digit(x / 16);
            let h2 = hex_digit(x % 16);
            lemma_hex_digit(x / 16);
            lemma_hex_digit(x % 16);
            lemma_hex_round_trip(x / 16);
            lemma_hex_round_trip(x % 16);
            assert(s =~= seq!['%', h1, h2] + t);
            assert(s[1] == h1 && s[2] == h2);
            assert(s.skip(3) =~= t);
            assert((hex_value(h1) * 16 + hex_value(h2)) as u8 == x);
            assert(seq![x] + b.drop_first() =~= b);
        }
    }
}

proof fn lemma_percent_well_escaped(b: Seq<u8>)
    ensures
        well_escaped(percent_of(b)),
    decreases b.len(),
{
    if b.len() > 0 {
        let x = b[0];
        let t = percent_of(b.drop_first());
        lemma_percent_well_escaped(b.drop_first());
        let s = percent_of(b);
        if unreserved(x) {
            assert(s =~= seq![x as char] + t);
            assert(s.drop_first() =~= t);
            assert(s[0] != '%');
        } else {
            let h1 = hex_digit(x / 16);
            let h2 = hex_digit(x % 16);
            lemma_hex_digit(x / 16);
            lemma_hex_digit(x % 16);
            assert(s =~= seq!['%', h1, h2] + t);
            let s1 = s.drop_first();
            let s2 = s1.drop_first();
            assert(s1[0] == h1);
            assert(s2[0] == h2);
            assert(s2.drop_first() =~= t);
            assert(escapes_ok(s2, 1));
            assert(escapes_ok(s1, 2));
        }
    }
}

proof fn lemma_round_trip(m: MimeView, data: Seq<u8>, charset: DataurlCharset)
    requires
        media_type_of(m.0) == Some(m),
        !m.0.contains(';'),
        charset == DataurlCharset::Base64 ==> base64_decoded(base64_of(data)) == Some(data),
    ensures
        dataurl_parse(dataurl_text(m, data, charset)) == Ok::<DataurlView, MimeError>(
            (m, data, charset),
        ),
{
    reveal_strlit("data:");
    reveal_strlit(";charset=utf-8,");
    reveal_strlit(";base64,");
    reveal_strlit("charset=utf-8");
    reveal_strlit("base64");
    reveal_strlit("utf-8");
    lemma_percent_well_escaped(data);
    lemma_percent_decodes_back(data);
    let p = "data:"@;
    let (tok, payload) = match charset {
        DataurlCharset::Utf8 => ("charset=utf-8"@, percent_of(data)),
        DataurlCharset::Base64 => ("base64"@, base64_of(data)),
    };
    let s = dataurl_text(m, data, charset);
    let rest = m.0 + seq![';'] + tok + seq![','] + payload;
    assert(s =~= p + rest);
    assert(s.subrange(0, p.len() as int) =~= p);
    assert(s.skip(p.len() as int) =~= rest);
    let k = m.0.len() as int;
    assert forall|j: int| 0 <= j < k implies rest[j] != ';' by {
        assert(rest[j] == m.0[j]);
    }
    lemma_split_once_at(rest, ';', k);
    let after = tok + seq![','] + payload;
    assert(rest.take(k) =~= m.0);
    assert(rest.skip(k + 1) =~= after);
    lemma_split_once_at(after, ',', tok.len() as int);
    assert(after.take(tok.len() as int) =~= tok);
    assert(after.skip(tok.len() as int + 1) =~= payload);
}

impl Dataurl {
    /// Pairs a media type with a payload, classified by the policy.
    pub fn new(mime: Mime, data: Vec<u8>) -> (r: Dataurl)
        ensures
            r@ == (mime@, data@, charset_for(texture_policy(mime@, data@))),
    {
        let charset = DataurlCharset::from(texture_of(&mime, data.as_slice()));
        Dataurl { mime, data, charset }
    }

    /// Pairs a payload with the media type that its magic bytes give,
    /// classified by the policy.
    pub fn from_data(data: Vec<u8>) -> (r: Result<Dataurl, MimeError>)
        ensures
            match r {
                Ok(d) => content_guess(data@) == Ok::<MimeView, MimeError>(d@.0) && d@.1 == data@
                    && d@.2 == charset_for(texture_policy(d@.0, data@)),
                Err(e) => content_guess(data@) == Err::<MimeView, MimeError>(e),
            },
    {
        let mime = match mime_type_by_content(data.as_slice()) {
            Ok(m) => m,
            Err(e) => return Err(e),
        };
        Ok(Dataurl::new(mime, data))
    }

    /// The media type.
    pub fn mime(&self) -> (r: &Mime)
        ensures
            r@ == self@.0,
    {
        &self.mime
    }

    /// The payload.
    pub fn data(&self) -> (r: &[u8])
        ensures
            r@ == self@.1,
    {
        self.data.as_slice()
    }

    /// The payload encoding.
    pub fn charset(&self) -> (r: DataurlCharset)
        ensures
            r == self@.2,
    {
        self.charset
    }

    /// `true` when the payload is encoded as text.
    pub fn is_texture(&self) -> (r: bool)
        ensures
            r == (self@.2 == DataurlCharset::Utf8),
    {
        self.charset.to_texture_bool()
    }

    /// The text of this `data:` URL. Decoding it gives this value back
    /// whenever the media type carries no parameters.
    pub fn to_string(&self) -> (r: String)
        ensures
            r@ == dataurl_text(self@.0, self@.1, self@.2),
            !self@.0.0.contains(';') ==> dataurl_parse(r@) == Ok::<DataurlView, MimeError>(
                self@,
            ),
    {
        proof {
            use_type_invariant(&self.mime);
        }
        let mut s = String::from_str("data:");
        s.append(self.mime.as_str());
        let payload = if self.is_texture() {
            s.append(";charset=utf-8,");
            percent_encode(self.data.as_slice())
        } else {
            s.append(";base64,");
            base64_encode(self.data.as_slice())
        };
        s.append(payload.as_str());
        proof {
            if !self.mime@.0.contains(';') {
                lemma_round_trip(self.mime@, self.data@, self.charset);
            }
        }
        s
    }

    /// Decodes a `data:` URL. The encoding is the one the URL declares.
    pub fn from_str(s: &str) -> (r: Result<Dataurl, MimeError>)
        ensures
            match r {
                Ok(d) => dataurl_parse(s@) == Ok::<DataurlView, MimeError>(d@),
                Err(e) => dataurl_parse(s@) == Err::<DataurlView, MimeError>(e),
            },
    {
        proof {
            reveal_strlit("data:");
        }
        let n = s.unicode_len();
        if n < 5 || !str_eq(s.substring_char(0, 5), "data:") {
            return Err(MimeError::MalformedDataurl);
        }
        let ghost rest = s@.skip(5);
        let semi = match find_char(s, n, 5, ';') {
            Some(k) => k,
            None => {
                proof {
                    lemma_split_once_none(rest, ';');
                }
                return Err(MimeError::MalformedDataurl);
            },
        };
        proof {
            lemma_split_once_at(rest, ';', semi - 5);
        }
        let ghost after = rest.skip(semi - 5 + 1);
        assert(after =~= s@.skip(semi + 1));
        let comma = match find_char(s, n, semi + 1, ',') {
            Some(k) => k,
            None => {
                proof {
                    lemma_split_once_none(after, ',');
                }
                return Err(MimeError::MalformedDataurl);
            },
        };
        proof {
            lemma_split_once_at(after, ',', comma - semi - 1);
        }
        let type_text = s.substring_char(5, semi);
        let token = s.substring_char(semi + 1, comma);
        let payload = s.substring_char(comma + 1, n);
        assert(type_text@ =~= rest.take(semi - 5));
        assert(token@ =~= after.take(comma - semi - 1));
        assert(payload@ =~= after.skip(comma - semi - 1 + 1));
        let mime = match parse_media_type(type_text) {
            Ok(m) => m,
            Err(_) => return Err(MimeError::InvalidTypeGrammar),
        };
        let charset = if str_eq(token, "charset=utf-8") {
            DataurlCharset::Utf8
        } else {
            match DataurlCharset::from_str(token) {
                Ok(c) => c,
                Err(e) => return Err(e),
            }
        };
        let data = match charset {
            DataurlCharset::Utf8 => {
                if !check_escapes(payload) {
                    return Err(MimeError::InvalidPercentEncoding);
                }
                percent_decode(payload)
            },
            DataurlCharset::Base64 => match base64_decode(payload) {
                Ok(d) => d,
                Err(_) => return Err(MimeError::InvalidBase64),
            },
        };
        Ok(Dataurl { mime, data, charset })
    }
}

} // verus!
