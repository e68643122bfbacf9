//! Deciding whether a buffer is text ("texture") or binary.

use vstd::prelude::*;
use vstd::utf8::*;
use crate::media::{str_eq, Mime, MimeView};

verus! {

broadcast use utf8_byte_ranges_bitwise;

/// Relies on `std::str::from_utf8`: it succeeds exactly on well-formed UTF-8.
#[verifier::external_body]
fn utf8_accepts(data: &[u8]) -> (r: bool)
    ensures
        r == valid_utf8(data@),
{
    std::str::from_utf8(data).is_ok()
}

/// The bytes after the first (possibly ill-formed) sequence of `bytes`.
pub open spec fn after_first(bytes: Seq<u8>) -> Seq<u8> {
    bytes.subrange(length_of_first_codepoint(bytes), bytes.len() as int)
}

/// The relaxed reading of the bounded validator: every sequence that starts
/// before `limit` has a lead byte of one of the four UTF-8 bit patterns,
/// followed, inside the buffer, by as many `10xxxxxx` bytes as the lead asks
/// for. Overlong forms, surrogates and lead bytes up to `0xF7` pass.
pub open spec fn relaxed_utf8(bytes: Seq<u8>, limit: int) -> bool
    decreases bytes.len(),
{
    if bytes.len() > 0 && limit > 0 {
        valid_leading_and_continuation_bytes_first_codepoint(bytes)
            && relaxed_utf8(after_first(bytes), limit - length_of_first_codepoint(bytes))
    } else {
        true
    }
}

/// How many leading bytes the bounded validator looks at: a negative length
/// asks for the whole buffer.
pub open spec fn scan_limit(min_infer_length: i32, len: nat) -> int {
    if min_infer_length < 0 {
        len as int
    } else {
        min_infer_length as int
    }
}

/// True when, in the relaxed reading of `bytes`, every sequence is also a
/// well-formed UTF-8 scalar (no overlong form, surrogate or value past
/// `U+10FFFF`).
pub open spec fn no_lax_sequence(bytes: Seq<u8>) -> bool
    decreases bytes.len(),
{
    if bytes.len() > 0 && valid_leading_and_continuation_bytes_first_codepoint(bytes) {
        valid_first_scalar(bytes) && no_lax_sequence(after_first(bytes))
    } else {
        true
    }
}

/// Checks the whole buffer as strict UTF-8.
pub fn is_texture_std(data: &[u8]) -> (r: bool)
    ensures
        r == valid_utf8(data@),
{
    utf8_accepts(data)
}

/// Checks at most `min_infer_length` leading bytes with a byte-class state
/// machine (all of them when the length is negative). A sequence that starts
/// inside that window must be complete inside the buffer.
pub fn is_texture_manual(data: &[u8], min_infer_length: i32) -> (r: bool)
    ensures
        r == relaxed_utf8(data@, scan_limit(min_infer_length, data@.len())),
{
    let len = data.len();
    let limit: usize = if min_infer_length < 0 || min_infer_length as usize >= len {
        len
    } else {
        min_infer_length as usize
    };
    let ghost lim = scan_limit(min_infer_length, data@.len());
    let mut i: usize = 0;
    assert(data@.subrange(0, len as int) =~= data@);
    while i < limit
        invariant
            len == data@.len(),
            lim == scan_limit(min_infer_length, data@.len()),
            limit <= len,
            limit == len || limit == lim,
            lim >= limit,
            i <= len,
            relaxed_utf8(data@, lim) == relaxed_utf8(data@.subrange(i as int, len as int), lim - i),
        decreases len - i,
    {
        let ghost rest = data@.subrange(i as int, len as int);
        let byte = data[i];
        proof {
            utf8_byte_ranges_bitwise(byte);
            if i + 1 < len {
                utf8_byte_ranges_bitwise(data@[i + 1]);
            }
            if i + 2 < len {
                utf8_byte_ranges_bitwise(data@[i + 2]);
            }
            if i + 3 < len {
                utf8_byte_ranges_bitwise(data@[i + 3]);
            }
        }
        assert(rest[0] == byte && rest.len() == len - i);
        assert(relaxed_utf8(rest, lim - i) == (valid_leading_and_continuation_bytes_first_codepoint(
            rest,
        ) && relaxed_utf8(after_first(rest), lim - i - length_of_first_codepoint(rest))));
        if byte & 0x80 == 0 {
            assert(after_first(rest) =~= data@.subrange(i + 1, len as int));
            i += 1;
        } else if byte & 0xe0 == 0xc0 {
            if i + 1 >= len || data[i + 1] & 0xc0 != 0x80 {
                assert(i + 1 < len ==> rest[1] == data@[i + 1]);
                return false;
            }
            assert(rest[1] == data@[i + 1]);
            assert(after_first(rest) =~= data@.subrange(i + 2, len as int));
            i += 2;
        } else if byte & 0xf0 == 0xe0 {
            if len - i <= 2 || data[i + 1] & 0xc0 != 0x80 || data[i + 2] & 0xc0 != 0x80 {
                assert(i + 2 < len ==> rest[1] == data@[i + 1] && rest[2] == data@[i + 2]);
                return false;
            }
            assert(rest[1] == data@[i + 1] && rest[2] == data@[i + 2]);
            assert(after_first(rest) =~= data@.subrange(i + 3, len as int));
            i += 3;
        } else if byte & 0xf8 == 0xf0 {
            if len - i <= 3 || data[i + 1] & 0xc0 != 0x80 || data[i + 2] & 0xc0 != 0x80
                || data[i + 3] & 0xc0 != 0x80 {
                assert(i + 3 < len ==> rest[1] == data@[i + 1] && rest[2] == data@[i + 2] && rest[3]
                    == data@[i + 3]);
                return false;
            }
            assert(rest[1] == data@[i + 1] && rest[2] == data@[i + 2] && rest[3] == data@[i + 3]);
            assert(after_first(rest) =~= data@.subrange(i + 4, len as int));
            i += 4;
        } else {
            return false;
        }
    }
    true
}

proof fn lemma_relaxed_strict(bytes: Seq<u8>, limit: int)
    requires
        bytes.len() <= limit,
        relaxed_utf8(bytes, limit) ==> no_lax_sequence(bytes),
    ensures
        relaxed_utf8(bytes, limit) == valid_utf8(bytes),
    decreases bytes.len(),
{
    if bytes.len() > 0 && valid_leading_and_continuation_bytes_first_codepoint(bytes) {
        let n = length_of_first_codepoint(bytes);
        assert(pop_first_scalar(bytes) == after_first(bytes));
        lemma_relaxed_strict(after_first(bytes), limit - n);
    }
}

/// On a buffer that fits in the window, the bounded validator and strict UTF-8
/// validation give the same answer, except on buffers whose relaxed reading
/// accepts a sequence that strict UTF-8 refuses (an overlong form, a
/// surrogate, or a value past `U+10FFFF`).
pub proof fn lemma_validators_agree(data: Seq<u8>, min_infer_length: i32)
    requires
        data.len() <= scan_limit(min_infer_length, data.len()),
        relaxed_utf8(data, scan_limit(min_infer_length, data.len())) ==> no_lax_sequence(data),
    ensures
        relaxed_utf8(data, scan_limit(min_infer_length, data.len())) == valid_utf8(data),
{
    lemma_relaxed_strict(data, scan_limit(min_infer_length, data.len()));
}

/// Strict UTF-8 is never refused by the bounded validator.
pub proof fn lemma_strict_passes_relaxed(data: Seq<u8>, limit: int)
    requires
        valid_utf8(data),
    ensures
        relaxed_utf8(data, limit),
    decreases data.len(),
{
    if data.len() > 0 && limit > 0 {
        assert(pop_first_scalar(data) == after_first(data));
        lemma_strict_passes_relaxed(after_first(data), limit - length_of_first_codepoint(data));
    }
}

/// A window that starts with a byte of none of the four lead patterns
/// (`10xxxxxx`, or `0xF8` and above) is refused at once.
pub proof fn lemma_bad_lead_rejected(data: Seq<u8>, limit: int)
    requires
        data.len() > 0,
        limit > 0,
        !(data[0] <= 0x7f || 0xc0 <= data[0] <= 0xf7),
    ensures
        !relaxed_utf8(data, limit),
{
}

/// A multi-byte sequence cut short by the end of the buffer is refused.
pub proof fn lemma_truncated_sequence_rejected(data: Seq<u8>, limit: int)
    requires
        limit > 0,
        data.len() > 0,
        (is_leading_byte_width_2(data[0]) && data.len() < 2) || (is_leading_byte_width_3(data[0])
            && data.len() < 3) || (is_leading_byte_width_4(data[0]) && data.len() < 4),
    ensures
        !relaxed_utf8(data, limit),
{
}


/// True when a media type is text by its name: type `text`, or subtype
/// `json`, `svg` or `xml`.
pub open spec fn texture_type(m: MimeView) -> bool {
    m.1 == "text"@ || m.2 == "json"@ || m.2 == "svg"@ || m.2 == "xml"@
}

/// The classification policy: an empty buffer, a textual media type, or a
/// buffer of strict UTF-8 is text.
pub open spec fn texture_policy(m: MimeView, data: Seq<u8>) -> bool {
    data.len() == 0 || texture_type(m) || valid_utf8(data)
}

/// Classifies a media type by its name alone.
pub fn is_texture_mime(mime: &Mime) -> (r: bool)
    ensures
        r == texture_type(mime@),
{
    str_eq(mime.type_(), "text") || str_eq(mime.subtype(), "json") || str_eq(mime.subtype(), "svg")
        || str_eq(mime.subtype(), "xml")
}

/// Classifies a buffer of the given media type by the policy.
pub fn texture_of(mime: &Mime, data: &[u8]) -> (r: bool)
    ensures
        r == texture_policy(mime@, data@),
{
    if data.len() == 0 {
        true
    } else if is_texture_mime(mime) {
        true
    } else {
        is_texture_std(data)
    }
}

/// A zero-length buffer is text, whatever its media type.
pub proof fn lemma_empty_is_text(m: MimeView, data: Seq<u8>)
    requires
        data.len() == 0,
    ensures
        texture_policy(m, data),
{
}

} // verus!
