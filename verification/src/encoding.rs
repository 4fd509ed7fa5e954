//! Base64 text forms: the URL-safe, unpadded form that names an object, and
//! the standard form that carries a session token.
//!
//! The encodings themselves are the `base64` crate's. This module names
//! their results and states the few facts about them that the stores rely on.

use vstd::prelude::*;

verus! {

/// `base64::DecodeError`, what the decoder found wrong. Nothing is seen
/// inside it.
#[verifier::external_type_specification]
#[verifier::external_body]
pub struct ExDecodeError(base64::DecodeError);

/// `core::str::Utf8Error`, why bytes are no UTF-8 text. Nothing is seen
/// inside it.
#[verifier::external_type_specification]
#[verifier::external_body]
pub struct ExUtf8Error(core::str::Utf8Error);

/// The URL-safe base64 text of `bytes`, without padding.
pub uninterp spec fn base64_url_unpadded(bytes: Seq<u8>) -> Seq<char>;

/// The standard base64 text of `bytes`, with padding.
pub uninterp spec fn base64_standard(bytes: Seq<u8>) -> Seq<char>;

/// The bytes that `text` stands for in standard base64, if it is well
/// formed.
pub uninterp spec fn base64_standard_decoded(text: Seq<char>) -> Option<Seq<u8>>;

/// Number of characters of the unpadded base64 text of `n` bytes: four for
/// every three bytes, then two for one byte left over, three for two.
pub open spec fn unpadded_len(n: nat) -> nat {
    let full = (n / 3) * 4;
    if n % 3 == 0 {
        full
    } else if n % 3 == 1 {
        full + 2
    } else {
        full + 3
    }
}

/// Number of characters of the padded base64 text of `n` bytes: four for
/// every three bytes, and four for what is left over.
pub open spec fn padded_len(n: nat) -> nat {
    if n % 3 == 0 {
        (n / 3) * 4
    } else {
        (n / 3) * 4 + 4
    }
}

/// The inputs that the encoders take: short enough for the text to be
/// counted in a `usize`, and to be decoded again.
pub open spec fn encodable(n: nat) -> bool {
    (n / 3) * 4 + 11 <= usize::MAX
}

/// Whether `c` is of the URL-safe alphabet: a letter, a digit, `-` or `_`.
pub open spec fn url_safe(c: char) -> bool {
    ('A' <= c <= 'Z') || ('a' <= c <= 'z') || ('0' <= c <= '9') || c == '-' || c == '_'
}

/// Whether every character of `text` is of the URL-safe alphabet.
pub open spec fn is_url_safe(text: Seq<char>) -> bool {
    forall|i: int| 0 <= i < text.len() ==> url_safe(#[trigger] text[i])
}

/// The longest text, counted in bytes, that the decoder takes: it counts
/// the chunks of eight bytes, the last one rounded up.
pub open spec fn decodable(n: nat) -> bool {
    n + 7 <= usize::MAX
}

/// `base64::encode_config` with `base64::URL_SAFE_NO_PAD`.
///
/// Trusted: the result is the named encoding of the input, its length is
/// the one that the crate computes for an unpadded text, and each of its
/// characters is of the URL-safe alphabet. The crate panics when that
/// length overflows, which `requires` rules out.
#[verifier::external_body]
pub(crate) fn encode_url_unpadded(bytes: &[u8]) -> (text: String)
    requires
        encodable(bytes@.len()),
    ensures
        text@ == base64_url_unpadded(bytes@),
        text@.len() == unpadded_len(bytes@.len()),
        is_url_safe(text@),
{
    base64::encode_config(bytes, base64::URL_SAFE_NO_PAD)
}

/// `base64::encode`.
///
/// Trusted: the result is the named standard encoding of the input, made
/// of ASCII characters and of the length that the crate computes for a
/// padded text, and decoding it gives the input back.
#[verifier::external_body]
pub(crate) fn encode_standard(bytes: &[u8]) -> (text: String)
    requires
        encodable(bytes@.len()),
    ensures
        text@ == base64_standard(bytes@),
        text@.len() == padded_len(bytes@.len()),
        vstd::utf8::is_ascii_chars(text@),
        base64_standard_decoded(text@) == Some(bytes@),
{
    base64::encode(bytes)
}

/// `base64::decode`.
///
/// Trusted: the call succeeds exactly on well-formed text, and then
/// returns the bytes that the text stands for.
#[verifier::external_body]
pub(crate) fn decode_standard(text: &str) -> (decoded: Result<Vec<u8>, base64::DecodeError>)
    requires
        decodable(vstd::utf8::encode_utf8(text@).len()),
    ensures
        match decoded {
            Ok(bytes) => base64_standard_decoded(text@) == Some(bytes@),
            Err(_) => base64_standard_decoded(text@) is None,
        },
{
    base64::decode(text)
}

/// `core::str::from_utf8`.
///
/// Trusted: the call succeeds exactly on valid UTF-8, and then returns the
/// text that the bytes encode.
#[verifier::external_body]
pub(crate) fn utf8_text(bytes: &[u8]) -> (text: Result<&str, core::str::Utf8Error>)
    ensures
        match text {
            Ok(s) => vstd::utf8::valid_utf8(bytes@) && s@ == vstd::utf8::decode_utf8(bytes@),
            Err(_) => !vstd::utf8::valid_utf8(bytes@),
        },
{
    core::str::from_utf8(bytes)
}

/// What the decoder has to say about a malformed text: the error as its
/// `Display` writes it.
pub(crate) fn describe_decode_error(e: &base64::DecodeError) -> (message: String)
    ensures
        vstd::string::to_string_from_display_ensures::<base64::DecodeError>(e, message),
{
    e.to_string()
}

} // verus!
