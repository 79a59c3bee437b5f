//! Text encodings of binary values: Base64 (standard with padding, and
//! URL-safe without padding) from the `base64` crate and Base32 without
//! padding from the `data-encoding` crate. What each gives back is a
//! function of its input alone; each has a name below.
use vstd::prelude::*;
use base64::Engine;

verus! {

/// Standard Base64 with padding (`base64::engine::general_purpose::STANDARD`).
pub uninterp spec fn base64_standard_encode(data: Seq<u8>) -> Seq<char>;

/// Decoding under `STANDARD`; `None` when the text is not canonical
/// padded Base64.
pub uninterp spec fn base64_standard_decode(text: Seq<u8>) -> Option<Seq<u8>>;

/// URL-safe Base64 without padding (`URL_SAFE_NO_PAD`).
pub uninterp spec fn base64_url_encode(data: Seq<u8>) -> Seq<char>;

/// Decoding under `URL_SAFE_NO_PAD`.
pub uninterp spec fn base64_url_decode(text: Seq<u8>) -> Option<Seq<u8>>;

/// Decoding under `data_encoding::BASE32_NOPAD` (RFC 4648 alphabet,
/// upper case, no padding).
pub uninterp spec fn base32_nopad_decode(text: Seq<u8>) -> Option<Seq<u8>>;

/// A character of the URL-safe Base64 alphabet: an ASCII letter or
/// digit, `-` or `_`.
pub open spec fn is_url_safe_char(c: char) -> bool {
    ('A' <= c <= 'Z') || ('a' <= c <= 'z') || ('0' <= c <= '9') || c == '-' || c == '_'
}

/// `STANDARD.encode`; decoding its UTF-8 bytes under `STANDARD` gives the
/// data back. The text is ASCII of `encoded_len(n, true)` bytes: four for
/// every three bytes of data or part of three.
#[verifier::external_body]
pub(crate) fn standard_encode(data: &[u8]) -> (result: String)
    ensures
        result@ == base64_standard_encode(data@),
        vstd::utf8::encode_utf8(result@).len() == 4 * ((data@.len() + 2) / 3),
        base64_standard_decode(vstd::utf8::encode_utf8(result@)) == Some(data@),
{
    base64::engine::general_purpose::STANDARD.encode(data)
}

/// `STANDARD.decode`; `None` on any decoding error.
#[verifier::external_body]
pub(crate) fn standard_decode(text: &[u8]) -> (result: Option<Vec<u8>>)
    ensures
        result matches Some(v) ==> base64_standard_decode(text@) == Some(v@),
        result is None ==> base64_standard_decode(text@) is None,
{
    base64::engine::general_purpose::STANDARD.decode(text).ok()
}

/// `URL_SAFE_NO_PAD.encode`: its text is of the URL-safe alphabet, it is
/// not empty for data that is not, and decoding its UTF-8 bytes under
/// `URL_SAFE_NO_PAD` gives the data back. It is ASCII of
/// `encoded_len(n, false)` bytes: four for every three bytes of data, then
/// two or three for a last one or two.
#[verifier::external_body]
pub(crate) fn url_encode(data: &[u8]) -> (result: String)
    ensures
        vstd::utf8::encode_utf8(result@).len() == 4 * (data@.len() / 3) + (if data@.len() % 3 == 0 {
            0int
        } else {
            (data@.len() % 3 + 1) as int
        }),
        result@ == base64_url_encode(data@),
        base64_url_decode(vstd::utf8::encode_utf8(result@)) == Some(data@),
        forall|i: int| 0 <= i < result@.len() ==> is_url_safe_char(#[trigger] result@[i]),
        data@.len() > 0 ==> result@.len() > 0,
{
    base64::engine::general_purpose::URL_SAFE_NO_PAD.encode(data)
}

/// `URL_SAFE_NO_PAD.decode`; `None` on any decoding error.
#[verifier::external_body]
pub(crate) fn url_decode(text: &[u8]) -> (result: Option<Vec<u8>>)
    ensures
        result matches Some(v) ==> base64_url_decode(text@) == Some(v@),
        result is None ==> base64_url_decode(text@) is None,
{
    base64::engine::general_purpose::URL_SAFE_NO_PAD.decode(text).ok()
}

/// `data_encoding::BASE32_NOPAD.decode`; `None` on any decoding error.
#[verifier::external_body]
pub(crate) fn base32_decode(text: &[u8]) -> (result: Option<Vec<u8>>)
    ensures
        result matches Some(v) ==> base32_nopad_decode(text@) == Some(v@),
        result is None ==> base32_nopad_decode(text@) is None,
{
    data_encoding::BASE32_NOPAD.decode(text).ok()
}

/// The bytes a pagination cursor's text stands for: URL-safe Base64
/// without padding; `None` when the text is not that.
pub fn decode_cursor_bytes(text: &str) -> (result: Option<Vec<u8>>)
    ensures
        match base64_url_decode(vstd::utf8::encode_utf8(text@)) {
            Some(b) => result matches Some(v) && v@ == b,
            None => result is None,
        },
{
    url_decode(text.as_bytes())
}

/// The text of a pagination cursor holding `bytes`; reading it back gives
/// the bytes.
pub fn encode_cursor_bytes(bytes: &[u8]) -> (result: String)
    ensures
        result@ == base64_url_encode(bytes@),
        base64_url_decode(vstd::utf8::encode_utf8(result@)) == Some(bytes@),
{
    url_encode(bytes)
}

} // verus!
