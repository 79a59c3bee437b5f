//! Capability tokens of the loopback media stream: 32 random bytes written
//! as 64 lowercase hexadecimal digits.
use vstd::prelude::*;
use crate::text::{chars_of, string_from_chars};

verus! {

/// Number of random bytes in a stream token.
pub const TOKEN_BYTES: usize = 32;

/// Number of hexadecimal characters in an encoded stream token.
pub const TOKEN_HEX_BYTES: usize = 64;

/// Value of one lowercase hexadecimal digit, if `byte` is one.
pub open spec fn spec_hex_nibble(byte: u8) -> Option<u8> {
    if 48 <= byte <= 57 {
        Some((byte - 48) as u8)
    } else if 97 <= byte <= 102 {
        Some((byte - 97 + 10) as u8)
    } else {
        None
    }
}

/// Lowercase hexadecimal digit for a value below 16.
pub open spec fn spec_hex_char(value: u8) -> char {
    if value < 10 {
        (value + 48) as char
    } else {
        (value - 10 + 97) as char
    }
}

/// Lowercase hexadecimal text of `raw`, high nibble first.
pub open spec fn spec_encode_token(raw: Seq<u8>) -> Seq<char> {
    Seq::new(
        2 * raw.len(),
        |i: int|
            if i % 2 == 0 {
                spec_hex_char(raw[i / 2] / 16)
            } else {
                spec_hex_char(raw[i / 2] % 16)
            },
    )
}

/// Value of `c` as a lowercase hexadecimal digit.
pub open spec fn spec_char_nibble(c: char) -> Option<u8> {
    if '0' <= c <= '9' {
        Some((c as u32 - 48) as u8)
    } else if 'a' <= c <= 'f' {
        Some((c as u32 - 97 + 10) as u8)
    } else {
        None
    }
}

/// `text` is exactly 64 lowercase hexadecimal digits.
pub open spec fn is_token_text(text: Seq<char>) -> bool {
    &&& text.len() == TOKEN_HEX_BYTES
    &&& forall|i: int| 0 <= i < text.len() ==> (#[trigger] spec_char_nibble(text[i])) is Some
}

/// The bytes a token text stands for.
pub open spec fn spec_token_bytes(text: Seq<char>) -> Seq<u8> {
    Seq::new(
        TOKEN_BYTES as nat,
        |i: int|
            (spec_char_nibble(text[2 * i])->0 * 16 + spec_char_nibble(text[2 * i + 1])->0) as u8,
    )
}

pub fn hex_nibble(byte: u8) -> (result: Option<u8>)
    ensures
        result == spec_hex_nibble(byte),
{
    if 48 <= byte && byte <= 57 {
        Some(byte - 48)
    } else if 97 <= byte && byte <= 102 {
        Some(byte - 97 + 10)
    } else {
        None
    }
}

fn hex_char(value: u8) -> (result: char)
    requires
        value < 16,
    ensures
        result == spec_hex_char(value),
{
    if value < 10 {
        (value + 48) as char
    } else {
        (value - 10 + 97) as char
    }
}

fn char_nibble(c: char) -> (result: Option<u8>)
    ensures
        result == spec_char_nibble(c),
{
    if '0' <= c && c <= '9' {
        Some((c as u32 - 48) as u8)
    } else if 'a' <= c && c <= 'f' {
        Some((c as u32 - 97 + 10) as u8)
    } else {
        None
    }
}

/// Appends the lowercase hexadecimal text of `bytes`.
pub(crate) fn push_hex(out: &mut Vec<char>, bytes: &[u8])
    ensures
        final(out)@ == old(out)@ + spec_encode_token(bytes@),
{
    let ghost start = out@;
    let mut index: usize = 0;
    while index < bytes.len()
        invariant
            index <= bytes@.len(),
            out@.len() == start.len() + 2 * index,
            forall|j: int| 0 <= j < start.len() ==> out@[j] == start[j],
            forall|j: int|
                0 <= j < 2 * index ==> out@[start.len() + j] == #[trigger] spec_encode_token(
                    bytes@,
                )[j],
        decreases bytes@.len() - index,
    {
        let byte = bytes[index];
        out.push(hex_char(byte / 16));
        out.push(hex_char(byte % 16));
        index = index + 1;
    }
    assert(out@ =~= start + spec_encode_token(bytes@)) by {
        assert forall|j: int| 0 <= j < out@.len() implies out@[j] == (start + spec_encode_token(
            bytes@,
        ))[j] by {
            if j >= start.len() {
                assert(out@[start.len() + (j - start.len())] == spec_encode_token(bytes@)[j
                    - start.len()]);
            }
        }
    }
}

/// Writes a token as 64 lowercase hexadecimal digits.
pub fn encode_token(raw: &[u8; 32]) -> (result: String)
    ensures
        result@ == spec_encode_token(raw@),
        result@.len() == TOKEN_HEX_BYTES,
{
    let mut output: Vec<char> = Vec::new();
    let mut index: usize = 0;
    while index < TOKEN_BYTES
        invariant
            index <= TOKEN_BYTES,
            output@.len() == 2 * index,
            forall|j: int| 0 <= j < 2 * index ==> output@[j] == #[trigger] spec_encode_token(raw@)[j],
        decreases TOKEN_BYTES - index,
    {
        let byte = raw[index];
        output.push(hex_char(byte / 16));
        output.push(hex_char(byte % 16));
        index = index + 1;
    }
    let result = string_from_chars(output.as_slice());
    assert(result@ =~= spec_encode_token(raw@));
    result
}

/// Reads a token back from its text; `None` unless the text is exactly 64
/// lowercase hexadecimal digits.
pub fn decode_token(value: &str) -> (result: Option<[u8; 32]>)
    ensures
        result is Some <==> is_token_text(value@),
        result matches Some(bytes) ==> bytes@ == spec_token_bytes(value@),
{
    let text = chars_of(value);
    if text.len() != TOKEN_HEX_BYTES {
        return None;
    }
    let mut output = [0u8; 32];
    let mut index: usize = 0;
    while index < TOKEN_BYTES
        invariant
            index <= TOKEN_BYTES,
            text@ == value@,
            text@.len() == TOKEN_HEX_BYTES,
            forall|j: int| 0 <= j < 2 * index ==> (#[trigger] spec_char_nibble(text@[j])) is Some,
            forall|j: int| 0 <= j < index ==> output@[j] == #[trigger] spec_token_bytes(text@)[j],
        decreases TOKEN_BYTES - index,
    {
        let high = char_nibble(text[2 * index]);
        let low = char_nibble(text[2 * index + 1]);
        match (high, low) {
            (Some(high), Some(low)) => {
                output[index] = high * 16 + low;
            },
            _ => {
                return None;
            },
        }
        index = index + 1;
    }
    assert(output@ =~= spec_token_bytes(value@));
    Some(output)
}

/// Every character of an encoded byte string is a lowercase hexadecimal digit.
pub proof fn lemma_encoded_is_hex(raw: Seq<u8>)
    ensures
        forall|i: int|
            0 <= i < spec_encode_token(raw).len() ==> (#[trigger] spec_char_nibble(
                spec_encode_token(raw)[i],
            )) is Some,
{
    let text = spec_encode_token(raw);
    assert forall|i: int| 0 <= i < text.len() implies (#[trigger] spec_char_nibble(text[i])) is Some by {
        let b = raw[i / 2];
        assert(b / 16 < 16 && b % 16 < 16);
    }
}

/// Decoding the text of a token gives the token back.
pub proof fn lemma_token_round_trip(raw: Seq<u8>)
    requires
        raw.len() == TOKEN_BYTES,
    ensures
        is_token_text(spec_encode_token(raw)),
        spec_token_bytes(spec_encode_token(raw)) == raw,
{
    let text = spec_encode_token(raw);
    assert forall|i: int| 0 <= i < text.len() implies (#[trigger] spec_char_nibble(text[i])) is Some by {
        let b = raw[i / 2];
        assert(b / 16 < 16 && b % 16 < 16);
    }
    assert forall|i: int| 0 <= i < TOKEN_BYTES implies #[trigger] spec_token_bytes(text)[i] == raw[i] by {
        let b = raw[i];
        assert(text[2 * i] == spec_hex_char(b / 16));
        assert(text[2 * i + 1] == spec_hex_char(b % 16));
        assert(spec_char_nibble(spec_hex_char(b / 16)) == Some(b / 16));
        assert(spec_char_nibble(spec_hex_char(b % 16)) == Some(b % 16));
    }
    assert(spec_token_bytes(text) =~= raw);
}

} // verus!
