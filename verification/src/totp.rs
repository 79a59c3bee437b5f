//! Time-based one-time passwords (RFC 6238 with HMAC-SHA-1, 30-second
//! steps, 6 digits) from Base32 secrets as authenticator apps show them.
use vstd::prelude::*;
use vstd::utf8::encode_utf8;
use crate::bytes::{be64, push_be64};
use crate::crypto::{hmac_sha1, hmac_sha1_tag};
use crate::encoding::{base32_decode, base32_nopad_decode};
use crate::error::{VaultError, invalid_input};
use crate::text::{chars_of, string_from_chars, is_unicode_whitespace, is_whitespace};

verus! {

/// Seconds in one TOTP step.
pub const PERIOD: u64 = 30;

/// Longest secret text accepted, in bytes.
pub const MAX_SECRET_TEXT_BYTES: usize = 1024;

/// A one-time code and the seconds for which it stays valid.
#[derive(Debug)]
pub struct TotpCode {
    pub code: String,
    pub remaining_seconds: u64,
}

/// What `char::to_uppercase` yields for `c`: its full Unicode uppercase
/// mapping, one or more characters.
pub uninterp spec fn char_uppercase(c: char) -> Seq<char>;

/// The characters of `c.to_uppercase()` (std `char::to_uppercase`).
///
/// Trusted: the result is the standard library's mapping for `c`, by the
/// name `char_uppercase`; the mapping itself is not stated.
#[verifier::external_body]
fn uppercase_of(c: char) -> (result: Vec<char>)
    ensures
        result@ == char_uppercase(c),
{
    c.to_uppercase().collect()
}

/// A secret character that survives normalisation: not white space, `-`
/// or `=`.
pub open spec fn secret_char_kept(c: char) -> bool {
    !is_unicode_whitespace(c) && c != '-' && c != '='
}

/// The secret text as it is decoded: separators and padding dropped, the
/// rest in upper case.
pub open spec fn spec_normalize_secret(s: Seq<char>) -> Seq<char>
    decreases s.len(),
{
    if s.len() == 0 {
        Seq::empty()
    } else if secret_char_kept(s.last()) {
        spec_normalize_secret(s.drop_last()) + char_uppercase(s.last())
    } else {
        spec_normalize_secret(s.drop_last())
    }
}

/// The key bytes of a secret text, or the detail of the error refusing it.
pub open spec fn spec_decode_secret(secret: Seq<char>) -> Result<Seq<u8>, Seq<char>> {
    let normalized = spec_normalize_secret(secret);
    if crate::text::byte_len(secret) > MAX_SECRET_TEXT_BYTES {
        Err("TOTP secret is too long"@)
    } else if normalized.len() == 0 {
        Err("TOTP secret is empty"@)
    } else {
        match base32_nopad_decode(encode_utf8(normalized)) {
            None => Err("TOTP secret is not valid Base32"@),
            Some(key) => Ok(key),
        }
    }
}

/// The error for a refused secret carries exactly the detail the spec names.
pub open spec fn refused_with(result_error: VaultError, detail: Seq<char>) -> bool {
    result_error matches VaultError::InvalidInput(d) && d@ == detail
}

/// Normalises and decodes a Base32 secret.
fn decode_secret(secret: &str) -> (result: Result<Vec<u8>, VaultError>)
    ensures
        match spec_decode_secret(secret@) {
            Ok(key) => result matches Ok(k) && k@ == key,
            Err(detail) => result matches Err(e) && refused_with(e, detail),
        },
{
    if secret.len() > MAX_SECRET_TEXT_BYTES {
        return Err(invalid_input("TOTP secret is too long"));
    }
    let chars = chars_of(secret);
    let mut normalized: Vec<char> = Vec::new();
    let mut i: usize = 0;
    while i < chars.len()
        invariant
            chars@ == secret@,
            i <= chars@.len(),
            normalized@ == spec_normalize_secret(chars@.take(i as int)),
        decreases chars@.len() - i,
    {
        let c = chars[i];
        proof {
            assert(chars@.take(i + 1).drop_last() =~= chars@.take(i as int));
            assert(chars@.take(i + 1).last() == c);
        }
        if !is_whitespace(c) && c != '-' && c != '=' {
            let upper = uppercase_of(c);
            let mut k: usize = 0;
            let ghost base = normalized@;
            while k < upper.len()
                invariant
                    k <= upper@.len(),
                    normalized@ == base + upper@.take(k as int),
                decreases upper@.len() - k,
            {
                normalized.push(upper[k]);
                proof {
                    assert(upper@.take(k + 1) =~= upper@.take(k as int).push(upper@[k as int]));
                }
                k = k + 1;
            }
            proof {
                assert(upper@.take(upper@.len() as int) =~= upper@);
            }
        }
        i = i + 1;
    }
    proof {
        assert(chars@.take(chars@.len() as int) =~= chars@);
    }
    if normalized.len() == 0 {
        return Err(invalid_input("TOTP secret is empty"));
    }
    let text = string_from_chars(normalized.as_slice());
    match base32_decode(text.as_str().as_bytes()) {
        Some(key) => Ok(key),
        None => Err(invalid_input("TOTP secret is not valid Base32")),
    }
}

/// The secret decodes to a key of 10 to 128 bytes.
pub open spec fn spec_secret_ok(secret: Seq<char>) -> bool {
    spec_decode_secret(secret) matches Ok(key) && 10 <= key.len() <= 128
}

/// Checks that a secret can be used for one-time codes.
pub fn validate_totp_secret(secret: &str) -> (result: Result<(), VaultError>)
    ensures
        result is Ok <==> spec_secret_ok(secret@),
        match spec_decode_secret(secret@) {
            Err(detail) => result matches Err(e) && refused_with(e, detail),
            Ok(key) => !(10 <= key.len() <= 128) ==> (result matches Err(e) && refused_with(
                e,
                "TOTP secret must decode to between 10 and 128 bytes"@,
            )),
        },
{
    let decoded = decode_secret(secret)?;
    if decoded.len() < 10 || decoded.len() > 128 {
        return Err(invalid_input("TOTP secret must decode to between 10 and 128 bytes"));
    }
    Ok(())
}

/// The 31-bit value RFC 4226 truncation reads from an HMAC-SHA-1 digest:
/// four bytes at the offset named by the low nibble of the last byte, the
/// top bit cleared.
pub open spec fn spec_truncate(digest: Seq<u8>) -> int {
    let offset = (digest[19] % 16) as int;
    (digest[offset] % 128) * 16777216 + digest[offset + 1] * 65536 + digest[offset + 2] * 256
        + digest[offset + 3]
}

/// `n` written with exactly six decimal digits, zeros in front.
pub open spec fn six_digits(n: int) -> Seq<char> {
    Seq::new(
        6,
        |k: int|
            ((n / (if k == 0 {
                100000
            } else if k == 1 {
                10000
            } else if k == 2 {
                1000
            } else if k == 3 {
                100
            } else if k == 4 {
                10
            } else {
                1
            })) % 10 + 48) as char,
    )
}

/// The code for `key` at Unix time `now`.
pub open spec fn spec_totp_code(key: Seq<u8>, now: u64) -> Seq<char> {
    six_digits(spec_truncate(hmac_sha1(key, be64((now / PERIOD) as u64))) % 1000000)
}

/// Seconds left in the step that holds `now`.
pub open spec fn spec_remaining(now: u64) -> u64 {
    (PERIOD - now % PERIOD) as u64
}

/// Writes a value below one million with six digits.
fn format_six_digits(n: u32) -> (result: String)
    requires
        n < 1000000,
    ensures
        result@ == six_digits(n as int),
{
    let mut out: Vec<char> = Vec::new();
    let mut divisor: u32 = 100000;
    let mut k: usize = 0;
    while k < 6
        invariant
            k <= 6,
            out@.len() == k,
            divisor == (if k == 0 {
                100000u32
            } else if k == 1 {
                10000
            } else if k == 2 {
                1000
            } else if k == 3 {
                100
            } else if k == 4 {
                10
            } else if k == 5 {
                1
            } else {
                0
            }),
            forall|j: int| 0 <= j < k ==> out@[j] == #[trigger] six_digits(n as int)[j],
        decreases 6 - k,
    {
        let digit = (n / divisor) % 10;
        out.push(((digit as u8) + 48) as char);
        divisor = divisor / 10;
        k = k + 1;
    }
    let result = string_from_chars(out.as_slice());
    assert(result@ =~= six_digits(n as int));
    result
}

/// The one-time code for `key` at Unix time `now`.
pub fn totp_at(key: &[u8], now: u64) -> (result: TotpCode)
    ensures
        result.code@ == spec_totp_code(key@, now),
        result.remaining_seconds == spec_remaining(now),
{
    let counter = now / PERIOD;
    let mut message: Vec<u8> = Vec::new();
    push_be64(&mut message, counter);
    assert(message@ =~= be64(counter));
    let digest = hmac_sha1_tag(key, message.as_slice());
    let last = digest[19];
    let offset = (last & 0x0f) as usize;
    proof {
        assert(last & 0x0f == last % 16) by (bit_vector);
    }
    let binary: u32 = (((digest[offset] & 0x7f) as u32) << 24) | ((digest[offset + 1] as u32) << 16)
        | ((digest[offset + 2] as u32) << 8) | (digest[offset + 3] as u32);
    proof {
        let a = digest[offset as int];
        let b = digest[offset + 1];
        let c = digest[offset + 2];
        let d = digest[offset + 3];
        assert(a & 0x7f == a % 128) by (bit_vector);
        assert((((a & 0x7f) as u32) << 24) | ((b as u32) << 16) | ((c as u32) << 8) | (d as u32) == (a
            % 128) as u32 * 16777216 + b as u32 * 65536 + c as u32 * 256 + d as u32) by (bit_vector);
    }
    let code = binary % 1000000;
    TotpCode { code: format_six_digits(code), remaining_seconds: PERIOD - now % PERIOD }
}

/// The current one-time code for a secret text.
pub fn generate_totp(secret: &str) -> (result: Result<TotpCode, VaultError>)
    ensures
        match spec_decode_secret(secret@) {
            Err(detail) => result matches Err(e) && refused_with(e, detail),
            Ok(key) => match result {
                Ok(code) => exists|now: u64|
                    code.code@ == spec_totp_code(key, now) && code.remaining_seconds
                        == spec_remaining(now),
                Err(e) => e matches VaultError::Platform(d) && d@
                    == "system clock is before UNIX epoch"@,
            },
        },
{
    let key = decode_secret(secret)?;
    let now = match crate::clock::unix_now_seconds() {
        Some(now) => now,
        None => {
            return Err(
                VaultError::Platform(String::from_str("system clock is before UNIX epoch")),
            );
        },
    };
    let code = totp_at(key.as_slice(), now);
    Ok(code)
}

} // verus!
