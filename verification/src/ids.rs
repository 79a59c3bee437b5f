//! Record identifiers: 16-byte UUIDs, written in their canonical
//! hyphenated lowercase form. Some readers insist on that exact form;
//! others, such as the credential store's, also accept it with upper-case
//! hex digits (see each reader's contract).
use vstd::prelude::*;
use crate::text::chars_of;
use crate::token::{push_hex, spec_encode_token};
use crate::text::string_from_chars;

verus! {

/// What `uuid::Uuid::parse_str` gives for a text: the 16 bytes of the UUID
/// it reads, or nothing where it refuses the text.
pub uninterp spec fn uuid_parse(text: Seq<char>) -> Option<Seq<u8>>;

/// Reads a UUID with `uuid::Uuid::parse_str` (which takes the simple,
/// hyphenated, braced and URN forms, in either case).
///
/// Trusted: the result is the crate's answer for this text, by the name
/// `uuid_parse`; nothing else is claimed of which texts it accepts.
#[verifier::external_body]
pub(crate) fn uuid_parse_str(text: &str) -> (result: Option<[u8; 16]>)
    ensures
        match result {
            Some(bytes) => uuid_parse(text@) == Some(bytes@),
            None => uuid_parse(text@) is None,
        },
{
    match uuid::Uuid::parse_str(text) {
        Ok(id) => Some(*id.as_bytes()),
        Err(_) => None,
    }
}

/// The hyphenated lowercase text of a UUID: 8-4-4-4-12 hexadecimal digits.
pub open spec fn spec_uuid_text(id: Seq<u8>) -> Seq<char> {
    spec_encode_token(id.subrange(0, 4)) + seq!['-'] + spec_encode_token(id.subrange(4, 6)) + seq![
        '-',
    ] + spec_encode_token(id.subrange(6, 8)) + seq!['-'] + spec_encode_token(id.subrange(8, 10))
        + seq!['-'] + spec_encode_token(id.subrange(10, 16))
}

/// The hyphenated lowercase text of a UUID, as `Display` of `uuid::Uuid`
/// writes it.
pub fn uuid_text(id: &[u8; 16]) -> (result: String)
    ensures
        result@ == spec_uuid_text(id@),
{
    let mut out: Vec<char> = Vec::new();
    push_hex(&mut out, vstd::slice::slice_subrange(id.as_slice(), 0, 4));
    out.push('-');
    push_hex(&mut out, vstd::slice::slice_subrange(id.as_slice(), 4, 6));
    out.push('-');
    push_hex(&mut out, vstd::slice::slice_subrange(id.as_slice(), 6, 8));
    out.push('-');
    push_hex(&mut out, vstd::slice::slice_subrange(id.as_slice(), 8, 10));
    out.push('-');
    push_hex(&mut out, vstd::slice::slice_subrange(id.as_slice(), 10, 16));
    let result = string_from_chars(out.as_slice());
    assert(result@ =~= spec_uuid_text(id@));
    result
}

/// `text` with ASCII capitals made lowercase; other characters unchanged.
pub open spec fn spec_ascii_lowercase(text: Seq<char>) -> Seq<char> {
    text.map_values(|c: char| if 'A' <= c <= 'Z' { ((c as u8) + 32) as char } else { c })
}

/// Reads a UUID that must be written exactly in canonical form.
pub fn parse_canonical_uuid(text: &str) -> (result: Option<[u8; 16]>)
    ensures
        match result {
            Some(id) => uuid_parse(text@) == Some(id@) && spec_uuid_text(id@) == text@,
            None => !(uuid_parse(text@) matches Some(b) && b.len() == 16 && spec_uuid_text(b)
                == text@),
        },
{
    match uuid_parse_str(text) {
        Some(id) => {
            let canonical = uuid_text(&id);
            if crate::text::str_eq(canonical.as_str(), text) {
                Some(id)
            } else {
                None
            }
        },
        None => None,
    }
}

/// Lowercases the ASCII capitals of a text.
pub fn ascii_lowercase(text: &str) -> (result: String)
    ensures
        result@ == spec_ascii_lowercase(text@),
{
    let chars = chars_of(text);
    let mut out: Vec<char> = Vec::new();
    let mut i: usize = 0;
    while i < chars.len()
        invariant
            chars@ == text@,
            i <= chars@.len(),
            out@ == spec_ascii_lowercase(chars@.take(i as int)),
        decreases chars@.len() - i,
    {
        let c = chars[i];
        let lowered = if 'A' <= c && c <= 'Z' {
            ((c as u8) + 32) as char
        } else {
            c
        };
        out.push(lowered);
        proof {
            assert(spec_ascii_lowercase(chars@.take(i + 1)) =~= spec_ascii_lowercase(
                chars@.take(i as int),
            ).push(lowered));
        }
        i = i + 1;
    }
    proof {
        assert(chars@.take(chars@.len() as int) =~= chars@);
    }
    string_from_chars(out.as_slice())
}

/// Reads a UUID whose text must be canonical once ASCII capitals are
/// lowered.
pub fn parse_uuid_ignoring_case(text: &str) -> (result: Option<[u8; 16]>)
    ensures
        match result {
            Some(id) => uuid_parse(text@) == Some(id@) && spec_uuid_text(id@)
                == spec_ascii_lowercase(text@),
            None => !(uuid_parse(text@) matches Some(b) && b.len() == 16 && spec_uuid_text(b)
                == spec_ascii_lowercase(text@)),
        },
{
    match uuid_parse_str(text) {
        Some(id) => {
            let canonical = uuid_text(&id);
            let lowered = ascii_lowercase(text);
            if crate::text::str_eq(canonical.as_str(), lowered.as_str()) {
                Some(id)
            } else {
                None
            }
        },
        None => None,
    }
}

/// Reads an identifier a command was given: `InvalidInput("invalid UUID")`
/// when it does not parse, `InvalidInput("UUID is not canonical")` when it
/// is not the canonical lower-case hyphenated text.
pub fn command_uuid(value: &str) -> (result: Result<[u8; 16], crate::error::VaultError>)
    ensures
        match result {
            Ok(id) => uuid_parse(value@) == Some(id@) && spec_uuid_text(id@) == value@,
            Err(e) => match uuid_parse(value@) {
                None => e matches crate::error::VaultError::InvalidInput(d) && d@ == "invalid UUID"@,
                Some(b) => !(b.len() == 16 && spec_uuid_text(b) == value@) && (e matches crate::error::VaultError::InvalidInput(d) && d@
                    == "UUID is not canonical"@),
            },
        },
{
    match parse_canonical_uuid(value) {
        Some(id) => Ok(id),
        None => match uuid_parse_str(value) {
            None => Err(crate::error::invalid_input("invalid UUID")),
            Some(_) => Err(crate::error::invalid_input("UUID is not canonical")),
        },
    }
}

/// Reads a stored identifier, which must be canonical; anything else means
/// the stored data was not what the vault wrote.
pub fn canonical_uuid(value: &str) -> (result: Result<[u8; 16], crate::error::VaultError>)
    ensures
        match result {
            Ok(id) => uuid_parse(value@) == Some(id@) && spec_uuid_text(id@) == value@,
            Err(e) => e == crate::error::VaultError::AuthenticationFailed && !(uuid_parse(value@) matches Some(b)
                && b.len() == 16 && spec_uuid_text(b) == value@),
        },
{
    match parse_canonical_uuid(value) {
        Some(id) => Ok(id),
        None => Err(crate::error::VaultError::AuthenticationFailed),
    }
}

} // verus!
