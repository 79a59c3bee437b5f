//! The vault header and the session built on it: how the root key is
//! wrapped under the master password and a recovery key, how the header's
//! settings are authenticated, and the lock, idle-expiry and unlock
//! rate-limit rules of an open session.
use vstd::prelude::*;
use vstd::utf8::encode_utf8;
use crate::bytes::{be16, be32, be64, push_all, push_be16, push_be32, push_be64};
use crate::crypto::{
    aes256gcm_open, aes256gcm_seal, argon2id_32, ascii_bytes, spec_ascii, spec_domain_key,
    derive_domain_key, AEAD_MAX_BYTES, TAG_SIZE,
};
use crate::encoding::{base64_standard_decode, base64_standard_encode, base64_url_decode, base64_url_encode};
use crate::error::{VaultError, invalid_input};
use crate::text::{chars_of, spec_trim, trim};

verus! {

/// Current header version: the root key wrapped under the password.
pub const HEADER_VERSION: u16 = 3;

/// Header version whose password key was the root key, with settings.
pub const PREVIOUS_HEADER_VERSION: u16 = 2;

/// First header version.
pub const LEGACY_HEADER_VERSION: u16 = 1;

pub const MIN_PASSWORD_CHARS: usize = 12;

pub const DEFAULT_AUTO_LOCK_SECONDS: u64 = 300;

pub const MIN_AUTO_LOCK_SECONDS: u64 = 60;

pub const MAX_AUTO_LOCK_SECONDS: u64 = 86400;

pub const DEFAULT_CLIPBOARD_TIMEOUT_SECONDS: u64 = 30;

pub const MIN_CLIPBOARD_TIMEOUT_SECONDS: u64 = 5;

pub const MAX_CLIPBOARD_TIMEOUT_SECONDS: u64 = 300;

/// Seconds for which a password confirmation allows sensitive actions.
pub const REAUTH_WINDOW_SECONDS: u64 = 120;

pub const DEFAULT_ARGON_MEMORY_KIB: u32 = 65536;

pub const DEFAULT_ARGON_ITERATIONS: u32 = 3;

pub const DEFAULT_ARGON_PARALLELISM: u32 = 1;

/// The stored vault header.
#[derive(Debug, Clone)]
pub struct VaultHeader {
    pub version: u16,
    pub salt: String,
    pub argon_memory_kib: u32,
    pub argon_iterations: u32,
    pub argon_parallelism: u32,
    pub verifier_nonce: String,
    pub verifier_ciphertext: String,
    pub auto_lock_seconds: u64,
    pub delete_source_after_import: bool,
    pub vault_id: String,
    pub wrapped_root_nonce: String,
    pub wrapped_root_ciphertext: String,
    pub recovery_nonce: String,
    pub recovery_ciphertext: String,
    pub lock_on_blur: bool,
    pub lock_on_suspend: bool,
    pub clipboard_timeout_seconds: u64,
}

/// The session as the interface shows it.
#[derive(Debug)]
pub struct SessionStatus {
    pub initialized: bool,
    pub locked: bool,
    pub auto_lock_seconds: u64,
    pub delete_source_after_import: bool,
    pub lock_on_blur: bool,
    pub lock_on_suspend: bool,
    pub clipboard_timeout_seconds: u64,
    pub recovery_configured: bool,
    pub recently_reauthenticated: bool,
}

/// A recovery key as it is shown once to the user.
#[derive(Debug)]
pub struct RecoveryKey {
    pub recovery_key: String,
}

/// The value a missing `lock_on_suspend` or similar flag takes.
pub fn default_true() -> (result: bool)
    ensures
        result,
{
    true
}

/// The clipboard timeout of a header written before it existed.
pub fn default_clipboard_timeout() -> (result: u64)
    ensures
        result == DEFAULT_CLIPBOARD_TIMEOUT_SECONDS,
{
    DEFAULT_CLIPBOARD_TIMEOUT_SECONDS
}

/// A master password has at least 12 characters.
pub fn validate_password(password: &str) -> (result: Result<(), VaultError>)
    ensures
        result is Ok <==> password@.len() >= MIN_PASSWORD_CHARS,
        result matches Err(e) ==> e == VaultError::WeakPassword,
{
    let chars = chars_of(password);
    if chars.len() < MIN_PASSWORD_CHARS {
        return Err(VaultError::WeakPassword);
    }
    Ok(())
}

/// The parameters every header version must have.
pub open spec fn spec_header_params_ok(h: VaultHeader) -> bool {
    &&& (h.version == LEGACY_HEADER_VERSION || h.version == PREVIOUS_HEADER_VERSION || h.version
        == HEADER_VERSION)
    &&& 32768 <= h.argon_memory_kib <= 1048576
    &&& 1 <= h.argon_iterations <= 10
    &&& 1 <= h.argon_parallelism <= 16
    &&& MIN_AUTO_LOCK_SECONDS <= h.auto_lock_seconds <= MAX_AUTO_LOCK_SECONDS
}

/// The envelope a current header must have.
pub open spec fn spec_envelope_ok(h: VaultHeader) -> bool {
    h.version == HEADER_VERSION ==> {
        &&& h.vault_id@.len() > 0
        &&& h.wrapped_root_nonce@.len() > 0
        &&& h.wrapped_root_ciphertext@.len() > 0
        &&& MIN_CLIPBOARD_TIMEOUT_SECONDS <= h.clipboard_timeout_seconds
            <= MAX_CLIPBOARD_TIMEOUT_SECONDS
    }
}

/// Checks a header's parameters before any key is derived from it.
pub fn validate_header(header: &VaultHeader) -> (result: Result<(), VaultError>)
    ensures
        !spec_header_params_ok(*header) ==> (result matches Err(VaultError::InvalidInput(d)) && d@
            == "invalid vault header parameters"@),
        spec_header_params_ok(*header) && !spec_envelope_ok(*header) ==> (result matches Err(
            VaultError::InvalidInput(d),
        ) && d@ == "invalid vault envelope parameters"@),
        spec_header_params_ok(*header) && spec_envelope_ok(*header) ==> result is Ok,
{
    let h = header;
    if !(h.version == LEGACY_HEADER_VERSION || h.version == PREVIOUS_HEADER_VERSION || h.version
        == HEADER_VERSION) || !(32768 <= h.argon_memory_kib && h.argon_memory_kib <= 1048576)
        || !(1 <= h.argon_iterations && h.argon_iterations <= 10) || !(1 <= h.argon_parallelism
        && h.argon_parallelism <= 16) || !(MIN_AUTO_LOCK_SECONDS <= h.auto_lock_seconds
        && h.auto_lock_seconds <= MAX_AUTO_LOCK_SECONDS) {
        return Err(invalid_input("invalid vault header parameters"));
    }
    if h.version == HEADER_VERSION && (h.vault_id.as_str().is_empty()
        || h.wrapped_root_nonce.as_str().is_empty() || h.wrapped_root_ciphertext.as_str().is_empty()
        || !(MIN_CLIPBOARD_TIMEOUT_SECONDS <= h.clipboard_timeout_seconds
        && h.clipboard_timeout_seconds <= MAX_CLIPBOARD_TIMEOUT_SECONDS)) {
        return Err(invalid_input("invalid vault envelope parameters"));
    }
    Ok(())
}

/// A recovery key has been set up: both recovery fields are present.
pub open spec fn spec_recovery_configured(h: VaultHeader) -> bool {
    h.recovery_nonce@.len() > 0 && h.recovery_ciphertext@.len() > 0
}

/// Whether the header holds a recovery envelope.
pub fn recovery_is_configured(header: &VaultHeader) -> (result: bool)
    ensures
        result == spec_recovery_configured(*header),
{
    !header.recovery_nonce.as_str().is_empty() && !header.recovery_ciphertext.as_str().is_empty()
}

/// The UTF-8 bytes of a header text field.
pub open spec fn field_bytes(s: String) -> Seq<u8> {
    encode_utf8(s@)
}

/// A field of associated data: its length as four big-endian bytes, then
/// the bytes themselves.
pub open spec fn spec_lp(b: Seq<u8>) -> Seq<u8> {
    be32(b.len() as u32) + b
}

/// The field fits a four-byte length.
pub open spec fn fits(b: Seq<u8>) -> bool {
    b.len() <= u32::MAX
}

/// Appends a length-prefixed field.
pub fn append_aad_field(destination: &mut Vec<u8>, value: &[u8]) -> (result: Result<(), VaultError>)
    ensures
        fits(value@) ==> result is Ok && final(destination)@ == old(destination)@ + spec_lp(value@),
        !fits(value@) ==> (result matches Err(VaultError::InvalidInput(d)) && d@
            == "vault header field is too long"@) && final(destination)@ == old(destination)@,
{
    if value.len() > u32::MAX as usize {
        return Err(invalid_input("vault header field is too long"));
    }
    let ghost start = destination@;
    push_be32(destination, value.len() as u32);
    push_all(destination, value);
    assert(destination@ =~= start + spec_lp(value@));
    Ok(())
}

/// The bytes of a header text field.
fn bytes_of(s: &String) -> (result: &[u8])
    ensures
        result@ == field_bytes(*s),
{
    s.as_str().as_bytes()
}

/// Label of the password-wrap associated data.
pub open spec fn root_wrap_label() -> Seq<u8> {
    spec_ascii("kh.zila.ndsecure/header/root-wrap/v1"@)
}

/// Label of the recovery-wrap associated data.
pub open spec fn recovery_wrap_label() -> Seq<u8> {
    spec_ascii("kh.zila.ndsecure/header/recovery-wrap/v1"@)
}

/// Label of the current verifier's associated data.
pub open spec fn verifier_label() -> Seq<u8> {
    spec_ascii("kh.zila.ndsecure/header/verifier/v3"@)
}

/// Label of the version-2 verifier's associated data.
pub open spec fn v2_verifier_label() -> Seq<u8> {
    spec_ascii("kh.zila.ndsecure/header/verifier/v2"@)
}

/// The associated data of the first header version's verifier.
pub open spec fn legacy_verifier_label() -> Seq<u8> {
    spec_ascii("kh.zila.ndsecure/header/verifier/v1"@)
}

/// Associated data of the root key wrapped under the password: the
/// vault's identity and the password-derivation parameters.
pub open spec fn spec_root_wrap_aad(h: VaultHeader) -> Option<Seq<u8>> {
    if fits(field_bytes(h.vault_id)) && fits(field_bytes(h.salt)) {
        Some(
            root_wrap_label() + be16(h.version) + spec_lp(field_bytes(h.vault_id)) + spec_lp(
                field_bytes(h.salt),
            ) + be32(h.argon_memory_kib) + be32(h.argon_iterations) + be32(h.argon_parallelism),
        )
    } else {
        None
    }
}

/// Builds the associated data of the password-wrapped root key.
pub fn root_wrap_aad(header: &VaultHeader) -> (result: Result<Vec<u8>, VaultError>)
    ensures
        match spec_root_wrap_aad(*header) {
            Some(aad) => result matches Ok(v) && v@ == aad,
            None => result matches Err(VaultError::InvalidInput(d)) && d@
                == "vault header field is too long"@,
        },
{
    proof {
        reveal_strlit("kh.zila.ndsecure/header/root-wrap/v1");
    }
    let mut aad = ascii_bytes("kh.zila.ndsecure/header/root-wrap/v1");
    push_be16(&mut aad, header.version);
    append_aad_field(&mut aad, bytes_of(&header.vault_id))?;
    append_aad_field(&mut aad, bytes_of(&header.salt))?;
    push_be32(&mut aad, header.argon_memory_kib);
    push_be32(&mut aad, header.argon_iterations);
    push_be32(&mut aad, header.argon_parallelism);
    Ok(aad)
}

/// Associated data of the root key wrapped under the recovery key.
pub open spec fn spec_recovery_wrap_aad(h: VaultHeader) -> Option<Seq<u8>> {
    if fits(field_bytes(h.vault_id)) {
        Some(recovery_wrap_label() + be16(h.version) + spec_lp(field_bytes(h.vault_id)))
    } else {
        None
    }
}

/// Builds the associated data of the recovery-wrapped root key.
pub fn recovery_wrap_aad(header: &VaultHeader) -> (result: Result<Vec<u8>, VaultError>)
    ensures
        match spec_recovery_wrap_aad(*header) {
            Some(aad) => result matches Ok(v) && v@ == aad,
            None => result matches Err(VaultError::InvalidInput(d)) && d@
                == "vault header field is too long"@,
        },
{
    proof {
        reveal_strlit("kh.zila.ndsecure/header/recovery-wrap/v1");
    }
    let mut aad = ascii_bytes("kh.zila.ndsecure/header/recovery-wrap/v1");
    push_be16(&mut aad, header.version);
    append_aad_field(&mut aad, bytes_of(&header.vault_id))?;
    Ok(aad)
}

/// One byte for a flag.
pub open spec fn flag_byte(b: bool) -> Seq<u8> {
    seq![if b { 1u8 } else { 0u8 }]
}

/// Every text field of a header that the verifier covers fits a length.
pub open spec fn verifier_fields_fit(h: VaultHeader) -> bool {
    &&& fits(field_bytes(h.vault_id))
    &&& fits(field_bytes(h.salt))
    &&& fits(field_bytes(h.wrapped_root_nonce))
    &&& fits(field_bytes(h.wrapped_root_ciphertext))
    &&& fits(field_bytes(h.recovery_nonce))
    &&& fits(field_bytes(h.recovery_ciphertext))
}

/// Associated data of the root verifier: every setting of the header, so
/// that changing any of them without the root key is detected.
pub open spec fn spec_root_verifier_aad(h: VaultHeader) -> Option<Seq<u8>> {
    if verifier_fields_fit(h) {
        Some(
            verifier_label() + be16(h.version) + spec_lp(field_bytes(h.vault_id)) + spec_lp(
                field_bytes(h.salt),
            ) + be32(h.argon_memory_kib) + be32(h.argon_iterations) + be32(h.argon_parallelism)
                + spec_lp(field_bytes(h.wrapped_root_nonce)) + spec_lp(
                field_bytes(h.wrapped_root_ciphertext),
            ) + be64(h.auto_lock_seconds) + flag_byte(h.delete_source_after_import) + flag_byte(
                h.lock_on_blur,
            ) + flag_byte(h.lock_on_suspend) + be64(h.clipboard_timeout_seconds) + spec_lp(
                field_bytes(h.recovery_nonce),
            ) + spec_lp(field_bytes(h.recovery_ciphertext)),
        )
    } else {
        None
    }
}

/// Builds the root verifier's associated data.
pub fn root_verifier_aad(header: &VaultHeader) -> (result: Result<Vec<u8>, VaultError>)
    ensures
        match spec_root_verifier_aad(*header) {
            Some(aad) => result matches Ok(v) && v@ == aad,
            None => result matches Err(VaultError::InvalidInput(d)) && d@
                == "vault header field is too long"@,
        },
{
    proof {
        reveal_strlit("kh.zila.ndsecure/header/verifier/v3");
    }
    let h = header;
    let mut aad = ascii_bytes("kh.zila.ndsecure/header/verifier/v3");
    push_be16(&mut aad, h.version);
    append_aad_field(&mut aad, bytes_of(&h.vault_id))?;
    append_aad_field(&mut aad, bytes_of(&h.salt))?;
    push_be32(&mut aad, h.argon_memory_kib);
    push_be32(&mut aad, h.argon_iterations);
    push_be32(&mut aad, h.argon_parallelism);
    append_aad_field(&mut aad, bytes_of(&h.wrapped_root_nonce))?;
    append_aad_field(&mut aad, bytes_of(&h.wrapped_root_ciphertext))?;
    push_be64(&mut aad, h.auto_lock_seconds);
    aad.push(if h.delete_source_after_import {
        1
    } else {
        0
    });
    aad.push(if h.lock_on_blur {
        1
    } else {
        0
    });
    aad.push(if h.lock_on_suspend {
        1
    } else {
        0
    });
    push_be64(&mut aad, h.clipboard_timeout_seconds);
    append_aad_field(&mut aad, bytes_of(&h.recovery_nonce))?;
    append_aad_field(&mut aad, bytes_of(&h.recovery_ciphertext))?;
    Ok(aad)
}

/// Associated data of an older header's verifier: a fixed label for the
/// first version; the label, version, salt, parameters and settings for the
/// second.
pub open spec fn spec_legacy_verifier_aad(h: VaultHeader) -> Option<Option<Seq<u8>>> {
    if h.version == LEGACY_HEADER_VERSION {
        Some(Some(legacy_verifier_label()))
    } else if h.version == PREVIOUS_HEADER_VERSION {
        if fits(field_bytes(h.salt)) {
            Some(
                Some(
                    v2_verifier_label() + be16(h.version) + spec_lp(field_bytes(h.salt)) + be32(
                        h.argon_memory_kib,
                    ) + be32(h.argon_iterations) + be32(h.argon_parallelism) + be64(
                        h.auto_lock_seconds,
                    ) + flag_byte(h.delete_source_after_import),
                ),
            )
        } else {
            Some(None)
        }
    } else {
        None
    }
}

/// Builds an older header's verifier associated data.
pub fn legacy_verifier_aad(header: &VaultHeader) -> (result: Result<Vec<u8>, VaultError>)
    ensures
        match spec_legacy_verifier_aad(*header) {
            Some(Some(aad)) => result matches Ok(v) && v@ == aad,
            Some(None) => result matches Err(VaultError::InvalidInput(d)) && d@
                == "vault header field is too long"@,
            None => result matches Err(VaultError::InvalidInput(d)) && d@
                == "unsupported legacy vault header version"@,
        },
{
    proof {
        reveal_strlit("kh.zila.ndsecure/header/verifier/v1");
        reveal_strlit("kh.zila.ndsecure/header/verifier/v2");
    }
    if header.version == LEGACY_HEADER_VERSION {
        return Ok(ascii_bytes("kh.zila.ndsecure/header/verifier/v1"));
    }
    if header.version == PREVIOUS_HEADER_VERSION {
        let mut aad = ascii_bytes("kh.zila.ndsecure/header/verifier/v2");
        push_be16(&mut aad, header.version);
        append_aad_field(&mut aad, bytes_of(&header.salt))?;
        push_be32(&mut aad, header.argon_memory_kib);
        push_be32(&mut aad, header.argon_iterations);
        push_be32(&mut aad, header.argon_parallelism);
        push_be64(&mut aad, header.auto_lock_seconds);
        aad.push(if header.delete_source_after_import {
            1
        } else {
            0
        });
        return Ok(aad);
    }
    Err(invalid_input("unsupported legacy vault header version"))
}

/// The bytes a standard Base64 header field stands for, if it has exactly
/// `n` of them: `Err` names an encoding or a length refusal.
pub open spec fn spec_decode_field(text: Seq<char>, n: nat) -> Result<Seq<u8>, Seq<char>> {
    match base64_standard_decode(encode_utf8(text)) {
        None => Err("invalid vault header encoding"@),
        Some(b) => if b.len() == n {
            Ok(b)
        } else {
            Err("invalid vault header length"@)
        },
    }
}

/// Decodes a 16-byte header field.
pub fn decode_array_16(value: &str) -> (result: Result<[u8; 16], VaultError>)
    ensures
        match spec_decode_field(value@, 16) {
            Ok(b) => result matches Ok(a) && a@ == b,
            Err(d) => result matches Err(VaultError::InvalidInput(m)) && m@ == d,
        },
{
    let decoded = match crate::encoding::standard_decode(value.as_bytes()) {
        Some(d) => d,
        None => return Err(invalid_input("invalid vault header encoding")),
    };
    if decoded.len() != 16 {
        return Err(invalid_input("invalid vault header length"));
    }
    let mut out = [0u8; 16];
    let mut i: usize = 0;
    while i < 16
        invariant
            i <= 16,
            decoded@.len() == 16,
            forall|j: int| 0 <= j < i ==> out@[j] == decoded@[j],
        decreases 16 - i,
    {
        out[i] = decoded[i];
        i = i + 1;
    }
    assert(out@ =~= decoded@);
    Ok(out)
}

/// Decodes a 12-byte header field.
pub fn decode_array_12(value: &str) -> (result: Result<[u8; 12], VaultError>)
    ensures
        match spec_decode_field(value@, 12) {
            Ok(b) => result matches Ok(a) && a@ == b,
            Err(d) => result matches Err(VaultError::InvalidInput(m)) && m@ == d,
        },
{
    let decoded = match crate::encoding::standard_decode(value.as_bytes()) {
        Some(d) => d,
        None => return Err(invalid_input("invalid vault header encoding")),
    };
    if decoded.len() != 12 {
        return Err(invalid_input("invalid vault header length"));
    }
    let mut out = [0u8; 12];
    let mut i: usize = 0;
    while i < 12
        invariant
            i <= 12,
            decoded@.len() == 12,
            forall|j: int| 0 <= j < i ==> out@[j] == decoded@[j],
        decreases 12 - i,
    {
        out[i] = decoded[i];
        i = i + 1;
    }
    assert(out@ =~= decoded@);
    Ok(out)
}

/// The password key: Argon2id over the password's UTF-8 bytes with the
/// header's salt and parameters. Parameters Argon2 refuses give `Crypto`.
pub fn derive_password_key(
    password: &str,
    salt: &[u8; 16],
    memory_kib: u32,
    iterations: u32,
    parallelism: u32,
) -> (result: Result<[u8; 32], VaultError>)
    ensures
        result is Ok <==> crate::crypto::argon2_accepts(
            encode_utf8(password@).len(),
            memory_kib,
            iterations,
            parallelism,
        ),
        result matches Ok(k) ==> k@ == argon2id_32(
            encode_utf8(password@),
            salt@,
            memory_kib,
            iterations,
            parallelism,
        ),
        result matches Err(e) ==> e == VaultError::Crypto,
{
    if parallelism > 0xFFFFFF {
        return Err(VaultError::Crypto);
    }
    match crate::crypto::argon2id_hash(password.as_bytes(), salt, memory_kib, iterations, parallelism) {
        Some(key) => Ok(key),
        None => Err(VaultError::Crypto),
    }
}

/// Domain of the key that wraps the root key under the password key.
pub open spec fn password_wrap_domain() -> Seq<u8> {
    spec_ascii("nd-secure/password-wrap-key/v1"@)
}

/// Domain of the key that wraps the root key under a recovery key.
pub open spec fn recovery_wrap_domain() -> Seq<u8> {
    spec_ascii("nd-secure/recovery-wrap-key/v1"@)
}

/// The plaintext the root verifier seals.
pub open spec fn root_verifier_plaintext() -> Seq<u8> {
    spec_ascii("ND_SECURE_VAULT_ROOT_VERIFIER_V1"@)
}

/// The plaintext an older header's verifier seals.
pub open spec fn legacy_verifier_plaintext() -> Seq<u8> {
    spec_ascii("ND_SECURE_MASTER_KEY_VERIFIER_V1"@)
}

/// The fields of a header other than the password envelope are unchanged.
pub open spec fn same_but_wrap(a: VaultHeader, b: VaultHeader) -> bool {
    &&& a.version == b.version && a.salt == b.salt && a.argon_memory_kib == b.argon_memory_kib
    &&& a.argon_iterations == b.argon_iterations && a.argon_parallelism == b.argon_parallelism
    &&& a.verifier_nonce == b.verifier_nonce && a.verifier_ciphertext == b.verifier_ciphertext
    &&& a.auto_lock_seconds == b.auto_lock_seconds
    &&& a.delete_source_after_import == b.delete_source_after_import
    &&& a.vault_id == b.vault_id && a.recovery_nonce == b.recovery_nonce
    &&& a.recovery_ciphertext == b.recovery_ciphertext && a.lock_on_blur == b.lock_on_blur
    &&& a.lock_on_suspend == b.lock_on_suspend
    &&& a.clipboard_timeout_seconds == b.clipboard_timeout_seconds
}

/// The password key a header asks for: Argon2id over the password's UTF-8
/// bytes with the header's salt and parameters, if its salt decodes.
pub open spec fn spec_header_password_key(h: VaultHeader, password: Seq<char>) -> Option<Seq<u8>> {
    match spec_decode_field(h.salt@, 16) {
        Ok(salt) => Some(
            argon2id_32(encode_utf8(password), salt, h.argon_memory_kib, h.argon_iterations, h.argon_parallelism),
        ),
        Err(_) => None,
    }
}

/// The header's password envelope opens under `password` to `root`.
pub open spec fn spec_opens_with_password(h: VaultHeader, password: Seq<char>, root: Seq<u8>) -> bool {
    spec_header_password_key(h, password) matches Some(k) && spec_unwrap_root(h, k) == Ok::<
        Seq<u8>,
        VaultError,
    >(root)
}

/// The header's recovery envelope opens under the recovery key written as
/// `text` to `root`.
pub open spec fn spec_opens_with_recovery(h: VaultHeader, text: Seq<char>, root: Seq<u8>) -> bool {
    spec_decode_recovery_key(text) matches Ok(k) && spec_unwrap_recovery(h, k) == Ok::<Seq<u8>, VaultError>(root)
}

/// A master password change keeps the root key and so every domain key:
/// the header `change_master_password` gives opens under the new password
/// to the root key the session held, and unlocking that header with the
/// new password (`begin_unlock`) gives a root key the header opens to, so
/// the two are one key and derive the same domain keys.
pub proof fn lemma_password_change_keeps_root(
    h: VaultHeader,
    new_password: Seq<char>,
    held_root: Seq<u8>,
    unlocked_root: Seq<u8>,
)
    requires
        spec_opens_with_password(h, new_password, held_root),
        spec_opens_with_password(h, new_password, unlocked_root),
    ensures
        unlocked_root == held_root,
        forall|domain: Seq<u8>|
            #[trigger] spec_domain_key(unlocked_root, domain) == spec_domain_key(held_root, domain),
{
}

/// Recovery resets the password without rotating the root key: the
/// recovery text `create_recovery_key` gives opens its header to the root
/// key the session held; `recover_with_key` on that header and text gives a
/// root key the text opens the header to, and a new header that opens
/// under the new password to it. So the new password opens the root key
/// the vault had all along.
pub proof fn lemma_recovery_keeps_root(
    h: VaultHeader,
    text: Seq<char>,
    held_root: Seq<u8>,
    recovered_root: Seq<u8>,
    recovered: VaultHeader,
    new_password: Seq<char>,
)
    requires
        spec_opens_with_recovery(h, text, held_root),
        spec_opens_with_recovery(h, text, recovered_root),
        spec_opens_with_password(recovered, new_password, recovered_root),
    ensures
        recovered_root == held_root,
        spec_opens_with_password(recovered, new_password, held_root),
{
}

/// The fields of a header other than the recovery envelope are unchanged.
pub open spec fn same_but_recovery(a: VaultHeader, b: VaultHeader) -> bool {
    &&& a.version == b.version && a.salt == b.salt && a.argon_memory_kib == b.argon_memory_kib
    &&& a.argon_iterations == b.argon_iterations && a.argon_parallelism == b.argon_parallelism
    &&& a.verifier_nonce == b.verifier_nonce && a.verifier_ciphertext == b.verifier_ciphertext
    &&& a.auto_lock_seconds == b.auto_lock_seconds
    &&& a.delete_source_after_import == b.delete_source_after_import
    &&& a.vault_id == b.vault_id && a.wrapped_root_nonce == b.wrapped_root_nonce
    &&& a.wrapped_root_ciphertext == b.wrapped_root_ciphertext && a.lock_on_blur == b.lock_on_blur
    &&& a.lock_on_suspend == b.lock_on_suspend
    &&& a.clipboard_timeout_seconds == b.clipboard_timeout_seconds
}

/// Wraps the root key under the password key with a fresh nonce and
/// stores the envelope in the header.
pub fn wrap_root_key(header: &mut VaultHeader, password_key: &[u8; 32], root_key: &[u8; 32]) -> (result:
    Result<(), VaultError>)
    ensures
        match spec_root_wrap_aad(*old(header)) {
            None => result matches Err(VaultError::InvalidInput(d)) && d@
                == "vault header field is too long"@,
            Some(aad) => aad.len() <= AEAD_MAX_BYTES ==> {
                &&& result is Ok
                &&& same_but_wrap(*old(header), *final(header))
                &&& exists|nonce: Seq<u8>|
                    nonce.len() == 12 && final(header).wrapped_root_nonce@ == base64_standard_encode(
                        nonce,
                    ) && final(header).wrapped_root_ciphertext@ == base64_standard_encode(
                        aes256gcm_seal(
                            spec_domain_key(password_key@, password_wrap_domain()),
                            nonce,
                            aad,
                            root_key@,
                        ),
                    )
            },
        },
        result is Err ==> *final(header) == *old(header),
        result is Ok ==> same_but_wrap(*old(header), *final(header)),
        result is Ok ==> spec_unwrap_root(*final(header), password_key@) == Ok::<Seq<u8>, VaultError>(
            root_key@,
        ),
        result is Ok ==> field_bytes(final(header).wrapped_root_nonce).len() == 16 && field_bytes(
            final(header).wrapped_root_ciphertext,
        ).len() == 64,
{
    let nonce = crate::crypto::random_12();
    proof {
        reveal_strlit("nd-secure/password-wrap-key/v1");
    }
    let domain = ascii_bytes("nd-secure/password-wrap-key/v1");
    let wrap_key = derive_domain_key(password_key, domain.as_slice())?;
    let aad = root_wrap_aad(header)?;
    let ciphertext = crate::crypto::aead_seal(&wrap_key, &nonce, aad.as_slice(), root_key)?;
    let ghost before = *header;
    header.wrapped_root_nonce = crate::encoding::standard_encode(&nonce);
    header.wrapped_root_ciphertext = crate::encoding::standard_encode(ciphertext.as_slice());
    proof {
        assert(domain@ == password_wrap_domain());
        assert(spec_root_wrap_aad(*header) == spec_root_wrap_aad(before));
        assert(spec_decode_field(header.wrapped_root_nonce@, 12) == Ok::<Seq<u8>, Seq<char>>(nonce@));
        assert(nonce@.len() == 12 && header.wrapped_root_nonce@ == base64_standard_encode(nonce@)
            && header.wrapped_root_ciphertext@ == base64_standard_encode(
            aes256gcm_seal(
                spec_domain_key(password_key@, password_wrap_domain()),
                nonce@,
                aad@,
                root_key@,
            ),
        ));
    }
    Ok(())
}

/// Opening the password envelope: the nonce field must be 12 bytes, the
/// ciphertext valid Base64 and authentic, and the plaintext 32 bytes.
pub open spec fn spec_unwrap_root(h: VaultHeader, password_key: Seq<u8>) -> Result<Seq<u8>, VaultError> {
    match spec_decode_field(h.wrapped_root_nonce@, 12) {
        Err(_) => Err(VaultError::InvalidInput(arbitrary())),
        Ok(nonce) => match base64_standard_decode(field_bytes(h.wrapped_root_ciphertext)) {
            None => Err(VaultError::AuthenticationFailed),
            Some(ct) => match spec_root_wrap_aad(h) {
                None => Err(VaultError::InvalidInput(arbitrary())),
                Some(aad) => match aes256gcm_open(
                    spec_domain_key(password_key, password_wrap_domain()),
                    nonce,
                    aad,
                    ct,
                ) {
                    None => Err(VaultError::AuthenticationFailed),
                    Some(root) => if root.len() == 32 {
                        Ok(root)
                    } else {
                        Err(VaultError::AuthenticationFailed)
                    },
                },
            },
        },
    }
}

/// The two results agree up to the detail of an `InvalidInput`.
pub open spec fn same_outcome(r: Result<Seq<u8>, VaultError>, s: Result<Seq<u8>, VaultError>) -> bool {
    match (r, s) {
        (Ok(a), Ok(b)) => a == b,
        (Err(VaultError::InvalidInput(_)), Err(VaultError::InvalidInput(_))) => true,
        (Err(a), Err(b)) => a == b,
        _ => false,
    }
}

/// The result of a key operation as plain bytes.
pub open spec fn key_result(r: Result<[u8; 32], VaultError>) -> Result<Seq<u8>, VaultError> {
    match r {
        Ok(k) => Ok(k@),
        Err(e) => Err(e),
    }
}

/// Copies 32 bytes out of a vector that has exactly 32.
fn array_32(v: &Vec<u8>) -> (result: [u8; 32])
    requires
        v@.len() == 32,
    ensures
        result@ == v@,
{
    let mut out = [0u8; 32];
    let mut i: usize = 0;
    while i < 32
        invariant
            i <= 32,
            v@.len() == 32,
            forall|j: int| 0 <= j < i ==> out@[j] == v@[j],
        decreases 32 - i,
    {
        out[i] = v[i];
        i = i + 1;
    }
    assert(out@ =~= v@);
    out
}

/// Opens the password envelope with a password key.
pub fn unwrap_root_key(header: &VaultHeader, password_key: &[u8; 32]) -> (result: Result<
    [u8; 32],
    VaultError,
>)
    ensures
        same_outcome(key_result(result), spec_unwrap_root(*header, password_key@)),
{
    let nonce = decode_array_12(header.wrapped_root_nonce.as_str())?;
    let ciphertext = match crate::encoding::standard_decode(
        header.wrapped_root_ciphertext.as_str().as_bytes(),
    ) {
        Some(c) => c,
        None => return Err(VaultError::AuthenticationFailed),
    };
    proof {
        reveal_strlit("nd-secure/password-wrap-key/v1");
    }
    let domain = ascii_bytes("nd-secure/password-wrap-key/v1");
    let wrap_key = derive_domain_key(password_key, domain.as_slice())?;
    let aad = root_wrap_aad(header)?;
    let plaintext = match crate::crypto::aead_open(&wrap_key, &nonce, aad.as_slice(), ciphertext.as_slice()) {
        Some(p) => p,
        None => return Err(VaultError::AuthenticationFailed),
    };
    if plaintext.len() != 32 {
        return Err(VaultError::AuthenticationFailed);
    }
    Ok(array_32(&plaintext))
}

/// Opening the recovery envelope with a recovery key.
pub open spec fn spec_unwrap_recovery(h: VaultHeader, recovery_key: Seq<u8>) -> Result<Seq<u8>, VaultError> {
    match spec_decode_field(h.recovery_nonce@, 12) {
        Err(_) => Err(VaultError::InvalidInput(arbitrary())),
        Ok(nonce) => match base64_standard_decode(field_bytes(h.recovery_ciphertext)) {
            None => Err(VaultError::InvalidInput(arbitrary())),
            Some(ct) => match spec_recovery_wrap_aad(h) {
                None => Err(VaultError::InvalidInput(arbitrary())),
                Some(aad) => match aes256gcm_open(
                    spec_domain_key(recovery_key, recovery_wrap_domain()),
                    nonce,
                    aad,
                    ct,
                ) {
                    None => Err(VaultError::InvalidPassword),
                    Some(root) => if root.len() == 32 {
                        Ok(root)
                    } else {
                        Err(VaultError::AuthenticationFailed)
                    },
                },
            },
        },
    }
}

/// Opens the recovery envelope with a recovery key; a wrong key is
/// reported as `InvalidPassword`.
pub fn unwrap_recovery_root(header: &VaultHeader, recovery_key: &[u8; 32]) -> (result: Result<
    [u8; 32],
    VaultError,
>)
    ensures
        same_outcome(key_result(result), spec_unwrap_recovery(*header, recovery_key@)),
        result matches Err(VaultError::InvalidInput(d)) ==> (d@ == "invalid recovery envelope"@ || d@
            == "invalid vault header encoding"@ || d@ == "invalid vault header length"@ || d@
            == "vault header field is too long"@),
{
    let nonce = decode_array_12(header.recovery_nonce.as_str())?;
    let ciphertext = match crate::encoding::standard_decode(
        header.recovery_ciphertext.as_str().as_bytes(),
    ) {
        Some(c) => c,
        None => return Err(invalid_input("invalid recovery envelope")),
    };
    proof {
        reveal_strlit("nd-secure/recovery-wrap-key/v1");
    }
    let domain = ascii_bytes("nd-secure/recovery-wrap-key/v1");
    let wrap_key = derive_domain_key(recovery_key, domain.as_slice())?;
    let aad = recovery_wrap_aad(header)?;
    let plaintext = match crate::crypto::aead_open(&wrap_key, &nonce, aad.as_slice(), ciphertext.as_slice()) {
        Some(p) => p,
        None => return Err(VaultError::InvalidPassword),
    };
    if plaintext.len() != 32 {
        return Err(VaultError::AuthenticationFailed);
    }
    Ok(array_32(&plaintext))
}

/// All fields but the verifier are unchanged.
pub open spec fn same_but_verifier(a: VaultHeader, b: VaultHeader) -> bool {
    &&& a.version == b.version && a.salt == b.salt && a.argon_memory_kib == b.argon_memory_kib
    &&& a.argon_iterations == b.argon_iterations && a.argon_parallelism == b.argon_parallelism
    &&& a.auto_lock_seconds == b.auto_lock_seconds
    &&& a.delete_source_after_import == b.delete_source_after_import
    &&& a.vault_id == b.vault_id && a.wrapped_root_nonce == b.wrapped_root_nonce
    &&& a.wrapped_root_ciphertext == b.wrapped_root_ciphertext
    &&& a.recovery_nonce == b.recovery_nonce && a.recovery_ciphertext == b.recovery_ciphertext
    &&& a.lock_on_blur == b.lock_on_blur && a.lock_on_suspend == b.lock_on_suspend
    &&& a.clipboard_timeout_seconds == b.clipboard_timeout_seconds
}

/// The verifier's associated data does not cover the verifier itself.
proof fn lemma_verifier_aad_skips_verifier(a: VaultHeader, b: VaultHeader)
    requires
        same_but_verifier(a, b),
    ensures
        spec_root_verifier_aad(a) == spec_root_verifier_aad(b),
{
}

/// Seals the root verifier over the header's settings with a fresh nonce.
pub fn seal_root_verifier(header: &mut VaultHeader, root_key: &[u8; 32]) -> (result: Result<(), VaultError>)
    ensures
        same_but_verifier(*old(header), *final(header)),
        result is Ok ==> exists|nonce: Seq<u8>|
            nonce.len() == 12 && final(header).verifier_nonce@ == base64_standard_encode(nonce) && (
            spec_root_verifier_aad(*final(header)) matches Some(aad) && final(header).verifier_ciphertext@
                == base64_standard_encode(
                aes256gcm_seal(root_key@, nonce, aad, root_verifier_plaintext()),
            )),
        verifier_fields_fit(*old(header)) ==> result is Ok,
        result is Ok ==> spec_verifier_check(
            *final(header),
            root_key@,
            spec_root_verifier_aad(*final(header)),
            root_verifier_plaintext(),
            VaultError::AuthenticationFailed,
        ) == Ok::<bool, VaultError>(true),
{
    let nonce = crate::crypto::random_12();
    header.verifier_nonce = crate::encoding::standard_encode(&nonce);
    let aad = root_verifier_aad(header)?;
    let ghost mid = *header;
    proof {
        reveal_strlit("ND_SECURE_VAULT_ROOT_VERIFIER_V1");
        reveal_strlit("kh.zila.ndsecure/header/verifier/v3");
        assert(aad@.len() <= AEAD_MAX_BYTES);
    }
    let plaintext = ascii_bytes("ND_SECURE_VAULT_ROOT_VERIFIER_V1");
    let ciphertext = crate::crypto::aead_seal(root_key, &nonce, aad.as_slice(), plaintext.as_slice())?;
    header.verifier_ciphertext = crate::encoding::standard_encode(ciphertext.as_slice());
    proof {
        assert(nonce@.len() == 12 && header.verifier_nonce@ == base64_standard_encode(nonce@));
        assert(spec_decode_field(header.verifier_nonce@, 12) == Ok::<Seq<u8>, Seq<char>>(nonce@));
        lemma_verifier_aad_skips_verifier(mid, *header);
        assert(plaintext@ == root_verifier_plaintext());
    }
    Ok(())
}

/// Whether the verifier authenticates the header under `key`: its nonce
/// field must decode to 12 bytes (else an `InvalidInput` error), its
/// ciphertext must be Base64 (else `bad_ciphertext`), and it must open to
/// `plaintext`.
pub open spec fn spec_verifier_check(
    h: VaultHeader,
    key: Seq<u8>,
    aad: Option<Seq<u8>>,
    plaintext: Seq<u8>,
    bad_ciphertext: VaultError,
) -> Result<bool, VaultError> {
    match spec_decode_field(h.verifier_nonce@, 12) {
        Err(_) => Err(VaultError::InvalidInput(arbitrary())),
        Ok(nonce) => match base64_standard_decode(field_bytes(h.verifier_ciphertext)) {
            None => Err(bad_ciphertext),
            Some(ct) => match aad {
                None => Err(VaultError::InvalidInput(arbitrary())),
                Some(a) => Ok(aes256gcm_open(key, nonce, a, ct) == Some(plaintext)),
            },
        },
    }
}

/// The outcomes agree up to the detail of an `InvalidInput`.
pub open spec fn same_check(r: Result<bool, VaultError>, s: Result<bool, VaultError>) -> bool {
    match (r, s) {
        (Ok(a), Ok(b)) => a == b,
        (Err(VaultError::InvalidInput(_)), Err(VaultError::InvalidInput(_))) => true,
        (Err(a), Err(b)) => a == b,
        _ => false,
    }
}

/// Checks the root verifier with a root key.
pub fn verify_root_verifier(header: &VaultHeader, root_key: &[u8; 32]) -> (result: Result<bool, VaultError>)
    ensures
        same_check(
            result,
            spec_verifier_check(
                *header,
                root_key@,
                spec_root_verifier_aad(*header),
                root_verifier_plaintext(),
                VaultError::AuthenticationFailed,
            ),
        ),
{
    let nonce = decode_array_12(header.verifier_nonce.as_str())?;
    let ciphertext = match crate::encoding::standard_decode(header.verifier_ciphertext.as_str().as_bytes()) {
        Some(c) => c,
        None => return Err(VaultError::AuthenticationFailed),
    };
    let aad = root_verifier_aad(header)?;
    proof {
        reveal_strlit("ND_SECURE_VAULT_ROOT_VERIFIER_V1");
    }
    let expected = ascii_bytes("ND_SECURE_VAULT_ROOT_VERIFIER_V1");
    match crate::crypto::aead_open(root_key, &nonce, aad.as_slice(), ciphertext.as_slice()) {
        Some(plain) => Ok(crate::crypto::constant_time_eq(plain.as_slice(), expected.as_slice())),
        None => Ok(false),
    }
}

/// Checks an older header's verifier with a password key.
pub fn verify_legacy_verifier(header: &VaultHeader, password_key: &[u8; 32]) -> (result: Result<
    bool,
    VaultError,
>)
    ensures
        same_check(
            result,
            spec_verifier_check(
                *header,
                password_key@,
                match spec_legacy_verifier_aad(*header) {
                    Some(Some(a)) => Some(a),
                    _ => None,
                },
                legacy_verifier_plaintext(),
                VaultError::InvalidPassword,
            ),
        ),
{
    let nonce = decode_array_12(header.verifier_nonce.as_str())?;
    let ciphertext = match crate::encoding::standard_decode(header.verifier_ciphertext.as_str().as_bytes()) {
        Some(c) => c,
        None => return Err(VaultError::InvalidPassword),
    };
    let aad = legacy_verifier_aad(header)?;
    proof {
        reveal_strlit("ND_SECURE_MASTER_KEY_VERIFIER_V1");
    }
    let expected = ascii_bytes("ND_SECURE_MASTER_KEY_VERIFIER_V1");
    match crate::crypto::aead_open(password_key, &nonce, aad.as_slice(), ciphertext.as_slice()) {
        Some(plain) => Ok(crate::crypto::constant_time_eq(plain.as_slice(), expected.as_slice())),
        None => Ok(false),
    }
}

/// A check that came out `false` as the `AuthenticationFailed` it is
/// answered with.
pub open spec fn refusal(r: Result<bool, VaultError>) -> Result<bool, VaultError> {
    match r {
        Ok(false) => Err(VaultError::AuthenticationFailed),
        _ => r,
    }
}

/// A check's outcome read as whether it passed.
pub open spec fn passed<T>(r: Result<T, VaultError>) -> Result<bool, VaultError> {
    match r {
        Ok(_) => Ok(true),
        Err(e) => Err(e),
    }
}

/// The password key `password` gives under the header's salt and
/// parameters opens the envelope to exactly `root`, and the verifier holds
/// under `root`.
pub open spec fn spec_authenticates(h: VaultHeader, password: Seq<char>, root: Seq<u8>) -> bool {
    &&& spec_decode_field(h.salt@, 16) is Ok
    &&& crate::crypto::argon2_accepts(
        encode_utf8(password).len(),
        h.argon_memory_kib,
        h.argon_iterations,
        h.argon_parallelism,
    )
    &&& spec_header_password_key(h, password) matches Some(k) && spec_unwrap_root(h, k) == Ok::<
        Seq<u8>,
        VaultError,
    >(root)
    &&& spec_verifier_check(
        h,
        root,
        spec_root_verifier_aad(h),
        root_verifier_plaintext(),
        VaultError::AuthenticationFailed,
    ) == Ok::<bool, VaultError>(true)
}

/// Confirms that `password` opens the header's envelope to exactly the
/// expected root key and that the verifier holds: a wrong password, or one
/// that opens to another key, is `InvalidPassword`; a root key the verifier
/// refuses means the header was altered.
pub fn authenticate_password(header: &VaultHeader, password: &str, expected_root: &[u8; 32]) -> (result:
    Result<(), VaultError>)
    ensures
        result is Ok <==> spec_authenticates(*header, password@, expected_root@),
        spec_decode_field(header.salt@, 16) matches Err(d) ==> (result matches Err(
            VaultError::InvalidInput(m),
        ) && m@ == d),
        spec_decode_field(header.salt@, 16) is Ok && !crate::crypto::argon2_accepts(
            encode_utf8(password@).len(),
            header.argon_memory_kib,
            header.argon_iterations,
            header.argon_parallelism,
        ) ==> result == Err::<(), VaultError>(VaultError::Crypto),
        spec_decode_field(header.salt@, 16) is Ok && crate::crypto::argon2_accepts(
            encode_utf8(password@).len(),
            header.argon_memory_kib,
            header.argon_iterations,
            header.argon_parallelism,
        ) && !(spec_header_password_key(*header, password@) matches Some(k) && spec_unwrap_root(
            *header,
            k,
        ) == Ok::<Seq<u8>, VaultError>(expected_root@)) ==> result == Err::<(), VaultError>(
            VaultError::InvalidPassword,
        ),
        spec_header_password_key(*header, password@) matches Some(k) && spec_unwrap_root(*header, k)
            == Ok::<Seq<u8>, VaultError>(expected_root@) && crate::crypto::argon2_accepts(
            encode_utf8(password@).len(),
            header.argon_memory_kib,
            header.argon_iterations,
            header.argon_parallelism,
        ) ==> same_check(
            passed(result),
            refusal(
                spec_verifier_check(
                    *header,
                    expected_root@,
                    spec_root_verifier_aad(*header),
                    root_verifier_plaintext(),
                    VaultError::AuthenticationFailed,
                ),
            ),
        ),
{
    let salt = decode_array_16(header.salt.as_str())?;
    let password_key = derive_password_key(
        password,
        &salt,
        header.argon_memory_kib,
        header.argon_iterations,
        header.argon_parallelism,
    )?;
    let root_key = match unwrap_root_key(header, &password_key) {
        Ok(k) => k,
        Err(_) => return Err(VaultError::InvalidPassword),
    };
    if !crate::crypto::constant_time_eq(&root_key, expected_root) {
        return Err(VaultError::InvalidPassword);
    }
    if !verify_root_verifier(header, &root_key)? {
        return Err(VaultError::AuthenticationFailed);
    }
    proof {
        assert(root_key@ == expected_root@);
    }
    Ok(())
}

/// The prefix of a recovery key's text.
pub open spec fn recovery_prefix() -> Seq<char> {
    "NDSECURE-R1-"@
}

/// The recovery key's text: the prefix, then URL-safe Base64 of its bytes.
pub open spec fn spec_recovery_text(key: Seq<u8>) -> Seq<char> {
    recovery_prefix() + base64_url_encode(key)
}

/// Writes a recovery key for the user; reading the text back gives the
/// key.
pub fn recovery_key_text(key: &[u8; 32]) -> (result: RecoveryKey)
    ensures
        result.recovery_key@ == spec_recovery_text(key@),
        spec_decode_recovery_key(result.recovery_key@) == Ok::<Seq<u8>, Seq<char>>(key@),
{
    proof {
        reveal_strlit("NDSECURE-R1-");
    }
    let encoded = crate::encoding::url_encode(key);
    let text = String::from_str("NDSECURE-R1-").concat(encoded.as_str());
    proof {
        let t = text@;
        assert(t == recovery_prefix() + encoded@);
        assert(t.len() == 12 + encoded@.len());
        assert(!crate::text::is_unicode_whitespace(t[0]));
        assert(crate::text::spec_trim_start(t) == t);
        let last = t.last();
        assert(last == encoded@[encoded@.len() - 1]);
        assert(crate::encoding::is_url_safe_char(last));
        assert(!crate::text::is_unicode_whitespace(last));
        assert(crate::text::spec_trim_end(t) == t);
        assert(spec_trim(t) == t);
        assert(t.subrange(0, 12) =~= recovery_prefix());
        assert(t.skip(12) =~= encoded@);
    }
    RecoveryKey { recovery_key: text }
}

/// The bytes of a recovery key the user typed, or the detail of the error.
pub open spec fn spec_decode_recovery_key(value: Seq<char>) -> Result<Seq<u8>, Seq<char>> {
    let t = spec_trim(value);
    if !crate::text::spec_starts_with(t, recovery_prefix()) {
        Err("invalid recovery-key format"@)
    } else {
        match base64_url_decode(encode_utf8(t.skip(12))) {
            None => Err("invalid recovery-key encoding"@),
            Some(b) => if b.len() == 32 {
                Ok(b)
            } else {
                Err("invalid recovery-key length"@)
            },
        }
    }
}

/// A recovery key reads the same with white space around it, as when it is
/// pasted with a trailing newline: decoding `ws1 + text + ws2` gives what
/// decoding `text` gives. So the text `recovery_key_text` writes for a key,
/// padded with white space, still decodes to that key.
pub proof fn lemma_recovery_key_ignores_padding(ws1: Seq<char>, text: Seq<char>, ws2: Seq<char>)
    requires
        crate::text::all_whitespace(ws1),
        crate::text::all_whitespace(ws2),
    ensures
        spec_decode_recovery_key(ws1 + text + ws2) == spec_decode_recovery_key(text),
{
    crate::text::lemma_trim_ignores_padding(ws1, text, ws2);
}

/// Only a 32-byte key written after the recovery prefix is read: a text
/// whose trimmed form lacks the prefix is refused, and every key read has
/// 32 bytes and is the URL-safe Base64 decoding of what follows the
/// prefix.
pub proof fn lemma_recovery_key_shape(value: Seq<char>)
    ensures
        !crate::text::spec_starts_with(spec_trim(value), recovery_prefix()) ==> spec_decode_recovery_key(value) is Err,
        spec_decode_recovery_key(value) matches Ok(k) ==> k.len() == 32 && base64_url_decode(
            encode_utf8(spec_trim(value).skip(12)),
        ) == Some(k),
{
}

/// Reads a recovery key the user typed.
pub fn decode_recovery_key(value: &str) -> (result: Result<[u8; 32], VaultError>)
    ensures
        match spec_decode_recovery_key(value@) {
            Ok(b) => result matches Ok(k) && k@ == b,
            Err(d) => result matches Err(VaultError::InvalidInput(m)) && m@ == d,
        },
{
    proof {
        reveal_strlit("NDSECURE-R1-");
    }
    let chars = chars_of(value);
    let t = trim(chars.as_slice());
    let encoded = match crate::text::strip_prefix(t.as_slice(), "NDSECURE-R1-") {
        Some(rest) => rest,
        None => return Err(invalid_input("invalid recovery-key format")),
    };
    let text = crate::text::string_from_chars(encoded.as_slice());
    let decoded = match crate::encoding::url_decode(text.as_str().as_bytes()) {
        Some(d) => d,
        None => return Err(invalid_input("invalid recovery-key encoding")),
    };
    if decoded.len() != 32 {
        return Err(invalid_input("invalid recovery-key length"));
    }
    Ok(array_32(&decoded))
}

/// Opening a recovery key's text and then its envelope.
pub fn recovery_root(header: &VaultHeader, recovery_text: &str) -> (result: Result<[u8; 32], VaultError>)
    ensures
        match spec_decode_recovery_key(recovery_text@) {
            Err(d) => result matches Err(VaultError::InvalidInput(m)) && m@ == d,
            Ok(key) => same_outcome(key_result(result), spec_unwrap_recovery(*header, key)),
        },
{
    let key = decode_recovery_key(recovery_text)?;
    unwrap_recovery_root(header, &key)
}

/// Brings a version-1 or version-2 header to the current version: the
/// password key becomes the root key, a fresh vault id and envelope are
/// written, recovery is cleared and the new settings take their defaults;
/// a version-1 header also turns source removal off.
pub fn migrate_header_to_v3(header: &mut VaultHeader, password_key: &[u8; 32], root_key: &[u8; 32]) -> (result:
    Result<(), VaultError>)
    ensures
        result is Ok ==> {
            &&& final(header).version == HEADER_VERSION
            &&& old(header).version == LEGACY_HEADER_VERSION ==> !final(header).delete_source_after_import
            &&& old(header).version != LEGACY_HEADER_VERSION ==> final(header).delete_source_after_import
                == old(header).delete_source_after_import
            &&& final(header).recovery_nonce@.len() == 0
            &&& final(header).recovery_ciphertext@.len() == 0
            &&& !final(header).lock_on_blur
            &&& final(header).lock_on_suspend
            &&& final(header).clipboard_timeout_seconds == DEFAULT_CLIPBOARD_TIMEOUT_SECONDS
            &&& final(header).salt == old(header).salt
            &&& final(header).argon_memory_kib == old(header).argon_memory_kib
            &&& final(header).argon_iterations == old(header).argon_iterations
            &&& final(header).argon_parallelism == old(header).argon_parallelism
            &&& final(header).auto_lock_seconds == old(header).auto_lock_seconds
            &&& spec_unwrap_root(*final(header), password_key@) == Ok::<Seq<u8>, VaultError>(root_key@)
        },
        result is Ok <==> fits(field_bytes(old(header).salt)),
        result matches Err(e) ==> (e matches VaultError::InvalidInput(d) && d@
            == "vault header field is too long"@),
{
    if header.version == LEGACY_HEADER_VERSION {
        header.delete_source_after_import = false;
    }
    header.version = HEADER_VERSION;
    header.vault_id = crate::encoding::url_encode(&crate::crypto::random_16());
    header.wrapped_root_nonce = String::new();
    header.wrapped_root_ciphertext = String::new();
    header.recovery_nonce = String::new();
    header.recovery_ciphertext = String::new();
    header.lock_on_blur = false;
    header.lock_on_suspend = true;
    header.clipboard_timeout_seconds = DEFAULT_CLIPBOARD_TIMEOUT_SECONDS;
    proof {
        reveal_strlit("kh.zila.ndsecure/header/root-wrap/v1");
        assert(field_bytes(header.recovery_nonce).len() == 0);
        assert(field_bytes(header.recovery_ciphertext).len() == 0);
        assert(field_bytes(header.vault_id).len() == 22);
    }
    wrap_root_key(header, password_key, root_key)?;
    let ghost wrapped = *header;
    proof {
        assert(verifier_fields_fit(wrapped));
    }
    let sealed = seal_root_verifier(header, root_key);
    proof {
        assert(spec_root_wrap_aad(*header) == spec_root_wrap_aad(wrapped));
        assert(spec_unwrap_root(*header, password_key@) == spec_unwrap_root(wrapped, password_key@));
    }
    sealed
}

/// Seals a new recovery envelope of the root key under a fresh random
/// recovery key, and gives that key.
pub fn add_recovery_envelope(header: &mut VaultHeader, root_key: &[u8; 32]) -> (result: Result<
    [u8; 32],
    VaultError,
>)
    ensures
        result matches Ok(key) ==> exists|nonce: Seq<u8>|
            nonce.len() == 12 && final(header).recovery_nonce@ == base64_standard_encode(nonce) && (
            spec_recovery_wrap_aad(*old(header)) matches Some(aad) && final(header).recovery_ciphertext@
                == base64_standard_encode(
                aes256gcm_seal(spec_domain_key(key@, recovery_wrap_domain()), nonce, aad, root_key@),
            )),
        result is Ok ==> final(header).version == old(header).version && final(header).vault_id
            == old(header).vault_id,
        result is Ok ==> same_but_recovery(*old(header), *final(header)),
        result matches Ok(key) ==> spec_unwrap_recovery(*final(header), key@) == Ok::<Seq<u8>, VaultError>(
            root_key@,
        ),
        result is Ok <==> fits(field_bytes(old(header).vault_id)),
        result is Ok ==> field_bytes(final(header).recovery_nonce).len() == 16 && field_bytes(
            final(header).recovery_ciphertext,
        ).len() == 64,
        result is Err ==> *final(header) == *old(header) && (result matches Err(VaultError::InvalidInput(d))
            && d@ == "vault header field is too long"@),
{
    let recovery_key = crate::crypto::random_32();
    let nonce = crate::crypto::random_12();
    proof {
        reveal_strlit("nd-secure/recovery-wrap-key/v1");
    }
    let domain = ascii_bytes("nd-secure/recovery-wrap-key/v1");
    let wrap_key = derive_domain_key(&recovery_key, domain.as_slice())?;
    let aad = recovery_wrap_aad(header)?;
    proof {
        reveal_strlit("kh.zila.ndsecure/header/recovery-wrap/v1");
        assert(aad@.len() <= AEAD_MAX_BYTES);
    }
    let ciphertext = crate::crypto::aead_seal(&wrap_key, &nonce, aad.as_slice(), root_key)?;
    let ghost before = *header;
    header.recovery_nonce = crate::encoding::standard_encode(&nonce);
    header.recovery_ciphertext = crate::encoding::standard_encode(ciphertext.as_slice());
    proof {
        assert(nonce@.len() == 12 && header.recovery_nonce@ == base64_standard_encode(nonce@));
        assert(domain@ == recovery_wrap_domain());
        assert(spec_recovery_wrap_aad(*header) == spec_recovery_wrap_aad(before));
        assert(spec_decode_field(header.recovery_nonce@, 12) == Ok::<Seq<u8>, Seq<char>>(nonce@));
    }
    Ok(recovery_key)
}

/// An open session: the root key and when it was last used and confirmed,
/// in monotonic milliseconds.
pub struct UnlockedSession {
    pub root_key: [u8; 32],
    pub last_activity: u64,
    pub reauthenticated_at: Option<u64>,
}

/// The session's state: whether it is open, its settings, and the failed
/// unlock attempts with the time until which unlocking is refused.
pub struct SessionCore {
    pub unlocked: Option<UnlockedSession>,
    pub auto_lock_seconds: u64,
    pub delete_source_after_import: bool,
    pub lock_on_blur: bool,
    pub lock_on_suspend: bool,
    pub clipboard_timeout_seconds: u64,
    pub recovery_configured: bool,
    pub failed: u32,
    pub blocked_until: Option<u64>,
}

/// `x` held between `low` and `high`.
pub open spec fn clamp(x: u64, low: u64, high: u64) -> u64 {
    if x < low {
        low
    } else if x > high {
        high
    } else {
        x
    }
}

fn clamp_u64(x: u64, low: u64, high: u64) -> (result: u64)
    requires
        low <= high,
    ensures
        result == clamp(x, low, high),
{
    if x < low {
        low
    } else if x > high {
        high
    } else {
        x
    }
}

/// Milliseconds from `then` to `now`, zero if `now` is earlier.
pub open spec fn elapsed(now: u64, then: u64) -> u64 {
    if now >= then {
        (now - then) as u64
    } else {
        0
    }
}

/// An open session expires once it has been idle for the auto-lock time,
/// never less than a minute.
pub open spec fn idle_expired(now: u64, last_activity: u64, auto_lock_seconds: u64) -> bool {
    elapsed(now, last_activity) >= 1000 * (if auto_lock_seconds < MIN_AUTO_LOCK_SECONDS {
        MIN_AUTO_LOCK_SECONDS
    } else {
        auto_lock_seconds
    })
}

/// The refusal time after `failed` failed attempts: 1, 2, 4, 8, 16 and
/// then 30 seconds.
pub open spec fn backoff_seconds(failed: u32) -> u64 {
    if failed <= 1 {
        1
    } else if failed == 2 {
        2
    } else if failed == 3 {
        4
    } else if failed == 4 {
        8
    } else if failed == 5 {
        16
    } else {
        30
    }
}

/// `now` plus `ms`, or `u64::MAX`.
pub open spec fn later(now: u64, ms: u64) -> u64 {
    if now + ms > u64::MAX {
        u64::MAX
    } else {
        (now + ms) as u64
    }
}

impl SessionCore {
    /// The session of a vault whose stored header, if any, is `existing`:
    /// locked, with the header's settings brought into range, and defaults
    /// where there is no header.
    pub fn new(existing: Option<&VaultHeader>) -> (result: Self)
        ensures
            result.unlocked is None,
            result.failed == 0,
            result.blocked_until is None,
            match existing {
                Some(h) => {
                    &&& result.auto_lock_seconds == clamp(
                        h.auto_lock_seconds,
                        MIN_AUTO_LOCK_SECONDS,
                        MAX_AUTO_LOCK_SECONDS,
                    )
                    &&& result.delete_source_after_import == (h.version >= PREVIOUS_HEADER_VERSION
                        && h.delete_source_after_import)
                    &&& result.lock_on_blur == h.lock_on_blur
                    &&& result.lock_on_suspend == h.lock_on_suspend
                    &&& result.clipboard_timeout_seconds == clamp(
                        h.clipboard_timeout_seconds,
                        MIN_CLIPBOARD_TIMEOUT_SECONDS,
                        MAX_CLIPBOARD_TIMEOUT_SECONDS,
                    )
                    &&& result.recovery_configured == spec_recovery_configured(*h)
                },
                None => {
                    &&& result.auto_lock_seconds == DEFAULT_AUTO_LOCK_SECONDS
                    &&& !result.delete_source_after_import
                    &&& !result.lock_on_blur
                    &&& result.lock_on_suspend
                    &&& result.clipboard_timeout_seconds == DEFAULT_CLIPBOARD_TIMEOUT_SECONDS
                    &&& !result.recovery_configured
                },
            },
    {
        match existing {
            Some(h) => SessionCore {
                unlocked: None,
                auto_lock_seconds: clamp_u64(
                    h.auto_lock_seconds,
                    MIN_AUTO_LOCK_SECONDS,
                    MAX_AUTO_LOCK_SECONDS,
                ),
                delete_source_after_import: h.version >= PREVIOUS_HEADER_VERSION
                    && h.delete_source_after_import,
                lock_on_blur: h.lock_on_blur,
                lock_on_suspend: h.lock_on_suspend,
                clipboard_timeout_seconds: clamp_u64(
                    h.clipboard_timeout_seconds,
                    MIN_CLIPBOARD_TIMEOUT_SECONDS,
                    MAX_CLIPBOARD_TIMEOUT_SECONDS,
                ),
                recovery_configured: recovery_is_configured(h),
                failed: 0,
                blocked_until: None,
            },
            None => SessionCore {
                unlocked: None,
                auto_lock_seconds: DEFAULT_AUTO_LOCK_SECONDS,
                delete_source_after_import: false,
                lock_on_blur: false,
                lock_on_suspend: true,
                clipboard_timeout_seconds: DEFAULT_CLIPBOARD_TIMEOUT_SECONDS,
                recovery_configured: false,
                failed: 0,
                blocked_until: None,
            },
        }
    }

    /// Locks an open session that has been idle too long.
    pub fn expire_if_idle(&mut self, now: u64)
        ensures
            (old(self).unlocked matches Some(u) && idle_expired(
                now,
                u.last_activity,
                old(self).auto_lock_seconds,
            )) ==> final(self).unlocked is None,
            !(old(self).unlocked matches Some(u) && idle_expired(
                now,
                u.last_activity,
                old(self).auto_lock_seconds,
            )) ==> final(self).unlocked == old(self).unlocked,
            final(self).auto_lock_seconds == old(self).auto_lock_seconds,
            final(self).delete_source_after_import == old(self).delete_source_after_import,
            final(self).lock_on_blur == old(self).lock_on_blur,
            final(self).lock_on_suspend == old(self).lock_on_suspend,
            final(self).clipboard_timeout_seconds == old(self).clipboard_timeout_seconds,
            final(self).recovery_configured == old(self).recovery_configured,
            final(self).failed == old(self).failed,
            final(self).blocked_until == old(self).blocked_until,
    {
        let limit_seconds = if self.auto_lock_seconds < MIN_AUTO_LOCK_SECONDS {
            MIN_AUTO_LOCK_SECONDS
        } else {
            self.auto_lock_seconds
        };
        let expired = match &self.unlocked {
            Some(u) => {
                let idle = if now >= u.last_activity {
                    now - u.last_activity
                } else {
                    0
                };
                limit_seconds <= u64::MAX / 1000 && idle >= 1000 * limit_seconds
            },
            None => false,
        };
        if expired {
            self.unlocked = None;
        }
    }

    /// The session as the interface shows it, after idle expiry; a
    /// confirmation counts as recent for two minutes.
    pub fn status(&mut self, now: u64, initialized: bool) -> (result: SessionStatus)
        ensures
            result.initialized == initialized,
            result.locked == final(self).unlocked is None,
            result.auto_lock_seconds == final(self).auto_lock_seconds,
            result.delete_source_after_import == final(self).delete_source_after_import,
            result.lock_on_blur == final(self).lock_on_blur,
            result.lock_on_suspend == final(self).lock_on_suspend,
            result.clipboard_timeout_seconds == final(self).clipboard_timeout_seconds,
            result.recovery_configured == final(self).recovery_configured,
            result.recently_reauthenticated == (final(self).unlocked matches Some(u) && (
            u.reauthenticated_at matches Some(t) && elapsed(now, t) < 1000 * REAUTH_WINDOW_SECONDS)),
            final(self).auto_lock_seconds == old(self).auto_lock_seconds,
            final(self).failed == old(self).failed,
            final(self).blocked_until == old(self).blocked_until,
    {
        self.expire_if_idle(now);
        let recent = match &self.unlocked {
            Some(u) => match u.reauthenticated_at {
                Some(t) => {
                    let since = if now >= t {
                        now - t
                    } else {
                        0
                    };
                    since < 1000 * REAUTH_WINDOW_SECONDS
                },
                None => false,
            },
            None => false,
        };
        SessionStatus {
            initialized,
            locked: self.unlocked.is_none(),
            auto_lock_seconds: self.auto_lock_seconds,
            delete_source_after_import: self.delete_source_after_import,
            lock_on_blur: self.lock_on_blur,
            lock_on_suspend: self.lock_on_suspend,
            clipboard_timeout_seconds: self.clipboard_timeout_seconds,
            recovery_configured: self.recovery_configured,
            recently_reauthenticated: recent,
        }
    }

    /// Refuses an unlock attempt while a failed attempt's refusal lasts.
    pub fn check_attempt_limit(&self, now: u64) -> (result: Result<(), VaultError>)
        ensures
            result is Ok <==> !(self.blocked_until matches Some(d) && d > now),
            result matches Err(e) ==> e == VaultError::RateLimited,
    {
        match self.blocked_until {
            Some(deadline) => if deadline > now {
                Err(VaultError::RateLimited)
            } else {
                Ok(())
            },
            None => Ok(()),
        }
    }

    /// Counts a failed attempt and refuses further ones for a time that
    /// doubles from one second up to thirty.
    pub fn record_failed_attempt(&mut self, now: u64)
        ensures
            final(self).failed == (if old(self).failed == u32::MAX {
                u32::MAX
            } else {
                (old(self).failed + 1) as u32
            }),
            final(self).blocked_until == Some(later(now, (1000 * backoff_seconds(final(self).failed)) as u64)),
            final(self).unlocked == old(self).unlocked,
            final(self).auto_lock_seconds == old(self).auto_lock_seconds,
            final(self).delete_source_after_import == old(self).delete_source_after_import,
            final(self).lock_on_blur == old(self).lock_on_blur,
            final(self).lock_on_suspend == old(self).lock_on_suspend,
            final(self).clipboard_timeout_seconds == old(self).clipboard_timeout_seconds,
            final(self).recovery_configured == old(self).recovery_configured,
    {
        self.failed = self.failed.saturating_add(1);
        let shift = if self.failed - 1 < 5 {
            self.failed - 1
        } else {
            5
        };
        let power: u64 = 1u64 << (shift as u64);
        let seconds = if power < 30 {
            power
        } else {
            30
        };
        proof {
            assert(shift <= 5);
            assert(1u64 << 0u64 == 1) by (bit_vector);
            assert(1u64 << 1u64 == 2) by (bit_vector);
            assert(1u64 << 2u64 == 4) by (bit_vector);
            assert(1u64 << 3u64 == 8) by (bit_vector);
            assert(1u64 << 4u64 == 16) by (bit_vector);
            assert(1u64 << 5u64 == 32) by (bit_vector);
        }
        self.blocked_until = Some(now.saturating_add(seconds * 1000));
    }

    /// Forgets failed attempts.
    pub fn reset_attempts(&mut self)
        ensures
            final(self).failed == 0,
            final(self).blocked_until is None,
            final(self).unlocked == old(self).unlocked,
            final(self).auto_lock_seconds == old(self).auto_lock_seconds,
            final(self).delete_source_after_import == old(self).delete_source_after_import,
            final(self).lock_on_blur == old(self).lock_on_blur,
            final(self).lock_on_suspend == old(self).lock_on_suspend,
            final(self).clipboard_timeout_seconds == old(self).clipboard_timeout_seconds,
            final(self).recovery_configured == old(self).recovery_configured,
    {
        self.failed = 0;
        self.blocked_until = None;
    }

    /// Records activity of an open session; a locked or expired session is
    /// `Locked`.
    pub fn touch(&mut self, now: u64) -> (result: Result<(), VaultError>)
        ensures
            ({
                let live = old(self).unlocked matches Some(u) && !idle_expired(
                    now,
                    u.last_activity,
                    old(self).auto_lock_seconds,
                );
                &&& result is Ok <==> live
                &&& result matches Err(e) ==> e == VaultError::Locked && final(self).unlocked is None
                &&& result is Ok ==> (final(self).unlocked matches Some(u) && old(self).unlocked matches Some(
                    o,
                ) && u.last_activity == now && u.root_key == o.root_key && u.reauthenticated_at
                    == o.reauthenticated_at)
            }),
            final(self).auto_lock_seconds == old(self).auto_lock_seconds,
            final(self).failed == old(self).failed,
            final(self).blocked_until == old(self).blocked_until,
    {
        self.expire_if_idle(now);
        match &mut self.unlocked {
            Some(u) => {
                u.last_activity = now;
                Ok(())
            },
            None => Err(VaultError::Locked),
        }
    }

    /// The root key of an open session, which counts as activity.
    pub fn root_key_copy(&mut self, now: u64) -> (result: Result<[u8; 32], VaultError>)
        ensures
            ({
                let live = old(self).unlocked matches Some(u) && !idle_expired(
                    now,
                    u.last_activity,
                    old(self).auto_lock_seconds,
                );
                &&& result is Ok <==> live
                &&& result matches Err(e) ==> e == VaultError::Locked
                &&& result matches Ok(k) ==> (old(self).unlocked matches Some(o) && k == o.root_key)
                &&& result matches Ok(k) ==> (final(self).unlocked matches Some(u) && old(self).unlocked matches Some(
                    o,
                ) && u.root_key == k && u.last_activity == now && u.reauthenticated_at
                    == o.reauthenticated_at)
            }),
            final(self).auto_lock_seconds == old(self).auto_lock_seconds,
            final(self).failed == old(self).failed,
            final(self).blocked_until == old(self).blocked_until,
    {
        self.touch(now)?;
        match &self.unlocked {
            Some(u) => Ok(u.root_key),
            None => Err(VaultError::Locked),
        }
    }

    /// The key of one vault domain, from an open session's root key.
    pub fn domain_key(&mut self, now: u64, domain: &[u8]) -> (result: Result<[u8; 32], VaultError>)
        ensures
            ({
                let live = old(self).unlocked matches Some(u) && !idle_expired(
                    now,
                    u.last_activity,
                    old(self).auto_lock_seconds,
                );
                &&& result is Ok <==> live
                &&& result matches Err(e) ==> e == VaultError::Locked
                &&& result matches Ok(k) ==> (old(self).unlocked matches Some(o) && k@
                    == spec_domain_key(o.root_key@, domain@))
            }),
    {
        let root = self.root_key_copy(now)?;
        derive_domain_key(&root, domain)
    }

    /// Allows a sensitive action only within two minutes of a password
    /// confirmation.
    pub fn require_recent_reauthentication(&mut self, now: u64) -> (result: Result<(), VaultError>)
        ensures
            (old(self).unlocked matches Some(u) && !idle_expired(
                now,
                u.last_activity,
                old(self).auto_lock_seconds,
            )) ==> match old(self).unlocked {
                Some(u) => if u.reauthenticated_at matches Some(t) && elapsed(now, t) < 1000
                    * REAUTH_WINDOW_SECONDS {
                    result is Ok
                } else {
                    result matches Err(VaultError::InvalidInput(d)) && d@
                        == "master-password confirmation is required for this action"@
                },
                None => false,
            },
            !(old(self).unlocked matches Some(u) && !idle_expired(
                now,
                u.last_activity,
                old(self).auto_lock_seconds,
            )) ==> result == Err::<(), VaultError>(VaultError::Locked),
            result is Ok ==> (final(self).unlocked matches Some(u) && old(self).unlocked matches Some(o)
                && u.last_activity == now && u.root_key == o.root_key && u.reauthenticated_at
                == o.reauthenticated_at),
            result is Ok <==> (spec_live_root(*old(self), now) is Some && (old(self).unlocked matches Some(u)
                && spec_recently_confirmed(u, now))),
    {
        self.expire_if_idle(now);
        match &mut self.unlocked {
            None => Err(VaultError::Locked),
            Some(u) => {
                let valid = match u.reauthenticated_at {
                    Some(t) => {
                        let since = if now >= t {
                            now - t
                        } else {
                            0
                        };
                        since < 1000 * REAUTH_WINDOW_SECONDS
                    },
                    None => false,
                };
                if !valid {
                    return Err(invalid_input("master-password confirmation is required for this action"));
                }
                u.last_activity = now;
                Ok(())
            },
        }
    }

    /// Locks the session.
    pub fn lock(&mut self)
        ensures
            final(self).unlocked is None,
            final(self).auto_lock_seconds == old(self).auto_lock_seconds,
            final(self).failed == old(self).failed,
            final(self).blocked_until == old(self).blocked_until,
    {
        self.unlocked = None;
    }

    /// Takes the settings of a header just written, and the session to hold.
    pub fn apply_header(&mut self, header: &VaultHeader, unlocked: Option<UnlockedSession>)
        ensures
            final(self).auto_lock_seconds == header.auto_lock_seconds,
            final(self).delete_source_after_import == header.delete_source_after_import,
            final(self).lock_on_blur == header.lock_on_blur,
            final(self).lock_on_suspend == header.lock_on_suspend,
            final(self).clipboard_timeout_seconds == header.clipboard_timeout_seconds,
            final(self).recovery_configured == spec_recovery_configured(*header),
            final(self).unlocked == unlocked,
            final(self).failed == old(self).failed,
            final(self).blocked_until == old(self).blocked_until,
    {
        self.auto_lock_seconds = header.auto_lock_seconds;
        self.delete_source_after_import = header.delete_source_after_import;
        self.lock_on_blur = header.lock_on_blur;
        self.lock_on_suspend = header.lock_on_suspend;
        self.clipboard_timeout_seconds = header.clipboard_timeout_seconds;
        self.recovery_configured = recovery_is_configured(header);
        self.unlocked = unlocked;
    }
}

/// An auto-lock time the user may choose: one minute to one day.
pub fn validate_auto_lock(seconds: u64) -> (result: Result<(), VaultError>)
    ensures
        result is Ok <==> MIN_AUTO_LOCK_SECONDS <= seconds <= MAX_AUTO_LOCK_SECONDS,
        result matches Err(VaultError::InvalidInput(d)) ==> d@
            == "auto-lock must be between 60 and 86400 seconds"@,
        result is Err ==> result matches Err(VaultError::InvalidInput(_)),
{
    if seconds < MIN_AUTO_LOCK_SECONDS || seconds > MAX_AUTO_LOCK_SECONDS {
        return Err(invalid_input("auto-lock must be between 60 and 86400 seconds"));
    }
    Ok(())
}

/// A clipboard timeout the user may choose: five seconds to five minutes.
pub fn validate_clipboard_timeout(seconds: u64) -> (result: Result<(), VaultError>)
    ensures
        result is Ok <==> MIN_CLIPBOARD_TIMEOUT_SECONDS <= seconds <= MAX_CLIPBOARD_TIMEOUT_SECONDS,
        result matches Err(VaultError::InvalidInput(d)) ==> d@
            == "clipboard timeout must be between 5 and 300 seconds"@,
        result is Err ==> result matches Err(VaultError::InvalidInput(_)),
{
    if seconds < MIN_CLIPBOARD_TIMEOUT_SECONDS || seconds > MAX_CLIPBOARD_TIMEOUT_SECONDS {
        return Err(invalid_input("clipboard timeout must be between 5 and 300 seconds"));
    }
    Ok(())
}

/// A fresh header for a new vault, and the root key it wraps.
pub fn initial_header(exists: bool, password: &str, auto_lock_seconds: u64) -> (result: Result<
    (VaultHeader, [u8; 32]),
    VaultError,
>)
    ensures
        exists ==> result == Err::<(VaultHeader, [u8; 32]), VaultError>(
            VaultError::AlreadyInitialized,
        ),
        !exists && password@.len() < MIN_PASSWORD_CHARS ==> result == Err::<
            (VaultHeader, [u8; 32]),
            VaultError,
        >(VaultError::WeakPassword),
        result matches Ok((h, _)) ==> {
            &&& h.version == HEADER_VERSION
            &&& h.auto_lock_seconds == clamp(
                auto_lock_seconds,
                MIN_AUTO_LOCK_SECONDS,
                MAX_AUTO_LOCK_SECONDS,
            )
            &&& !h.delete_source_after_import && !h.lock_on_blur && h.lock_on_suspend
            &&& h.clipboard_timeout_seconds == DEFAULT_CLIPBOARD_TIMEOUT_SECONDS
            &&& h.argon_memory_kib == DEFAULT_ARGON_MEMORY_KIB
            &&& h.argon_iterations == DEFAULT_ARGON_ITERATIONS
            &&& h.argon_parallelism == DEFAULT_ARGON_PARALLELISM
            &&& !spec_recovery_configured(h)
        },
        result is Ok <==> !exists && password@.len() >= MIN_PASSWORD_CHARS && encode_utf8(password@).len()
            <= 0xFFFFFFFF,
        result matches Ok((h, root)) ==> spec_authentic(h, root@) && spec_opens_with_password(
            h,
            password@,
            root@,
        ),
{
    if exists {
        return Err(VaultError::AlreadyInitialized);
    }
    validate_password(password)?;
    let auto_lock = clamp_u64(auto_lock_seconds, MIN_AUTO_LOCK_SECONDS, MAX_AUTO_LOCK_SECONDS);
    let salt = crate::crypto::random_16();
    let password_key = derive_password_key(
        password,
        &salt,
        DEFAULT_ARGON_MEMORY_KIB,
        DEFAULT_ARGON_ITERATIONS,
        DEFAULT_ARGON_PARALLELISM,
    )?;
    let root_key = crate::crypto::random_32();
    let mut header = VaultHeader {
        version: HEADER_VERSION,
        salt: crate::encoding::standard_encode(&salt),
        argon_memory_kib: DEFAULT_ARGON_MEMORY_KIB,
        argon_iterations: DEFAULT_ARGON_ITERATIONS,
        argon_parallelism: DEFAULT_ARGON_PARALLELISM,
        verifier_nonce: String::new(),
        verifier_ciphertext: String::new(),
        auto_lock_seconds: auto_lock,
        delete_source_after_import: false,
        vault_id: crate::encoding::url_encode(&crate::crypto::random_16()),
        wrapped_root_nonce: String::new(),
        wrapped_root_ciphertext: String::new(),
        recovery_nonce: String::new(),
        recovery_ciphertext: String::new(),
        lock_on_blur: false,
        lock_on_suspend: true,
        clipboard_timeout_seconds: DEFAULT_CLIPBOARD_TIMEOUT_SECONDS,
    };
    proof {
        reveal_strlit("kh.zila.ndsecure/header/root-wrap/v1");
        assert(spec_decode_field(header.salt@, 16) == Ok::<Seq<u8>, Seq<char>>(salt@));
        assert(field_bytes(header.salt).len() == 24);
        assert(field_bytes(header.vault_id).len() == 22);
        assert(field_bytes(header.recovery_nonce).len() == 0);
        assert(field_bytes(header.recovery_ciphertext).len() == 0);
    }
    let wrapped_result = wrap_root_key(&mut header, &password_key, &root_key);
    proof {
        assert(wrapped_result is Ok);
    }
    let ghost wrapped = header;
    proof {
        assert(verifier_fields_fit(wrapped));
    }
    let sealed = seal_root_verifier(&mut header, &root_key);
    proof {
        assert(sealed is Ok);
        assert(spec_root_wrap_aad(header) == spec_root_wrap_aad(wrapped));
        assert(spec_unwrap_root(header, password_key@) == spec_unwrap_root(wrapped, password_key@));
        assert(spec_header_password_key(header, password@) == Some(password_key@));
        if header.wrapped_root_nonce@.len() == 0 {
            assert(field_bytes(header.wrapped_root_nonce).len() == 0);
        }
        if header.wrapped_root_ciphertext@.len() == 0 {
            assert(field_bytes(header.wrapped_root_ciphertext).len() == 0);
        }
        if header.vault_id@.len() == 0 {
            assert(field_bytes(header.vault_id).len() == 0);
        }
    }
    Ok((header, root_key))
}

/// A header a session can act on with `root`: valid, current, and its
/// verifier holds under `root`.
pub open spec fn spec_authentic(h: VaultHeader, root: Seq<u8>) -> bool {
    &&& spec_header_params_ok(h)
    &&& spec_envelope_ok(h)
    &&& h.version == HEADER_VERSION
    &&& spec_verifier_check(
        h,
        root,
        spec_root_verifier_aad(h),
        root_verifier_plaintext(),
        VaultError::AuthenticationFailed,
    ) == Ok::<bool, VaultError>(true)
}

/// The header to use for a request: it must exist and be valid.
pub fn present_header(header: Option<VaultHeader>) -> (result: Result<VaultHeader, VaultError>)
    ensures
        match header {
            None => result == Err::<VaultHeader, VaultError>(VaultError::NotInitialized),
            Some(h) => if !spec_header_params_ok(h) || !spec_envelope_ok(h) {
                result matches Err(VaultError::InvalidInput(_))
            } else {
                result == Ok::<VaultHeader, VaultError>(h)
            },
        },
{
    match header {
        None => Err(VaultError::NotInitialized),
        Some(h) => {
            validate_header(&h)?;
            Ok(h)
        },
    }
}

/// The root key of a session that is open and not idle past its
/// auto-lock time at `now`.
pub open spec fn spec_live_root(s: SessionCore, now: u64) -> Option<[u8; 32]> {
    match s.unlocked {
        Some(u) => if idle_expired(now, u.last_activity, s.auto_lock_seconds) {
            None
        } else {
            Some(u.root_key)
        },
        None => None,
    }
}

/// Password attempts are refused at `now`.
pub open spec fn spec_blocked(s: SessionCore, now: u64) -> bool {
    s.blocked_until matches Some(d) && d > now
}

/// The two headers agree on all but the verifier and the recovery
/// envelope.
pub open spec fn same_settings(a: VaultHeader, b: VaultHeader) -> bool {
    &&& a.version == b.version && a.salt == b.salt && a.argon_memory_kib == b.argon_memory_kib
    &&& a.argon_iterations == b.argon_iterations && a.argon_parallelism == b.argon_parallelism
    &&& a.auto_lock_seconds == b.auto_lock_seconds
    &&& a.delete_source_after_import == b.delete_source_after_import
    &&& a.vault_id == b.vault_id && a.wrapped_root_nonce == b.wrapped_root_nonce
    &&& a.wrapped_root_ciphertext == b.wrapped_root_ciphertext
    &&& a.lock_on_blur == b.lock_on_blur && a.lock_on_suspend == b.lock_on_suspend
    &&& a.clipboard_timeout_seconds == b.clipboard_timeout_seconds
}

/// The password's key can be derived: the header's salt decodes to 16
/// bytes and Argon2 accepts the password and parameters.
pub open spec fn spec_derives(h: VaultHeader, password: Seq<char>) -> bool {
    &&& spec_decode_field(h.salt@, 16) is Ok
    &&& crate::crypto::argon2_accepts(
        encode_utf8(password).len(),
        h.argon_memory_kib,
        h.argon_iterations,
        h.argon_parallelism,
    )
}

/// The outcome of checking an older header's verifier with a password key.
pub open spec fn spec_legacy_check(h: VaultHeader, key: Seq<u8>) -> Result<bool, VaultError> {
    spec_verifier_check(
        h,
        key,
        match spec_legacy_verifier_aad(h) {
            Some(Some(a)) => Some(a),
            _ => None,
        },
        legacy_verifier_plaintext(),
        VaultError::InvalidPassword,
    )
}

/// The header is present and its parameters and envelope are valid.
pub open spec fn spec_usable(header: Option<VaultHeader>) -> bool {
    header matches Some(h) && spec_header_params_ok(h) && spec_envelope_ok(h)
}

/// The password unlocks the header: its key opens the current envelope, or
/// passes an older header's verifier for a header that can be migrated.
pub open spec fn spec_unlocks(h: VaultHeader, password: Seq<char>) -> bool {
    &&& spec_derives(h, password)
    &&& spec_header_password_key(h, password) matches Some(k) && if h.version == HEADER_VERSION {
        spec_unwrap_root(h, k) is Ok
    } else {
        spec_legacy_check(h, k) == Ok::<bool, VaultError>(true) && fits(field_bytes(h.salt))
    }
}

/// The password is wrong: its key is derived but does not open the current
/// envelope, or fails an older header's verifier.
pub open spec fn spec_wrong_password(h: VaultHeader, password: Seq<char>) -> bool {
    &&& spec_derives(h, password)
    &&& spec_header_password_key(h, password) matches Some(k) && if h.version == HEADER_VERSION {
        spec_unwrap_root(h, k) is Err
    } else {
        spec_legacy_check(h, k) == Ok::<bool, VaultError>(false)
    }
}

/// One more failed attempt, the count saturating.
pub open spec fn one_more(failed: u32) -> u32 {
    if failed == u32::MAX {
        u32::MAX
    } else {
        (failed + 1) as u32
    }
}

/// `after` is `before` with one more failed attempt counted at `now`:
/// attempts are refused for the backoff the new count sets.
pub open spec fn failure_recorded(before: SessionCore, after: SessionCore, now: u64) -> bool {
    &&& after.failed == one_more(before.failed)
    &&& after.blocked_until == Some(later(now, (1000 * backoff_seconds(after.failed)) as u64))
}

/// `after` counts the same failed attempts as `before`.
pub open spec fn attempts_unchanged(before: SessionCore, after: SessionCore) -> bool {
    after.failed == before.failed && after.blocked_until == before.blocked_until
}

/// Two to the power of one less than `failed`, at most the fifth power,
/// and at most 30.
pub open spec fn capped_doubling(failed: u32) -> nat {
    let e: nat = if failed <= 1 {
        0
    } else if failed - 1 < 5 {
        (failed - 1) as nat
    } else {
        5
    };
    if vstd::arithmetic::power2::pow2(e) < 30 {
        vstd::arithmetic::power2::pow2(e)
    } else {
        30
    }
}

/// A failed attempt refuses every attempt until its backoff has passed:
/// after a failure counted at `now`, an attempt at any `t` from `now` until
/// `now` plus the backoff the new count sets (1, 2, 4, 8, 16, then 30
/// seconds) finds password attempts refused.
pub proof fn lemma_failure_delays_attempts(before: SessionCore, after: SessionCore, now: u64, t: u64)
    requires
        failure_recorded(before, after, now),
        now <= t,
        t < now + 1000 * backoff_seconds(after.failed),
        now + 1000 * backoff_seconds(after.failed) <= u64::MAX,
    ensures
        spec_blocked(after, t),
        backoff_seconds(after.failed) == capped_doubling(after.failed),
{
    vstd::arithmetic::power2::lemma2_to64();
}

/// The failed-attempt count after `k` failures, saturating.
pub open spec fn saturated_count(k: int) -> u32 {
    if k >= u32::MAX {
        u32::MAX
    } else {
        k as u32
    }
}

proof fn lemma_failure_count(states: Seq<SessionCore>, times: Seq<u64>, k: int)
    requires
        times.len() + 1 == states.len(),
        states[0].failed == 0,
        forall|i: int| 0 <= i < times.len() ==> failure_recorded(#[trigger] states[i], states[i + 1], times[i]),
        0 <= k < states.len(),
    ensures
        states[k].failed == saturated_count(k),
    decreases k,
{
    if k > 0 {
        lemma_failure_count(states, times, k - 1);
        assert(failure_recorded(states[k - 1], states[k], times[k - 1]));
    }
}

/// Consecutive failed attempts double the refusal: after `n` failures
/// counted one after another from a session with none, the count is `n`
/// (saturating), and attempts are refused until
/// min(2^min(n - 1, 5), 30) seconds after the last failure.
pub proof fn lemma_consecutive_failures(states: Seq<SessionCore>, times: Seq<u64>)
    requires
        times.len() > 0,
        times.len() + 1 == states.len(),
        states[0].failed == 0,
        forall|i: int| 0 <= i < times.len() ==> failure_recorded(#[trigger] states[i], states[i + 1], times[i]),
    ensures
        states.last().failed == saturated_count(times.len() as int),
        states.last().blocked_until == Some(
            later(times.last(), (1000 * capped_doubling(states.last().failed)) as u64),
        ),
{
    let n = times.len() as int;
    lemma_failure_count(states, times, n);
    assert(failure_recorded(states[n - 1], states[n], times[n - 1]));
    vstd::arithmetic::power2::lemma2_to64();
    assert(backoff_seconds(states[n].failed) == capped_doubling(states[n].failed));
}

/// Whether a password confirmation is recent at `now`: one was recorded
/// less than two minutes before (or the clock went back since).
pub open spec fn spec_recently_confirmed(u: UnlockedSession, now: u64) -> bool {
    u.reauthenticated_at matches Some(t) && elapsed(now, t) < 1000 * REAUTH_WINDOW_SECONDS
}

/// A password confirmation lasts two minutes: for a session that recorded
/// one at `confirmed_at` (unlocking, re-authenticating, opening a new vault,
/// a password change or a recovery change record one; a recovery reset
/// does not), the check for a recent confirmation passes at `now` exactly
/// when `now` is less than two minutes later; a session that recorded none
/// never passes it.
pub proof fn lemma_confirmation_window(u: UnlockedSession, now: u64)
    ensures
        u.reauthenticated_at matches Some(c) ==> (spec_recently_confirmed(u, now) <==> (now < c || now - c
            < 1000 * REAUTH_WINDOW_SECONDS)),
        u.reauthenticated_at is None ==> !spec_recently_confirmed(u, now),
{
}

/// The two headers agree on the vault's identity and settings and on the
/// recovery envelope: all but the password envelope, its derivation
/// parameters and the verifier.
pub open spec fn same_identity(a: VaultHeader, b: VaultHeader) -> bool {
    &&& a.version == b.version && a.vault_id == b.vault_id
    &&& a.auto_lock_seconds == b.auto_lock_seconds
    &&& a.delete_source_after_import == b.delete_source_after_import
    &&& a.recovery_nonce == b.recovery_nonce && a.recovery_ciphertext == b.recovery_ciphertext
    &&& a.lock_on_blur == b.lock_on_blur && a.lock_on_suspend == b.lock_on_suspend
    &&& a.clipboard_timeout_seconds == b.clipboard_timeout_seconds
}

/// The header with the root key wrapped under a new password: a fresh
/// salt, the default parameters, a new envelope and a fresh verifier.
/// Fails with `Crypto` exactly when Argon2 refuses the new password.
fn rekey_password(header: VaultHeader, new_password: &str, root_key: &[u8; 32]) -> (result: Result<
    VaultHeader,
    VaultError,
>)
    requires
        verifier_fields_fit(header),
    ensures
        result is Ok <==> crate::crypto::argon2_accepts(
            encode_utf8(new_password@).len(),
            DEFAULT_ARGON_MEMORY_KIB,
            DEFAULT_ARGON_ITERATIONS,
            DEFAULT_ARGON_PARALLELISM,
        ),
        result matches Err(e) ==> e == VaultError::Crypto,
        result matches Ok(h) ==> {
            &&& same_identity(header, h)
            &&& h.wrapped_root_nonce@.len() > 0 && h.wrapped_root_ciphertext@.len() > 0
            &&& h.argon_memory_kib == DEFAULT_ARGON_MEMORY_KIB
            &&& h.argon_iterations == DEFAULT_ARGON_ITERATIONS
            &&& h.argon_parallelism == DEFAULT_ARGON_PARALLELISM
            &&& spec_opens_with_password(h, new_password@, root_key@)
            &&& spec_verifier_check(
                h,
                root_key@,
                spec_root_verifier_aad(h),
                root_verifier_plaintext(),
                VaultError::AuthenticationFailed,
            ) == Ok::<bool, VaultError>(true)
        },
{
    let mut h = header;
    let salt = crate::crypto::random_16();
    h.salt = crate::encoding::standard_encode(&salt);
    h.argon_memory_kib = DEFAULT_ARGON_MEMORY_KIB;
    h.argon_iterations = DEFAULT_ARGON_ITERATIONS;
    h.argon_parallelism = DEFAULT_ARGON_PARALLELISM;
    let new_key = derive_password_key(
        new_password,
        &salt,
        h.argon_memory_kib,
        h.argon_iterations,
        h.argon_parallelism,
    )?;
    proof {
        reveal_strlit("kh.zila.ndsecure/header/root-wrap/v1");
        assert(spec_decode_field(h.salt@, 16) == Ok::<Seq<u8>, Seq<char>>(salt@));
        assert(field_bytes(h.salt).len() == 24);
    }
    let wrapped_result = wrap_root_key(&mut h, &new_key, &root_key);
    proof {
        assert(wrapped_result is Ok);
    }
    let ghost wrapped = h;
    proof {
        assert(verifier_fields_fit(wrapped));
    }
    let sealed = seal_root_verifier(&mut h, root_key);
    proof {
        assert(sealed is Ok);
        assert(spec_root_wrap_aad(h) == spec_root_wrap_aad(wrapped));
        assert(spec_unwrap_root(h, new_key@) == spec_unwrap_root(wrapped, new_key@));
        assert(spec_header_password_key(h, new_password@) == Some(new_key@));
        if h.wrapped_root_nonce@.len() == 0 {
            assert(field_bytes(h.wrapped_root_nonce).len() == 0);
        }
        if h.wrapped_root_ciphertext@.len() == 0 {
            assert(field_bytes(h.wrapped_root_ciphertext).len() == 0);
        }
    }
    Ok(h)
}

/// The root key a recovery key's text recovers from the header: the text
/// decodes, the recovery envelope opens under it, and the verifier holds
/// under the key it opens to.
pub open spec fn spec_recovered_root(h: VaultHeader, text: Seq<char>) -> Option<Seq<u8>> {
    match spec_decode_recovery_key(text) {
        Ok(k) => match spec_unwrap_recovery(h, k) {
            Ok(root) => if spec_verifier_check(
                h,
                root,
                spec_root_verifier_aad(h),
                root_verifier_plaintext(),
                VaultError::AuthenticationFailed,
            ) == Ok::<bool, VaultError>(true) {
                Some(root)
            } else {
                None
            },
            Err(_) => None,
        },
        Err(_) => None,
    }
}

/// A recovery reset succeeds: the new password is acceptable, and the
/// header is usable, current, has recovery set up, and the recovery key's
/// text recovers a root key the verifier accepts.
pub open spec fn spec_recovers(header: Option<VaultHeader>, text: Seq<char>, new_password: Seq<char>) -> bool {
    &&& new_password.len() >= MIN_PASSWORD_CHARS
    &&& crate::crypto::argon2_accepts(
        encode_utf8(new_password).len(),
        DEFAULT_ARGON_MEMORY_KIB,
        DEFAULT_ARGON_ITERATIONS,
        DEFAULT_ARGON_PARALLELISM,
    )
    &&& spec_usable(header)
    &&& header matches Some(h) && h.version == HEADER_VERSION && spec_recovery_configured(h)
        && spec_recovered_root(h, text) is Some
}

/// A recovery key stops working once recovery is disabled: on the header
/// that disabling writes, which has no recovery envelope, no recovery key
/// resets the password. (That a newer recovery key also retires the older
/// one rests on AES-GCM refusing a wrong key, which is not stated here.)
pub proof fn lemma_disabled_recovery_recovers_nothing(h: VaultHeader, text: Seq<char>, new_password: Seq<char>)
    requires
        h.recovery_nonce@.len() == 0 || h.recovery_ciphertext@.len() == 0,
    ensures
        !spec_recovers(Some(h), text, new_password),
{
}

/// What unlocking found: the header to keep, the root key, and whether the
/// header was migrated and must be written before the session opens.
pub struct UnlockStep {
    pub header: VaultHeader,
    pub root_key: [u8; 32],
    pub migrated: bool,
}

impl SessionCore {
    /// The first part of unlocking: open the envelope with the password (or,
    /// for an older header, check its verifier and migrate it). A wrong
    /// password is counted and refused as `InvalidPassword`; while a refusal
    /// lasts, nothing is tried.
    pub fn begin_unlock(&mut self, header: Option<VaultHeader>, password: &str, now: u64) -> (result:
        Result<UnlockStep, VaultError>)
        ensures
            old(self).blocked_until matches Some(d) && d > now ==> result == Err::<UnlockStep, VaultError>(
                VaultError::RateLimited,
            ),
            result is Ok <==> (!spec_blocked(*old(self), now) && spec_usable(header) && (header matches Some(
                h,
            ) && spec_unlocks(h, password@))),
            !spec_blocked(*old(self), now) && header is None ==> result == Err::<UnlockStep, VaultError>(
                VaultError::NotInitialized,
            ),
            ({
                let refused = !spec_blocked(*old(self), now) && spec_usable(header) && (header matches Some(
                    h,
                ) && spec_wrong_password(h, password@));
                &&& refused ==> result == Err::<UnlockStep, VaultError>(VaultError::InvalidPassword)
                    && failure_recorded(*old(self), *final(self), now)
                &&& !refused ==> attempts_unchanged(*old(self), *final(self))
            }),
            result matches Ok(step) ==> step.header.version == HEADER_VERSION,
            result matches Ok(step) ==> spec_opens_with_password(step.header, password@, step.root_key@),
            result matches Ok(step) ==> (!step.migrated ==> header == Some(step.header)),
            result matches Ok(step) ==> (step.migrated ==> (header matches Some(h) && h.version
                != HEADER_VERSION && spec_header_password_key(h, password@) == Some(step.root_key@))),
            final(self).unlocked == old(self).unlocked,
    {
        self.check_attempt_limit(now)?;
        let mut header = present_header(header)?;
        let salt = decode_array_16(header.salt.as_str())?;
        let password_key = derive_password_key(
            password,
            &salt,
            header.argon_memory_kib,
            header.argon_iterations,
            header.argon_parallelism,
        )?;
        proof {
            assert(spec_header_password_key(header, password@) == Some(password_key@));
        }
        if header.version == HEADER_VERSION {
            match unwrap_root_key(&header, &password_key) {
                Ok(root_key) => Ok(UnlockStep { header, root_key, migrated: false }),
                Err(_) => {
                    self.record_failed_attempt(now);
                    Err(VaultError::InvalidPassword)
                },
            }
        } else {
            if !verify_legacy_verifier(&header, &password_key)? {
                self.record_failed_attempt(now);
                return Err(VaultError::InvalidPassword);
            }
            let root_key = password_key;
            migrate_header_to_v3(&mut header, &password_key, &root_key)?;
            Ok(UnlockStep { header, root_key, migrated: true })
        }
    }

    /// The last part of unlocking, once a migrated header is written: the
    /// verifier must hold under the root key; then failed attempts are
    /// forgotten and the session opens, confirmed now.
    pub fn complete_unlock(&mut self, header: &VaultHeader, root_key: [u8; 32], now: u64) -> (result:
        Result<(), VaultError>)
        ensures
            result is Ok ==> {
                &&& final(self).unlocked == Some(
                    UnlockedSession { root_key, last_activity: now, reauthenticated_at: Some(now) },
                )
                &&& final(self).failed == 0
                &&& final(self).blocked_until is None
                &&& final(self).auto_lock_seconds == header.auto_lock_seconds
            },
            result matches Err(e) ==> *final(self) == *old(self),
            result is Ok <==> spec_verifier_check(
                *header,
                root_key@,
                spec_root_verifier_aad(*header),
                root_verifier_plaintext(),
                VaultError::AuthenticationFailed,
            ) == Ok::<bool, VaultError>(true),
            same_check(
                passed(result),
                refusal(
                    spec_verifier_check(
                        *header,
                        root_key@,
                        spec_root_verifier_aad(*header),
                        root_verifier_plaintext(),
                        VaultError::AuthenticationFailed,
                    ),
                ),
            ),
    {
        if !verify_root_verifier(header, &root_key)? {
            return Err(VaultError::AuthenticationFailed);
        }
        self.reset_attempts();
        self.apply_header(
            header,
            Some(UnlockedSession { root_key, last_activity: now, reauthenticated_at: Some(now) }),
        );
        Ok(())
    }

    /// Opens the session with a root key whose header was just written.
    pub fn open_with(&mut self, header: &VaultHeader, root_key: [u8; 32], now: u64, confirmed: bool)
        ensures
            final(self).unlocked == Some(
                UnlockedSession {
                    root_key,
                    last_activity: now,
                    reauthenticated_at: if confirmed {
                        Some(now)
                    } else {
                        None
                    },
                },
            ),
            final(self).auto_lock_seconds == header.auto_lock_seconds,
            final(self).recovery_configured == spec_recovery_configured(*header),
    {
        self.apply_header(
            header,
            Some(
                UnlockedSession {
                    root_key,
                    last_activity: now,
                    reauthenticated_at: if confirmed {
                        Some(now)
                    } else {
                        None
                    },
                },
            ),
        );
    }

    /// Marks a successful password confirmation: activity and confirmation
    /// now.
    pub fn confirmed(&mut self, now: u64) -> (result: Result<(), VaultError>)
        ensures
            old(self).unlocked is None ==> result == Err::<(), VaultError>(VaultError::Locked),
            old(self).unlocked matches Some(o) ==> result is Ok && final(self).unlocked == Some(
                UnlockedSession {
                    root_key: o.root_key,
                    last_activity: now,
                    reauthenticated_at: Some(now),
                },
            ),
            old(self).unlocked is None ==> final(self).unlocked is None,
            final(self).auto_lock_seconds == old(self).auto_lock_seconds,
            final(self).delete_source_after_import == old(self).delete_source_after_import,
            final(self).lock_on_blur == old(self).lock_on_blur,
            final(self).lock_on_suspend == old(self).lock_on_suspend,
            final(self).clipboard_timeout_seconds == old(self).clipboard_timeout_seconds,
            final(self).recovery_configured == old(self).recovery_configured,
            final(self).failed == old(self).failed,
            final(self).blocked_until == old(self).blocked_until,
    {
        match &mut self.unlocked {
            Some(u) => {
                u.last_activity = now;
                u.reauthenticated_at = Some(now);
                Ok(())
            },
            None => Err(VaultError::Locked),
        }
    }

    /// The stored header, checked to belong to this session's root key.
    pub fn authenticated_header(header: Option<VaultHeader>, root_key: &[u8; 32]) -> (result: Result<
        VaultHeader,
        VaultError,
    >)
        ensures
            result matches Ok(h) ==> h.version == HEADER_VERSION && spec_verifier_check(
                h,
                root_key@,
                spec_root_verifier_aad(h),
                root_verifier_plaintext(),
                VaultError::AuthenticationFailed,
            ) == Ok::<bool, VaultError>(true) && header == Some(h),
            result is Ok <==> (header matches Some(h) && spec_authentic(h, root_key@)),
            header is None ==> result == Err::<VaultHeader, VaultError>(VaultError::NotInitialized),
            header matches Some(h) && (!spec_header_params_ok(h) || !spec_envelope_ok(h)) ==> result matches Err(
                VaultError::InvalidInput(_),
            ),
            header matches Some(h) && spec_header_params_ok(h) && spec_envelope_ok(h) && h.version
                != HEADER_VERSION ==> result == Err::<VaultHeader, VaultError>(
                VaultError::AuthenticationFailed,
            ),
            header matches Some(h) ==> (spec_header_params_ok(h) && spec_envelope_ok(h) && h.version
                == HEADER_VERSION ==> same_check(
                passed(result),
                refusal(
                    spec_verifier_check(
                        h,
                        root_key@,
                        spec_root_verifier_aad(h),
                        root_verifier_plaintext(),
                        VaultError::AuthenticationFailed,
                    ),
                ),
            )),
    {
        let h = present_header(header)?;
        if h.version != HEADER_VERSION || !verify_root_verifier(&h, root_key)? {
            return Err(VaultError::AuthenticationFailed);
        }
        Ok(h)
    }

    /// Confirms the current password against the open session's root key;
    /// a wrong one is counted and refused.
    pub fn authenticate_current_password(
        &mut self,
        header: &VaultHeader,
        password: &str,
        expected_root: &[u8; 32],
        now: u64,
    ) -> (result: Result<(), VaultError>)
        ensures
            old(self).blocked_until matches Some(d) && d > now ==> result == Err::<(), VaultError>(
                VaultError::RateLimited,
            ),
            result is Ok ==> final(self).failed == 0 && final(self).blocked_until is None,
            result matches Err(VaultError::InvalidPassword) ==> final(self).failed == (if old(
                self,
            ).failed == u32::MAX {
                u32::MAX
            } else {
                (old(self).failed + 1) as u32
            }),
            final(self).unlocked == old(self).unlocked,
            result is Ok <==> !spec_blocked(*old(self), now) && spec_authenticates(
                *header,
                password@,
                expected_root@,
            ),
    {
        self.check_attempt_limit(now)?;
        match authenticate_password(header, password, expected_root) {
            Ok(()) => {
                self.reset_attempts();
                Ok(())
            },
            Err(VaultError::InvalidPassword) => {
                self.record_failed_attempt(now);
                Err(VaultError::InvalidPassword)
            },
            Err(e) => Err(e),
        }
    }

    /// Confirms the master password of an open session: it must open the
    /// stored envelope to the session's own root key.
    pub fn reauthenticate(&mut self, header: Option<VaultHeader>, password: &str, now: u64) -> (result:
        Result<(), VaultError>)
        ensures
            old(self).blocked_until matches Some(d) && d > now ==> result == Err::<(), VaultError>(
                VaultError::RateLimited,
            ),
            result is Ok ==> (final(self).unlocked matches Some(u) && u.reauthenticated_at == Some(now)
                && u.last_activity == now) && final(self).failed == 0,
            result is Ok <==> (!spec_blocked(*old(self), now) && (spec_live_root(*old(self), now) matches Some(
                root,
            ) && (spec_usable(header) && (header matches Some(h) && h.version == HEADER_VERSION
                && spec_authenticates(h, password@, root@))))),
            !spec_blocked(*old(self), now) && spec_live_root(*old(self), now) is None ==> result
                == Err::<(), VaultError>(VaultError::Locked),
            ({
                let refused = !spec_blocked(*old(self), now) && (spec_live_root(*old(self), now) matches Some(
                    root,
                ) && (spec_usable(header) && (header matches Some(h) && h.version == HEADER_VERSION
                    && spec_derives(h, password@) && !(spec_header_password_key(h, password@) matches Some(
                    k,
                ) && spec_unwrap_root(h, k) == Ok::<Seq<u8>, VaultError>(root@)))));
                &&& refused ==> result == Err::<(), VaultError>(VaultError::InvalidPassword)
                    && failure_recorded(*old(self), *final(self), now)
                &&& !refused && result is Err ==> attempts_unchanged(*old(self), *final(self))
            }),
    {
        self.check_attempt_limit(now)?;
        let current_root = self.root_key_copy(now)?;
        let h = present_header(header)?;
        if h.version != HEADER_VERSION {
            return Err(VaultError::AuthenticationFailed);
        }
        let salt = decode_array_16(h.salt.as_str())?;
        let password_key = derive_password_key(
            password,
            &salt,
            h.argon_memory_kib,
            h.argon_iterations,
            h.argon_parallelism,
        )?;
        let candidate = match unwrap_root_key(&h, &password_key) {
            Ok(k) => k,
            Err(_) => {
                self.record_failed_attempt(now);
                return Err(VaultError::InvalidPassword);
            },
        };
        if !crate::crypto::constant_time_eq(&candidate, &current_root) {
            self.record_failed_attempt(now);
            return Err(VaultError::InvalidPassword);
        }
        if !verify_root_verifier(&h, &candidate)? {
            return Err(VaultError::AuthenticationFailed);
        }
        self.reset_attempts();
        self.confirmed(now)
    }

    /// The header after a password change: a new salt, the default
    /// parameters, the same root key wrapped under the new password, and a
    /// fresh verifier. The session's root key is kept.
    #[verifier::rlimit(40)]
    pub fn change_master_password(
        &mut self,
        header: Option<VaultHeader>,
        current_password: &str,
        new_password: &str,
        now: u64,
    ) -> (result: Result<VaultHeader, VaultError>)
        ensures
            new_password@.len() < MIN_PASSWORD_CHARS ==> result == Err::<VaultHeader, VaultError>(
                VaultError::WeakPassword,
            ),
            result matches Ok(h) ==> h.version == HEADER_VERSION && h.argon_memory_kib
                == DEFAULT_ARGON_MEMORY_KIB && h.argon_iterations == DEFAULT_ARGON_ITERATIONS
                && h.argon_parallelism == DEFAULT_ARGON_PARALLELISM,
            result matches Ok(h) ==> (old(self).unlocked matches Some(o) && (header matches Some(
                before,
            ) && h.vault_id == before.vault_id && h.auto_lock_seconds == before.auto_lock_seconds
                && h.recovery_nonce == before.recovery_nonce && h.recovery_ciphertext
                == before.recovery_ciphertext)),
            result matches Ok(h) ==> (old(self).unlocked matches Some(o) && spec_opens_with_password(
                h,
                new_password@,
                o.root_key@,
            )),
            result is Ok <==> (new_password@.len() >= MIN_PASSWORD_CHARS && !spec_blocked(*old(self), now)
                && crate::crypto::argon2_accepts(
                encode_utf8(new_password@).len(),
                DEFAULT_ARGON_MEMORY_KIB,
                DEFAULT_ARGON_ITERATIONS,
                DEFAULT_ARGON_PARALLELISM,
            ) && (spec_live_root(*old(self), now) matches Some(root) && (header matches Some(before)
                && spec_authentic(before, root@) && spec_authenticates(before, current_password@, root@)))),
            new_password@.len() >= MIN_PASSWORD_CHARS && spec_live_root(*old(self), now) is None ==> result
                matches Err(VaultError::Locked),
            result matches Ok(h) ==> (old(self).unlocked matches Some(o) && spec_authentic(h, o.root_key@)),
    {
        validate_password(new_password)?;
        let root_key = self.root_key_copy(now)?;
        let h = SessionCore::authenticated_header(header, &root_key)?;
        self.authenticate_current_password(&h, current_password, &root_key, now)?;
        proof {
            assert(verifier_fields_fit(h));
        }
        let rekeyed = rekey_password(h, new_password, &root_key);
        proof {
            if rekeyed is Ok {
                assert(spec_header_params_ok(rekeyed->Ok_0));
                assert(spec_envelope_ok(rekeyed->Ok_0));
            }
        }
        rekeyed
    }

    /// The header with a new recovery envelope, and the recovery key to
    /// show once.
    pub fn create_recovery_key(&mut self, header: Option<VaultHeader>, password: &str, now: u64) -> (result:
        Result<(VaultHeader, RecoveryKey), VaultError>)
        ensures
            result matches Ok((h, _)) ==> h.version == HEADER_VERSION,
            result matches Ok((h, key)) ==> (old(self).unlocked matches Some(o) && spec_opens_with_recovery(
                h,
                key.recovery_key@,
                o.root_key@,
            )),
            result is Ok <==> (spec_live_root(*old(self), now) matches Some(root) && !spec_blocked(
                *old(self),
                now,
            ) && (header matches Some(before) && spec_authentic(before, root@) && spec_authenticates(
                before,
                password@,
                root@,
            ))),
            spec_live_root(*old(self), now) is None ==> result matches Err(VaultError::Locked),
            result matches Ok((h, _)) ==> (header matches Some(before) && same_settings(before, h)
                && (old(self).unlocked matches Some(o) && spec_authentic(h, o.root_key@))),
            result matches Ok((h, key)) ==> (header matches Some(before) && (old(self).unlocked matches Some(
                o,
            ) && spec_recovery_wrap_aad(before) matches Some(aad) && exists|k: Seq<u8>, nonce: Seq<u8>|
                {
                &&& k.len() == 32 && nonce.len() == 12
                &&& key.recovery_key@ == spec_recovery_text(k)
                &&& h.recovery_nonce@ == base64_standard_encode(nonce)
                &&& h.recovery_ciphertext@ == base64_standard_encode(
                    aes256gcm_seal(spec_domain_key(k, recovery_wrap_domain()), nonce, aad, o.root_key@),
                )
            })),
    {
        let root_key = self.root_key_copy(now)?;
        let mut h = SessionCore::authenticated_header(header, &root_key)?;
        let ghost before = h;
        self.authenticate_current_password(&h, password, &root_key, now)?;
        let recovery_key = add_recovery_envelope(&mut h, &root_key)?;
        let ghost sealed = h;
        seal_root_verifier(&mut h, &root_key)?;
        let text = recovery_key_text(&recovery_key);
        proof {
            assert(spec_recovery_wrap_aad(h) == spec_recovery_wrap_aad(sealed));
            assert(spec_unwrap_recovery(h, recovery_key@) == spec_unwrap_recovery(sealed, recovery_key@));
            let aad = spec_recovery_wrap_aad(before)->Some_0;
            let nonce = choose|nonce: Seq<u8>|
                nonce.len() == 12 && sealed.recovery_nonce@ == base64_standard_encode(nonce) && (
                spec_recovery_wrap_aad(before) matches Some(a) && sealed.recovery_ciphertext@
                    == base64_standard_encode(
                    aes256gcm_seal(spec_domain_key(recovery_key@, recovery_wrap_domain()), nonce, a, root_key@),
                ));
            assert(recovery_key@.len() == 32 && nonce.len() == 12 && text.recovery_key@ == spec_recovery_text(
                recovery_key@,
            ) && h.recovery_nonce@ == base64_standard_encode(nonce) && h.recovery_ciphertext@
                == base64_standard_encode(
                aes256gcm_seal(spec_domain_key(recovery_key@, recovery_wrap_domain()), nonce, aad, root_key@),
            ));
        }
        Ok((h, text))
    }

    /// The header without its recovery envelope.
    pub fn disable_recovery(&mut self, header: Option<VaultHeader>, password: &str, now: u64) -> (result:
        Result<VaultHeader, VaultError>)
        ensures
            result matches Ok(h) ==> !spec_recovery_configured(h) && h.version == HEADER_VERSION,
            result is Ok <==> (spec_live_root(*old(self), now) matches Some(root) && !spec_blocked(
                *old(self),
                now,
            ) && (header matches Some(before) && spec_authentic(before, root@) && spec_authenticates(
                before,
                password@,
                root@,
            ))),
            spec_live_root(*old(self), now) is None ==> result matches Err(VaultError::Locked),
            result matches Ok(h) ==> (header matches Some(before) && same_settings(before, h)
                && h.recovery_nonce@.len() == 0 && h.recovery_ciphertext@.len() == 0
                && (old(self).unlocked matches Some(o) && spec_authentic(h, o.root_key@))),
    {
        let root_key = self.root_key_copy(now)?;
        let mut h = SessionCore::authenticated_header(header, &root_key)?;
        self.authenticate_current_password(&h, password, &root_key, now)?;
        h.recovery_nonce = String::new();
        h.recovery_ciphertext = String::new();
        seal_root_verifier(&mut h, &root_key)?;
        Ok(h)
    }

    /// Records that a recovery change was written: the session is active
    /// and confirmed now.
    pub fn recovery_changed(&mut self, configured: bool, now: u64)
        ensures
            final(self).recovery_configured == configured,
            old(self).unlocked matches Some(o) ==> final(self).unlocked == Some(
                UnlockedSession {
                    root_key: o.root_key,
                    last_activity: now,
                    reauthenticated_at: Some(now),
                },
            ),
            old(self).unlocked is None ==> final(self).unlocked is None,
    {
        self.recovery_configured = configured;
        let _ = self.confirmed(now);
    }

    /// Resets the master password with a recovery key: the header with the
    /// same root key wrapped under the new password, and that root key. The
    /// vault must be current and have recovery set up.
    pub fn recover_with_key(header: Option<VaultHeader>, recovery_key: &str, new_password: &str) -> (result:
        Result<(VaultHeader, [u8; 32]), VaultError>)
        ensures
            new_password@.len() < MIN_PASSWORD_CHARS ==> result == Err::<
                (VaultHeader, [u8; 32]),
                VaultError,
            >(VaultError::WeakPassword),
            result matches Ok((h, root)) ==> h.version == HEADER_VERSION && (header matches Some(
                before,
            ) && spec_recovery_configured(before) && h.vault_id == before.vault_id),
            result matches Ok((h, root)) ==> (header matches Some(before) && spec_opens_with_recovery(
                before,
                recovery_key@,
                root@,
            ) && spec_opens_with_password(h, new_password@, root@)),
            result is Ok <==> spec_recovers(header, recovery_key@, new_password@),
            result matches Ok((h, root)) ==> (header matches Some(before) && spec_recovered_root(
                before,
                recovery_key@,
            ) == Some(root@) && spec_authentic(h, root@) && same_identity(before, h)),
    {
        validate_password(new_password)?;
        let h = present_header(header)?;
        if h.version != HEADER_VERSION || !recovery_is_configured(&h) {
            return Err(invalid_input("vault recovery is not configured"));
        }
        let root_key = recovery_root(&h, recovery_key)?;
        if !verify_root_verifier(&h, &root_key)? {
            return Err(VaultError::AuthenticationFailed);
        }
        proof {
            assert(verifier_fields_fit(h));
        }
        let rekeyed = rekey_password(h, new_password, &root_key);
        proof {
            if rekeyed is Ok {
                assert(spec_header_params_ok(rekeyed->Ok_0));
                assert(spec_envelope_ok(rekeyed->Ok_0));
            }
        }
        let rekeyed = rekeyed?;
        Ok((rekeyed, root_key))
    }

    /// The header with a new auto-lock time, resealed.
    pub fn set_auto_lock(&mut self, header: Option<VaultHeader>, seconds: u64, now: u64) -> (result:
        Result<VaultHeader, VaultError>)
        ensures
            !(MIN_AUTO_LOCK_SECONDS <= seconds <= MAX_AUTO_LOCK_SECONDS) ==> result matches Err(
                VaultError::InvalidInput(_),
            ),
            result matches Ok(h) ==> h.auto_lock_seconds == seconds && h.version == HEADER_VERSION,
            result is Ok <==> (MIN_AUTO_LOCK_SECONDS <= seconds <= MAX_AUTO_LOCK_SECONDS && (spec_live_root(
                *old(self),
                now,
            ) matches Some(root) && (header matches Some(before) && spec_authentic(before, root@)))),
            MIN_AUTO_LOCK_SECONDS <= seconds <= MAX_AUTO_LOCK_SECONDS && spec_live_root(*old(self), now)
                is None ==> result matches Err(VaultError::Locked),
            result matches Ok(h) ==> (header matches Some(before) && same_but_verifier(
                (VaultHeader { auto_lock_seconds: seconds, ..before }),
                h,
            ) && (old(self).unlocked matches Some(o) && spec_authentic(h, o.root_key@))),
    {
        validate_auto_lock(seconds)?;
        let root_key = self.root_key_copy(now)?;
        let mut h = SessionCore::authenticated_header(header, &root_key)?;
        h.auto_lock_seconds = seconds;
        seal_root_verifier(&mut h, &root_key)?;
        Ok(h)
    }

    /// The header with source removal after import turned on or off,
    /// resealed.
    pub fn set_delete_source_after_import(&mut self, header: Option<VaultHeader>, enabled: bool, now: u64) -> (result:
        Result<VaultHeader, VaultError>)
        ensures
            result matches Ok(h) ==> h.delete_source_after_import == enabled && h.version
                == HEADER_VERSION,
            result is Ok <==> (spec_live_root(*old(self), now) matches Some(root) && (header matches Some(
                before,
            ) && spec_authentic(before, root@))),
            spec_live_root(*old(self), now) is None ==> result matches Err(VaultError::Locked),
            result matches Ok(h) ==> (header matches Some(before) && same_but_verifier(
                (VaultHeader { delete_source_after_import: enabled, ..before }),
                h,
            ) && (old(self).unlocked matches Some(o) && spec_authentic(h, o.root_key@))),
    {
        let root_key = self.root_key_copy(now)?;
        let mut h = SessionCore::authenticated_header(header, &root_key)?;
        h.delete_source_after_import = enabled;
        seal_root_verifier(&mut h, &root_key)?;
        Ok(h)
    }

    /// The header with new lock and clipboard preferences, resealed.
    pub fn set_security_preferences(
        &mut self,
        header: Option<VaultHeader>,
        lock_on_blur: bool,
        lock_on_suspend: bool,
        clipboard_timeout_seconds: u64,
        now: u64,
    ) -> (result: Result<VaultHeader, VaultError>)
        ensures
            !(MIN_CLIPBOARD_TIMEOUT_SECONDS <= clipboard_timeout_seconds
                <= MAX_CLIPBOARD_TIMEOUT_SECONDS) ==> result matches Err(VaultError::InvalidInput(_)),
            result matches Ok(h) ==> h.lock_on_blur == lock_on_blur && h.lock_on_suspend
                == lock_on_suspend && h.clipboard_timeout_seconds == clipboard_timeout_seconds,
            result is Ok <==> (MIN_CLIPBOARD_TIMEOUT_SECONDS <= clipboard_timeout_seconds
                <= MAX_CLIPBOARD_TIMEOUT_SECONDS && (spec_live_root(*old(self), now) matches Some(root) && (
            header matches Some(before) && spec_authentic(before, root@)))),
            MIN_CLIPBOARD_TIMEOUT_SECONDS <= clipboard_timeout_seconds <= MAX_CLIPBOARD_TIMEOUT_SECONDS
                && spec_live_root(*old(self), now) is None ==> result matches Err(VaultError::Locked),
            result matches Ok(h) ==> (header matches Some(before) && same_but_verifier(
                (VaultHeader {
                    lock_on_blur,
                    lock_on_suspend,
                    clipboard_timeout_seconds,
                    ..before
                }),
                h,
            ) && (old(self).unlocked matches Some(o) && spec_authentic(h, o.root_key@))),
    {
        validate_clipboard_timeout(clipboard_timeout_seconds)?;
        let root_key = self.root_key_copy(now)?;
        let mut h = SessionCore::authenticated_header(header, &root_key)?;
        h.lock_on_blur = lock_on_blur;
        h.lock_on_suspend = lock_on_suspend;
        h.clipboard_timeout_seconds = clipboard_timeout_seconds;
        seal_root_verifier(&mut h, &root_key)?;
        Ok(h)
    }
}

} // verus!
