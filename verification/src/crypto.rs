//! The cryptographic primitives the vault uses, each behind a trusted
//! wrapper, and the key derivations built on them.
//!
//! AES-256-GCM, HKDF-SHA-256, SHA-256, HMAC-SHA-1 and Argon2id compute
//! functions of their arguments whose definitions take pages; each has a
//! name below, and the wrappers state that what they return is that name
//! applied to their arguments. Random bytes get no name: nothing is said of
//! them beyond their length.
use vstd::prelude::*;
use crate::error::VaultError;
use aes_gcm::aead::{Aead, KeyInit, Payload};
use rand::RngCore;
use subtle::ConstantTimeEq;

verus! {

/// Largest plaintext (and associated data) AES-GCM accepts, in bytes.
pub const AEAD_MAX_BYTES: u64 = 0x1000000000;

/// Length of an AES-GCM authentication tag.
pub const TAG_SIZE: usize = 16;

/// AES-256-GCM ciphertext with the tag appended.
pub uninterp spec fn aes256gcm_seal(key: Seq<u8>, nonce: Seq<u8>, aad: Seq<u8>, msg: Seq<u8>) -> Seq<u8>;

/// AES-256-GCM decryption of a ciphertext with its tag appended; `None`
/// when authentication fails.
pub uninterp spec fn aes256gcm_open(
    key: Seq<u8>,
    nonce: Seq<u8>,
    aad: Seq<u8>,
    ciphertext: Seq<u8>,
) -> Option<Seq<u8>>;

/// HKDF-SHA-256 with the given salt and input key, expanded to 32 bytes
/// under `info`.
pub uninterp spec fn hkdf_sha256_32(salt: Seq<u8>, ikm: Seq<u8>, info: Seq<u8>) -> Seq<u8>;

/// SHA-256 digest.
pub uninterp spec fn sha256(data: Seq<u8>) -> Seq<u8>;

/// HMAC-SHA-1 tag of `msg` under `key`.
pub uninterp spec fn hmac_sha1(key: Seq<u8>, msg: Seq<u8>) -> Seq<u8>;

/// Argon2id (version 0x13) with a 32-byte output.
pub uninterp spec fn argon2id_32(
    password: Seq<u8>,
    salt: Seq<u8>,
    memory_kib: u32,
    iterations: u32,
    parallelism: u32,
) -> Seq<u8>;

/// `aes_gcm::Aes256Gcm::encrypt`: seals `msg` under `key` and `nonce` with
/// `aad` authenticated. The crate refuses only messages or associated data
/// longer than 2^36 bytes; the result is the ciphertext with the 16-byte tag
/// appended, and `decrypt` with the same key, nonce and associated data
/// gives `msg` back.
#[verifier::external_body]
pub(crate) fn aead_seal(key: &[u8; 32], nonce: &[u8; 12], aad: &[u8], msg: &[u8]) -> (result: Result<
    Vec<u8>,
    VaultError,
>)
    ensures
        result is Ok <==> (msg@.len() <= AEAD_MAX_BYTES && aad@.len() <= AEAD_MAX_BYTES),
        result matches Ok(c) ==> c@ == aes256gcm_seal(key@, nonce@, aad@, msg@) && c@.len() == msg@.len() + TAG_SIZE,
        result matches Ok(c) ==> aes256gcm_open(key@, nonce@, aad@, c@) == Some(msg@),
        result matches Err(e) ==> e == VaultError::Crypto,
{
    let cipher = aes_gcm::Aes256Gcm::new_from_slice(key).map_err(|_| VaultError::Crypto)?;
    cipher
        .encrypt(aes_gcm::Nonce::from_slice(nonce), Payload { msg, aad })
        .map_err(|_| VaultError::Crypto)
}

/// `aes_gcm::Aes256Gcm::decrypt`: `None` when the tag does not
/// authenticate `ciphertext` and `aad` under `key` and `nonce`.
#[verifier::external_body]
pub(crate) fn aead_open(key: &[u8; 32], nonce: &[u8; 12], aad: &[u8], ciphertext: &[u8]) -> (result:
    Option<Vec<u8>>)
    ensures
        result matches Some(p) ==> aes256gcm_open(key@, nonce@, aad@, ciphertext@) == Some(p@),
        result is None ==> aes256gcm_open(key@, nonce@, aad@, ciphertext@) is None,
{
    let cipher = aes_gcm::Aes256Gcm::new_from_slice(key).ok()?;
    cipher.decrypt(aes_gcm::Nonce::from_slice(nonce), Payload { msg: ciphertext, aad }).ok()
}

/// `hkdf::Hkdf::<Sha256>::new(Some(salt), ikm).expand(info, &mut [0; 32])`;
/// a 32-byte output is always within HKDF's limit.
#[verifier::external_body]
fn hkdf_expand_32(salt: &[u8], ikm: &[u8; 32], info: &[u8]) -> (result: [u8; 32])
    ensures
        result@ == hkdf_sha256_32(salt@, ikm@, info@),
{
    let hkdf = hkdf::Hkdf::<sha2::Sha256>::new(Some(salt), ikm);
    let mut output = [0u8; 32];
    let _ = hkdf.expand(info, &mut output);
    output
}

/// `sha2::Sha256::digest`.
#[verifier::external_body]
pub(crate) fn sha256_digest(data: &[u8]) -> (result: [u8; 32])
    ensures
        result@ == sha256(data@),
{
    let digest = <sha2::Sha256 as sha2::Digest>::digest(data);
    let mut output = [0u8; 32];
    output.copy_from_slice(&digest);
    output
}

/// `hmac::Hmac::<sha1::Sha1>` over `msg`, finalized; HMAC accepts keys of
/// any length and SHA-1 gives 20 bytes.
#[verifier::external_body]
pub(crate) fn hmac_sha1_tag(key: &[u8], msg: &[u8]) -> (result: [u8; 20])
    ensures
        result@ == hmac_sha1(key@, msg@),
{
    let mut mac = <hmac::Hmac<sha1::Sha1> as hmac::Mac>::new_from_slice(key)
        .expect("HMAC accepts keys of any length");
    hmac::Mac::update(&mut mac, msg);
    let digest = hmac::Mac::finalize(mac).into_bytes();
    let mut output = [0u8; 20];
    output.copy_from_slice(&digest);
    output
}

/// Whether Argon2 accepts the parameters and password: at least 8 KiB of
/// memory per lane, at least one pass, 1 to 2^24 - 1 lanes, and a password
/// of at most 2^32 - 1 bytes (the 16-byte salt and 32-byte output are
/// within its limits).
pub open spec fn argon2_accepts(password_len: nat, memory_kib: u32, iterations: u32, parallelism: u32) -> bool {
    &&& 1 <= parallelism <= 0xFFFFFF
    &&& 8 * parallelism <= memory_kib
    &&& 1 <= iterations
    &&& password_len <= 0xFFFFFFFF
}

/// `argon2::Argon2::new(Argon2id, V0x13, Params::new(m, t, p, Some(32)))
/// .hash_password_into(password, salt, &mut [0; 32])`. `Params::new` and
/// `hash_password_into` refuse exactly parameters and passwords outside
/// the limits `argon2_accepts` names; otherwise the key is produced.
/// `Params::new` multiplies the lane count by 8 before checking it, so a
/// lane count whose product overflows is not passed.
#[verifier::external_body]
pub(crate) fn argon2id_hash(
    password: &[u8],
    salt: &[u8; 16],
    memory_kib: u32,
    iterations: u32,
    parallelism: u32,
) -> (result: Option<[u8; 32]>)
    requires
        parallelism <= 0x1FFFFFFF,
    ensures
        result is Some <==> argon2_accepts(password@.len(), memory_kib, iterations, parallelism),
        result matches Some(key) ==> key@ == argon2id_32(
            password@,
            salt@,
            memory_kib,
            iterations,
            parallelism,
        ),
{
    let params = argon2::Params::new(memory_kib, iterations, parallelism, Some(32)).ok()?;
    let argon = argon2::Argon2::new(argon2::Algorithm::Argon2id, argon2::Version::V0x13, params);
    let mut output = [0u8; 32];
    argon.hash_password_into(password, salt, &mut output).ok()?;
    Some(output)
}

/// `rand::rngs::OsRng::fill_bytes` on 32 bytes: nothing is known of them.
#[verifier::external_body]
pub(crate) fn random_32() -> [u8; 32] {
    let mut output = [0u8; 32];
    rand::rngs::OsRng.fill_bytes(&mut output);
    output
}

/// `rand::rngs::OsRng::fill_bytes` on 16 bytes: nothing is known of them.
#[verifier::external_body]
pub(crate) fn random_16() -> [u8; 16] {
    let mut output = [0u8; 16];
    rand::rngs::OsRng.fill_bytes(&mut output);
    output
}

/// `rand::rngs::OsRng::fill_bytes` on 12 bytes: nothing is known of them.
#[verifier::external_body]
pub(crate) fn random_12() -> [u8; 12] {
    let mut output = [0u8; 12];
    rand::rngs::OsRng.fill_bytes(&mut output);
    output
}

/// `rand::rngs::OsRng::fill_bytes` on 4 bytes: nothing is known of them.
#[verifier::external_body]
pub(crate) fn random_4() -> [u8; 4] {
    let mut output = [0u8; 4];
    rand::rngs::OsRng.fill_bytes(&mut output);
    output
}

/// `subtle::ConstantTimeEq::ct_eq` on two byte slices: equality, computed
/// without early exit.
#[verifier::external_body]
pub(crate) fn constant_time_eq(left: &[u8], right: &[u8]) -> (result: bool)
    ensures
        result == (left@ == right@),
{
    bool::from(left.ct_eq(right))
}

/// `zeroize::Zeroize::zeroize` on a byte vector: its bytes and spare
/// capacity are overwritten with zeros and it is cleared, so it is empty
/// afterwards.
#[verifier::external_body]
pub(crate) fn wipe(bytes: &mut Vec<u8>)
    ensures
        final(bytes)@.len() == 0,
{
    zeroize::Zeroize::zeroize(bytes);
}

/// The bytes of an ASCII text.
pub open spec fn spec_ascii(text: Seq<char>) -> Seq<u8> {
    Seq::new(text.len(), |i: int| text[i] as u8)
}

/// The bytes of `s`, which must be ASCII.
pub fn ascii_bytes(s: &str) -> (result: Vec<u8>)
    requires
        s.is_ascii(),
    ensures
        result@ == spec_ascii(s@),
{
    proof {
        broadcast use vstd::string::is_ascii_spec_bytes;
    }
    let bytes = s.as_bytes();
    let result = vstd::slice::slice_to_vec(bytes);
    assert(result@ =~= spec_ascii(s@));
    result
}

/// Salt of the domain-key derivation.
pub open spec fn spec_root_salt() -> Seq<u8> {
    spec_ascii("nd-secure/root-salt/v1"@)
}

/// Domain separating gallery keys.
pub open spec fn spec_gallery_domain() -> Seq<u8> {
    spec_ascii("nd-secure/gallery-root/v1"@)
}

/// Domain separating credential keys.
pub open spec fn spec_credentials_domain() -> Seq<u8> {
    spec_ascii("nd-secure/credentials-root/v1"@)
}

/// Domain separating project-registry keys.
pub open spec fn spec_projects_domain() -> Seq<u8> {
    spec_ascii("nd-secure/projects-root/v1"@)
}

pub fn gallery_domain() -> (result: Vec<u8>)
    ensures
        result@ == spec_gallery_domain(),
{
    proof {
        reveal_strlit("nd-secure/gallery-root/v1");
    }
    ascii_bytes("nd-secure/gallery-root/v1")
}

pub fn credentials_domain() -> (result: Vec<u8>)
    ensures
        result@ == spec_credentials_domain(),
{
    proof {
        reveal_strlit("nd-secure/credentials-root/v1");
    }
    ascii_bytes("nd-secure/credentials-root/v1")
}

pub fn projects_domain() -> (result: Vec<u8>)
    ensures
        result@ == spec_projects_domain(),
{
    proof {
        reveal_strlit("nd-secure/projects-root/v1");
    }
    ascii_bytes("nd-secure/projects-root/v1")
}

/// Domain key: HKDF-SHA-256 of the master key under the fixed root salt,
/// expanded under the domain label.
pub open spec fn spec_domain_key(master_key: Seq<u8>, domain: Seq<u8>) -> Seq<u8> {
    hkdf_sha256_32(spec_root_salt(), master_key, domain)
}

/// Derives the key of one vault domain from the master key.
pub fn derive_domain_key(master_key: &[u8; 32], domain: &[u8]) -> (result: Result<[u8; 32], VaultError>)
    ensures
        result matches Ok(key) && key@ == spec_domain_key(master_key@, domain@),
{
    proof {
        reveal_strlit("nd-secure/root-salt/v1");
    }
    let salt = ascii_bytes("nd-secure/root-salt/v1");
    Ok(hkdf_expand_32(salt.as_slice(), master_key, domain))
}

/// Derives a per-object key from a domain key, a per-object salt and a
/// context naming the object.
pub fn derive_object_key(root_key: &[u8; 32], salt: &[u8; 16], context: &[u8]) -> (result: Result<
    [u8; 32],
    VaultError,
>)
    ensures
        result matches Ok(key) && key@ == hkdf_sha256_32(salt@, root_key@, context@),
{
    Ok(hkdf_expand_32(salt.as_slice(), root_key, context))
}

} // verus!
