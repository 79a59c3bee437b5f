//! The encrypted registry of projects: the key and associated data each
//! registration is sealed under, and the checks a decrypted registration
//! must pass against the row that held it.
use vstd::prelude::*;
use crate::bytes::{be64_signed, push_all, push_be64_signed};
use crate::crypto::{aes256gcm_open, aes256gcm_seal, ascii_bytes, derive_object_key, hkdf_sha256_32, spec_ascii};
use crate::env::{ProjectRegistration, MAX_ENVIRONMENTS, MAX_KEYS};
use crate::error::VaultError;
use crate::ids::spec_uuid_text;
use crate::text::str_eq;

verus! {

/// The format version of a stored registration.
pub const REGISTRY_FORMAT_VERSION: i64 = 1;

/// The label under which registration keys are derived.
pub open spec fn registry_label() -> Seq<u8> {
    spec_ascii("nd-secure/project-registration/v1"@)
}

/// The label that opens a registration's associated data.
pub open spec fn registry_aad_label() -> Seq<u8> {
    spec_ascii("nd-secure/project-registration-aad/v1"@)
}

/// The context of a registration key: the label and the project's id.
pub open spec fn spec_registry_context(id: Seq<u8>) -> Seq<u8> {
    registry_label() + id
}

/// The key sealing one registration, from the projects root key and the
/// row's random salt.
pub fn project_record_key(root_key: &[u8; 32], salt: &[u8; 16], id: &[u8; 16]) -> (result: Result<
    [u8; 32],
    VaultError,
>)
    ensures
        result matches Ok(k) && k@ == hkdf_sha256_32(salt@, root_key@, spec_registry_context(id@)),
{
    proof {
        reveal_strlit("nd-secure/project-registration/v1");
    }
    let mut context = ascii_bytes("nd-secure/project-registration/v1");
    push_all(&mut context, id);
    derive_object_key(root_key, salt, context.as_slice())
}

/// The associated data of a registration: the label, the id and the
/// revision, big-endian.
pub open spec fn spec_project_record_aad(id: Seq<u8>, revision: i64) -> Seq<u8> {
    registry_aad_label() + id + be64_signed(revision)
}

/// Builds a registration's associated data.
pub fn project_record_aad(id: &[u8; 16], revision: i64) -> (result: Vec<u8>)
    ensures
        result@ == spec_project_record_aad(id@, revision),
{
    proof {
        reveal_strlit("nd-secure/project-registration-aad/v1");
    }
    let mut aad = ascii_bytes("nd-secure/project-registration-aad/v1");
    push_all(&mut aad, id);
    push_be64_signed(&mut aad, revision);
    aad
}

/// A sealed registration: its salt, nonce and ciphertext.
pub struct SealedRegistration {
    pub salt: [u8; 16],
    pub nonce: [u8; 12],
    pub ciphertext: Vec<u8>,
}

/// Opening a sealed registration of `id` at `revision`.
pub open spec fn spec_open_registration(
    root_key: Seq<u8>,
    id: Seq<u8>,
    revision: i64,
    salt: Seq<u8>,
    nonce: Seq<u8>,
    ciphertext: Seq<u8>,
) -> Result<Seq<u8>, VaultError> {
    match aes256gcm_open(
        hkdf_sha256_32(salt, root_key, spec_registry_context(id)),
        nonce,
        spec_project_record_aad(id, revision),
        ciphertext,
    ) {
        Some(plain) => Ok(plain),
        None => Err(VaultError::AuthenticationFailed),
    }
}

/// Seals a registration's serialized plaintext under a fresh salt and
/// nonce; the sealed registration opens to the plaintext.
pub fn seal_registration(root_key: &[u8; 32], id: &[u8; 16], revision: i64, plaintext: &[u8]) -> (result:
    Result<SealedRegistration, VaultError>)
    ensures
        result is Ok <==> plaintext@.len() <= crate::crypto::AEAD_MAX_BYTES,
        result matches Ok(r) ==> r.ciphertext@ == aes256gcm_seal(
            hkdf_sha256_32(r.salt@, root_key@, spec_registry_context(id@)),
            r.nonce@,
            spec_project_record_aad(id@, revision),
            plaintext@,
        ),
        result matches Ok(r) ==> spec_open_registration(root_key@, id@, revision, r.salt@, r.nonce@, r.ciphertext@)
            == Ok::<Seq<u8>, VaultError>(plaintext@),
        result matches Err(e) ==> e == VaultError::Crypto,
{
    let salt = crate::crypto::random_16();
    let nonce = crate::crypto::random_12();
    let key = project_record_key(root_key, &salt, id)?;
    let aad = project_record_aad(id, revision);
    proof {
        reveal_strlit("nd-secure/project-registration-aad/v1");
        assert(aad@.len() == 37 + 16 + 8);
    }
    let ciphertext = crate::crypto::aead_seal(&key, &nonce, aad.as_slice(), plaintext)?;
    Ok(SealedRegistration { salt, nonce, ciphertext })
}

/// A stored registration row.
pub struct EncryptedProjectRow {
    pub id: [u8; 16],
    pub salt: [u8; 16],
    pub nonce: [u8; 12],
    pub ciphertext: Vec<u8>,
    pub format_version: i64,
    pub revision: i64,
    pub created_at: i64,
    pub updated_at: i64,
}

/// Opening a stored row: the format and revision must be valid, and the
/// ciphertext authentic under the row's key and associated data.
pub open spec fn spec_open_project_row(root_key: Seq<u8>, row: EncryptedProjectRow) -> Result<Seq<u8>, VaultError> {
    if row.format_version != REGISTRY_FORMAT_VERSION || row.revision <= 0 {
        Err(VaultError::AuthenticationFailed)
    } else {
        spec_open_registration(root_key, row.id@, row.revision, row.salt@, row.nonce@, row.ciphertext@)
    }
}

/// Opens a stored row, giving the serialized registration.
pub fn open_project_row(root_key: &[u8; 32], row: &EncryptedProjectRow) -> (result: Result<Vec<u8>, VaultError>)
    ensures
        match spec_open_project_row(root_key@, *row) {
            Ok(plain) => result matches Ok(p) && p@ == plain,
            Err(e) => result == Err::<Vec<u8>, VaultError>(e),
        },
{
    if row.format_version != REGISTRY_FORMAT_VERSION || row.revision <= 0 {
        return Err(VaultError::AuthenticationFailed);
    }
    let key = project_record_key(root_key, &row.salt, &row.id)?;
    let aad = project_record_aad(&row.id, row.revision);
    match crate::crypto::aead_open(&key, &row.nonce, aad.as_slice(), row.ciphertext.as_slice()) {
        Some(plain) => Ok(plain),
        None => Err(VaultError::AuthenticationFailed),
    }
}

/// Whether a decrypted registration belongs to its row: the same id and
/// times, and no more keys or environments than a registration may hold.
pub open spec fn spec_registration_matches(registration: ProjectRegistration, row: EncryptedProjectRow) -> bool {
    &&& registration.id@ == spec_uuid_text(row.id@)
    &&& registration.created_at == row.created_at
    &&& registration.updated_at == row.updated_at
    &&& registration.required_keys@.len() <= MAX_KEYS
    &&& registration.environments@.len() <= MAX_ENVIRONMENTS
}

/// Refuses a decrypted registration that does not belong to its row.
pub fn check_registration_matches_row(registration: &ProjectRegistration, row: &EncryptedProjectRow) -> (result:
    Result<(), VaultError>)
    ensures
        result is Ok <==> spec_registration_matches(*registration, *row),
        result matches Err(e) ==> e == VaultError::AuthenticationFailed,
{
    let text = crate::ids::uuid_text(&row.id);
    if !str_eq(registration.id.as_str(), text.as_str()) || registration.created_at != row.created_at
        || registration.updated_at != row.updated_at || registration.required_keys.len() > MAX_KEYS
        || registration.environments.len() > MAX_ENVIRONMENTS {
        return Err(VaultError::AuthenticationFailed);
    }
    Ok(())
}

/// The creation time and revision a registration is written with: an
/// existing registration keeps its creation time and raises its revision
/// by one (saturating); a new one starts at revision 1, created now.
pub fn registration_identity(existing: Option<(i64, i64)>, now: i64) -> (result: (i64, i64))
    ensures
        match existing {
            Some((created_at, revision)) => result == (created_at, if revision == i64::MAX {
                i64::MAX
            } else {
                (revision + 1) as i64
            }),
            None => result == (now, 1i64),
        },
{
    match existing {
        Some((created_at, revision)) => {
            let next = if revision == i64::MAX {
                i64::MAX
            } else {
                revision + 1
            };
            (created_at, next)
        },
        None => (now, 1),
    }
}

} // verus!
