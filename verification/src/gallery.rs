//! The encrypted gallery's bookkeeping: listed items and trash entries, the
//! checks on stored and trashed metadata, thumbnail ids and capture, and
//! what start-up recovery does with leftover files.
use vstd::prelude::*;
use crate::crypto::{aes256gcm_open, aes256gcm_seal, ascii_bytes, spec_ascii, sha256, sha256_digest, AEAD_MAX_BYTES};
use crate::error::{VaultError, invalid_input};
use crate::ids::{spec_uuid_text, uuid_parse, uuid_text};
use crate::text::{chars_of, str_eq};

verus! {

/// Version of the container format the gallery stores.
pub const CONTAINER_VERSION: i64 = 1;

/// Version of the encrypted trash rows.
pub const TRASH_SCHEMA_VERSION: i64 = 1;

/// A thumbnail is still to be made.
pub const THUMBNAIL_PENDING: i64 = 0;

/// A thumbnail exists.
pub const THUMBNAIL_READY: i64 = 1;

/// No thumbnail can be made.
pub const THUMBNAIL_UNAVAILABLE: i64 = 2;

/// Largest source image a thumbnail is made from.
pub const MAX_SOURCE_BYTES: u64 = 67108864;

/// Largest decoded image a thumbnail is made from.
pub const MAX_DECODE_ALLOC_BYTES: u64 = 268435456;

/// Largest width or height of a decoded image.
pub const MAX_IMAGE_DIMENSION: u32 = 32768;

/// Bytes per pixel assumed when bounding a decode.
pub const MAX_DECODE_BYTES_PER_PIXEL: u64 = 8;

/// Longest edge of a thumbnail.
pub const THUMBNAIL_EDGE: u32 = 512;

/// Largest encoded thumbnail.
pub const MAX_THUMBNAIL_BYTES: usize = 4194304;

/// Most trash entries listed per page.
pub const MAX_TRASH_PAGE: u32 = 500;

/// A listed gallery item.
#[derive(Debug)]
pub struct GalleryItem {
    pub id: String,
    pub mime_type: String,
    pub file_size_bytes: u64,
    pub timestamp_added: i64,
    pub width: Option<u32>,
    pub height: Option<u32>,
    pub duration_ms: Option<u64>,
    pub thumbnail_available: bool,
}

/// A page of gallery items.
#[derive(Debug)]
pub struct GalleryPage {
    pub items: Vec<GalleryItem>,
    pub next_cursor: Option<String>,
}

/// A listed trash entry.
#[derive(Debug)]
pub struct GalleryTrashItem {
    pub id: String,
    pub mime_type: String,
    pub file_size_bytes: u64,
    pub timestamp_added: i64,
    pub width: Option<u32>,
    pub height: Option<u32>,
    pub duration_ms: Option<u64>,
    pub thumbnail_available: bool,
    pub deleted_at: i64,
}

/// A page of trash entries.
#[derive(Debug)]
pub struct GalleryTrashPage {
    pub items: Vec<GalleryTrashItem>,
    pub next_cursor: Option<String>,
}

/// Whether thumbnails are made from media of this type: JPEG and PNG.
pub open spec fn spec_thumbnail_source(mime: Seq<char>) -> bool {
    mime == "image/jpeg"@ || mime == "image/png"@
}

/// Whether thumbnails are made from media of this type.
pub fn is_thumbnail_source_mime(mime_type: &str) -> (result: bool)
    ensures
        result == spec_thumbnail_source(mime_type@),
{
    str_eq(mime_type, "image/jpeg") || str_eq(mime_type, "image/png")
}

/// The thumbnail state of an item whose thumbnail is gone: pending for
/// images, unavailable for everything else.
pub fn thumbnail_state_without_thumbnail(mime_type: &str) -> (result: i64)
    ensures
        result == (if spec_thumbnail_source(mime_type@) {
            THUMBNAIL_PENDING
        } else {
            THUMBNAIL_UNAVAILABLE
        }),
{
    if is_thumbnail_source_mime(mime_type) {
        THUMBNAIL_PENDING
    } else {
        THUMBNAIL_UNAVAILABLE
    }
}

/// The thumbnail state an import records: ready when a thumbnail was
/// made; pending for an image within the thumbnail source size whose bytes
/// could not be captured, so that one is made later from the stored
/// original; unavailable otherwise.
pub fn import_thumbnail_state(thumbnail_made: bool, mime_type: &str, total_size: u64, captured: bool) -> (result:
    i64)
    ensures
        result == (if thumbnail_made {
            THUMBNAIL_READY
        } else if spec_thumbnail_source(mime_type@) && total_size <= MAX_SOURCE_BYTES && !captured {
            THUMBNAIL_PENDING
        } else {
            THUMBNAIL_UNAVAILABLE
        }),
{
    if thumbnail_made {
        THUMBNAIL_READY
    } else if is_thumbnail_source_mime(mime_type) && total_size <= MAX_SOURCE_BYTES && !captured {
        THUMBNAIL_PENDING
    } else {
        THUMBNAIL_UNAVAILABLE
    }
}

/// What a request for a missing thumbnail does.
#[derive(Debug, Clone, Copy, PartialEq, Eq, Structural)]
pub enum ThumbnailBackfill {
    /// The item is already known to have none.
    Unavailable,
    /// The item cannot have one: record that it has none.
    MarkUnavailable,
    /// Make one from the stored original.
    Generate,
}

/// Decides a request for a missing thumbnail from the item's recorded
/// state, type and size; a state outside the three known ones is refused
/// as tampering.
pub fn thumbnail_backfill(state: i64, mime_type: &str, file_size: u64) -> (result: Result<
    ThumbnailBackfill,
    VaultError,
>)
    ensures
        state == THUMBNAIL_UNAVAILABLE ==> result == Ok::<ThumbnailBackfill, VaultError>(
            ThumbnailBackfill::Unavailable,
        ),
        state != THUMBNAIL_UNAVAILABLE && state != THUMBNAIL_PENDING && state != THUMBNAIL_READY
            ==> result == Err::<ThumbnailBackfill, VaultError>(VaultError::AuthenticationFailed),
        (state == THUMBNAIL_PENDING || state == THUMBNAIL_READY) ==> result == Ok::<
            ThumbnailBackfill,
            VaultError,
        >(
            if spec_thumbnail_source(mime_type@) && file_size <= MAX_SOURCE_BYTES {
                ThumbnailBackfill::Generate
            } else {
                ThumbnailBackfill::MarkUnavailable
            },
        ),
{
    if state == THUMBNAIL_UNAVAILABLE {
        return Ok(ThumbnailBackfill::Unavailable);
    }
    if state != THUMBNAIL_PENDING && state != THUMBNAIL_READY {
        return Err(VaultError::AuthenticationFailed);
    }
    if is_thumbnail_source_mime(mime_type) && file_size <= MAX_SOURCE_BYTES {
        Ok(ThumbnailBackfill::Generate)
    } else {
        Ok(ThumbnailBackfill::MarkUnavailable)
    }
}

/// A size or duration as an SQLite integer, which is signed.
pub fn sqlite_integer(value: u64, label: &str) -> (result: Result<i64, VaultError>)
    ensures
        value <= i64::MAX ==> result == Ok::<i64, VaultError>(value as i64),
        value > i64::MAX ==> (result matches Err(VaultError::InvalidInput(d)) && d@ == label@
            + " exceeds SQLite integer range"@),
{
    if value > i64::MAX as u64 {
        proof {
            reveal_strlit(" exceeds SQLite integer range");
        }
        return Err(VaultError::InvalidInput(String::from_str(label).concat(" exceeds SQLite integer range")));
    }
    Ok(value as i64)
}

/// The table of thumbnail records.
pub fn thumbnail_schema_sql() -> (result: &'static str)
    ensures
        result@ == "CREATE TABLE IF NOT EXISTS media_thumbnails (\n        media_id TEXT PRIMARY KEY NOT NULL,\n        masked_name TEXT NOT NULL UNIQUE,\n        mime_type TEXT NOT NULL CHECK(mime_type = 'image/png'),\n        file_size_bytes INTEGER NOT NULL CHECK(file_size_bytes > 0),\n        container_version INTEGER NOT NULL CHECK(container_version = 1),\n        FOREIGN KEY(media_id) REFERENCES media_items(id) ON DELETE CASCADE\n     );"@,
{
    "CREATE TABLE IF NOT EXISTS media_thumbnails (\n        media_id TEXT PRIMARY KEY NOT NULL,\n        masked_name TEXT NOT NULL UNIQUE,\n        mime_type TEXT NOT NULL CHECK(mime_type = 'image/png'),\n        file_size_bytes INTEGER NOT NULL CHECK(file_size_bytes > 0),\n        container_version INTEGER NOT NULL CHECK(container_version = 1),\n        FOREIGN KEY(media_id) REFERENCES media_items(id) ON DELETE CASCADE\n     );"
}

/// The stored file name of an item: its id and `.enc`.
pub open spec fn masked_name_of(id: Seq<char>) -> Seq<char> {
    id + ".enc"@
}

/// The stored file name of an item.
pub fn masked_name(id: &str) -> (result: String)
    ensures
        result@ == masked_name_of(id@),
{
    proof {
        reveal_strlit(".enc");
    }
    String::from_str(id).concat(".enc")
}

/// The id is canonical: it reads as a UUID and is written as `Display`
/// writes it.
pub open spec fn spec_canonical_id(id: Seq<char>) -> bool {
    uuid_parse(id) matches Some(b) && b.len() == 16 && spec_uuid_text(b) == id
}

/// A stored row the gallery can trust: a canonical id, the masked name that
/// id gives, and the container version it writes.
pub open spec fn spec_row_expected(id: Seq<char>, masked: Seq<char>, container_version: i64) -> bool {
    spec_canonical_id(id) && masked == masked_name_of(id) && container_version == CONTAINER_VERSION
}

/// Whether a stored row is one the gallery can trust.
pub fn row_is_expected(id: &str, masked: &str, container_version: i64) -> (result: bool)
    ensures
        result == spec_row_expected(id@, masked@, container_version),
{
    crate::ids::parse_canonical_uuid(id).is_some() && str_eq(masked, masked_name(id).as_str())
        && container_version == CONTAINER_VERSION
}

/// What start-up recovery does with a file of a gallery directory.
#[derive(Debug, Clone, Copy, PartialEq, Eq, Structural)]
pub enum FileRecovery {
    /// Leave the file.
    Keep,
    /// Remove the file.
    Remove,
    /// An interrupted deletion: put the file back as `{stem}.enc`, or
    /// remove it if that file exists already.
    Restore,
}

/// The recovery of a file with this stem and extension, given whether the
/// stem is an item the index expects.
pub open spec fn spec_file_recovery(extension: Seq<char>, expected: bool) -> FileRecovery {
    if extension == "partial"@ {
        FileRecovery::Remove
    } else if extension == "deleting"@ {
        if expected {
            FileRecovery::Restore
        } else {
            FileRecovery::Remove
        }
    } else if extension == "enc"@ && !expected {
        FileRecovery::Remove
    } else {
        FileRecovery::Keep
    }
}

/// Decides the recovery of a file of a gallery directory.
pub fn file_recovery(extension: &str, expected: bool) -> (result: FileRecovery)
    ensures
        result == spec_file_recovery(extension@, expected),
{
    if str_eq(extension, "partial") {
        FileRecovery::Remove
    } else if str_eq(extension, "deleting") {
        if expected {
            FileRecovery::Restore
        } else {
            FileRecovery::Remove
        }
    } else if str_eq(extension, "enc") && !expected {
        FileRecovery::Remove
    } else {
        FileRecovery::Keep
    }
}

/// A trashed file left by an operation on an item the trash does not hold
/// any more: a `.trash`, `.trashing` or `.restoring` file whose stem is not
/// a trash entry.
pub open spec fn spec_orphan_trash_file(extension: Seq<char>, expected: bool) -> bool {
    (extension == "trash"@ || extension == "trashing"@ || extension == "restoring"@) && !expected
}

/// Whether a trashed file is an orphan to remove.
pub fn is_orphan_trash_file(extension: &str, expected: bool) -> (result: bool)
    ensures
        result == spec_orphan_trash_file(extension@, expected),
{
    (str_eq(extension, "trash") || str_eq(extension, "trashing") || str_eq(extension, "restoring"))
        && !expected
}

/// How an item's trashed file is brought to its `.trash` name.
#[derive(Debug, Clone, Copy, PartialEq, Eq, Structural)]
pub enum VariantNormalization {
    /// `.trash` exists: drop any `.trashing` and `.restoring` copies.
    KeepTrash,
    /// Rename `.trashing` to `.trash`.
    FromTrashing,
    /// Rename `.restoring` to `.trash`.
    FromRestoring,
    /// No trashed file exists.
    Missing,
}

/// Which trashed file becomes `.trash`: an existing `.trash` wins, then
/// `.trashing`, then `.restoring`.
pub fn normalize_trash_variant(trash: bool, trashing: bool, restoring: bool) -> (result: VariantNormalization)
    ensures
        trash ==> result == VariantNormalization::KeepTrash,
        !trash && trashing ==> result == VariantNormalization::FromTrashing,
        !trash && !trashing && restoring ==> result == VariantNormalization::FromRestoring,
        !trash && !trashing && !restoring ==> result == VariantNormalization::Missing,
{
    if trash {
        VariantNormalization::KeepTrash
    } else if trashing {
        VariantNormalization::FromTrashing
    } else if restoring {
        VariantNormalization::FromRestoring
    } else {
        VariantNormalization::Missing
    }
}

/// What recovery does with one trash entry.
#[derive(Debug, Clone, Copy, PartialEq, Eq, Structural)]
pub enum TrashEntryRecovery {
    /// The item is active again: a restore finished; drop the entry.
    CompletedRestore,
    /// Nothing of the trashed item is left: drop the entry.
    MissingPrimary,
    /// Keep the entry, its files brought to their `.trash` names.
    Keep,
}

/// Decides the recovery of a trash entry from what exists of it.
pub fn recover_trash_entry(active_row: bool, active_file: bool, primary: VariantNormalization) -> (result:
    TrashEntryRecovery)
    ensures
        active_row && active_file ==> result == TrashEntryRecovery::CompletedRestore,
        !(active_row && active_file) && primary == VariantNormalization::Missing ==> result
            == TrashEntryRecovery::MissingPrimary,
        !(active_row && active_file) && primary != VariantNormalization::Missing ==> result
            == TrashEntryRecovery::Keep,
{
    if active_row && active_file {
        TrashEntryRecovery::CompletedRestore
    } else if primary == VariantNormalization::Missing {
        TrashEntryRecovery::MissingPrimary
    } else {
        TrashEntryRecovery::Keep
    }
}

/// What a trashed thumbnail record holds.
#[derive(Debug)]
pub struct TrashThumbnail {
    pub masked_name: String,
    pub mime_type: String,
    pub file_size_bytes: u64,
    pub container_version: i64,
}

/// What a trash entry holds of the item it removed.
#[derive(Debug)]
pub struct TrashMetadata {
    pub id: String,
    pub masked_name: String,
    pub mime_type: String,
    pub file_size_bytes: u64,
    pub timestamp_added: i64,
    pub container_version: i64,
    pub width: Option<u32>,
    pub height: Option<u32>,
    pub duration_ms: Option<u64>,
    pub thumbnail_state: i64,
    pub thumbnail: Option<TrashThumbnail>,
}

/// The media types the gallery stores.
pub open spec fn spec_gallery_mime(mime: Seq<char>) -> bool {
    mime == "image/jpeg"@ || mime == "image/png"@ || mime == "video/mp4"@ || mime == "video/webm"@
}

/// Trash metadata the vault could have written for item `id`.
pub open spec fn spec_metadata_ok(m: TrashMetadata, id: Seq<u8>) -> bool {
    &&& m.id@ == spec_uuid_text(id)
    &&& m.masked_name@ == masked_name_of(spec_uuid_text(id))
    &&& m.container_version == CONTAINER_VERSION
    &&& m.file_size_bytes != 0
    &&& spec_gallery_mime(m.mime_type@)
    &&& (m.thumbnail_state == THUMBNAIL_PENDING || m.thumbnail_state == THUMBNAIL_READY
        || m.thumbnail_state == THUMBNAIL_UNAVAILABLE)
    &&& m.thumbnail matches Some(t) ==> {
        &&& t.masked_name@ == masked_name_of(spec_uuid_text(id))
        &&& t.mime_type@ == "image/png"@
        &&& t.file_size_bytes != 0
        &&& t.container_version == CONTAINER_VERSION
    }
}

/// Checks trash metadata against the item it must describe.
pub fn validate_metadata(metadata: &TrashMetadata, id: &[u8; 16]) -> (result: Result<(), VaultError>)
    ensures
        result is Ok <==> spec_metadata_ok(*metadata, id@),
        result matches Err(e) ==> e == VaultError::AuthenticationFailed,
{
    let text = uuid_text(id);
    let name = masked_name(text.as_str());
    let m = metadata;
    let mime = m.mime_type.as_str();
    if !str_eq(m.id.as_str(), text.as_str()) || !str_eq(m.masked_name.as_str(), name.as_str())
        || m.container_version != CONTAINER_VERSION || m.file_size_bytes == 0 || !(str_eq(
        mime,
        "image/jpeg",
    ) || str_eq(mime, "image/png") || str_eq(mime, "video/mp4") || str_eq(mime, "video/webm"))
        || !(m.thumbnail_state == THUMBNAIL_PENDING || m.thumbnail_state == THUMBNAIL_READY
        || m.thumbnail_state == THUMBNAIL_UNAVAILABLE) {
        return Err(VaultError::AuthenticationFailed);
    }
    match &m.thumbnail {
        Some(t) => {
            if !str_eq(t.masked_name.as_str(), name.as_str()) || !str_eq(t.mime_type.as_str(), "image/png")
                || t.file_size_bytes == 0 || t.container_version != CONTAINER_VERSION {
                return Err(VaultError::AuthenticationFailed);
            }
        },
        None => {},
    }
    Ok(())
}

/// The label that opens a trash entry's associated data.
pub open spec fn trash_label() -> Seq<u8> {
    spec_ascii("nd-secure/gallery-trash/v1"@)
}

/// The associated data of a trash entry: the label and the item's id.
pub open spec fn spec_trash_aad(id: Seq<u8>) -> Seq<u8> {
    trash_label() + id
}

/// Builds a trash entry's associated data.
pub fn trash_aad(id: &[u8; 16]) -> (result: Vec<u8>)
    ensures
        result@ == spec_trash_aad(id@),
{
    proof {
        reveal_strlit("nd-secure/gallery-trash/v1");
    }
    let mut aad = ascii_bytes("nd-secure/gallery-trash/v1");
    crate::bytes::push_all(&mut aad, id);
    aad
}

/// Seals a trash entry's serialized metadata under the gallery key with a
/// fresh nonce.
pub fn seal_trash_metadata(root_key: &[u8; 32], id: &[u8; 16], plaintext: &[u8]) -> (result: Result<
    ([u8; 12], Vec<u8>),
    VaultError,
>)
    ensures
        result is Ok <==> plaintext@.len() <= AEAD_MAX_BYTES,
        result matches Ok((nonce, c)) ==> c@ == aes256gcm_seal(
            root_key@,
            nonce@,
            spec_trash_aad(id@),
            plaintext@,
        ),
        result matches Ok((nonce, c)) ==> aes256gcm_open(root_key@, nonce@, spec_trash_aad(id@), c@) == Some(
            plaintext@,
        ),
        result matches Err(e) ==> e == VaultError::Crypto,
{
    let nonce = crate::crypto::random_12();
    let aad = trash_aad(id);
    proof {
        reveal_strlit("nd-secure/gallery-trash/v1");
    }
    let ciphertext = crate::crypto::aead_seal(root_key, &nonce, aad.as_slice(), plaintext)?;
    Ok((nonce, ciphertext))
}

/// Opening a trash entry stored under the id text `id`: the id must be
/// canonical and the ciphertext authentic.
pub open spec fn spec_open_trash(root_key: Seq<u8>, id: Seq<char>, nonce: Seq<u8>, ciphertext: Seq<u8>) -> Option<
    Seq<u8>,
> {
    match uuid_parse(id) {
        Some(b) => if b.len() == 16 && spec_uuid_text(b) == id {
            aes256gcm_open(root_key, nonce, spec_trash_aad(b), ciphertext)
        } else {
            None
        },
        None => None,
    }
}

/// Opens a trash entry, giving its serialized metadata; any failure is
/// `AuthenticationFailed`.
pub fn open_trash_metadata(root_key: &[u8; 32], id: &str, nonce: &[u8; 12], ciphertext: &[u8]) -> (result:
    Result<Vec<u8>, VaultError>)
    ensures
        match spec_open_trash(root_key@, id@, nonce@, ciphertext@) {
            Some(p) => result matches Ok(v) && v@ == p,
            None => result == Err::<Vec<u8>, VaultError>(VaultError::AuthenticationFailed),
        },
{
    let parsed = match crate::ids::parse_canonical_uuid(id) {
        Some(b) => b,
        None => return Err(VaultError::AuthenticationFailed),
    };
    let aad = trash_aad(&parsed);
    match crate::crypto::aead_open(root_key, nonce, aad.as_slice(), ciphertext) {
        Some(p) => Ok(p),
        None => Err(VaultError::AuthenticationFailed),
    }
}

/// The listed entry of a trashed item; the metadata must hold.
pub fn trash_item(metadata: TrashMetadata, deleted_at: i64) -> (result: Result<GalleryTrashItem, VaultError>)
    ensures
        match result {
            Ok(item) => {
                &&& spec_canonical_id(metadata.id@)
                &&& item.id == metadata.id && item.mime_type == metadata.mime_type
                &&& item.file_size_bytes == metadata.file_size_bytes
                &&& item.timestamp_added == metadata.timestamp_added
                &&& item.width == metadata.width && item.height == metadata.height
                &&& item.duration_ms == metadata.duration_ms
                &&& item.thumbnail_available == metadata.thumbnail is Some
                &&& item.deleted_at == deleted_at
            },
            Err(e) => e == VaultError::AuthenticationFailed,
        },
{
    let id = match crate::ids::uuid_parse_str(metadata.id.as_str()) {
        Some(b) => b,
        None => return Err(VaultError::AuthenticationFailed),
    };
    validate_metadata(&metadata, &id)?;
    let thumbnail_available = metadata.thumbnail.is_some();
    Ok(
        GalleryTrashItem {
            id: metadata.id,
            mime_type: metadata.mime_type,
            file_size_bytes: metadata.file_size_bytes,
            timestamp_added: metadata.timestamp_added,
            width: metadata.width,
            height: metadata.height,
            duration_ms: metadata.duration_ms,
            thumbnail_available,
            deleted_at,
        },
    )
}

/// The thumbnail state an item gets back when it is restored.
pub fn restored_thumbnail_state(thumbnail_restored: bool, mime_type: &str) -> (result: i64)
    ensures
        thumbnail_restored ==> result == THUMBNAIL_READY,
        !thumbnail_restored ==> result == (if spec_thumbnail_source(mime_type@) {
            THUMBNAIL_PENDING
        } else {
            THUMBNAIL_UNAVAILABLE
        }),
{
    if thumbnail_restored {
        THUMBNAIL_READY
    } else {
        thumbnail_state_without_thumbnail(mime_type)
    }
}

/// The files a deletion finds, before it moves any.
pub struct DeleteFiles {
    pub active_object: bool,
    pub object_trashing: bool,
    pub object_trash: bool,
    pub thumbnail_active: bool,
    pub thumbnail_trashing: bool,
    pub thumbnail_trash: bool,
}

/// Checks that an item can be moved to the trash: its container exists,
/// no trashed copy of it does, and a recorded thumbnail exists with no
/// trashed copy.
pub fn check_delete_files(has_thumbnail: bool, files: &DeleteFiles) -> (result: Result<(), VaultError>)
    ensures
        !files.active_object ==> result == Err::<(), VaultError>(VaultError::NotFound),
        files.active_object && (files.object_trashing || files.object_trash) ==> result == Err::<
            (),
            VaultError,
        >(VaultError::AuthenticationFailed),
        files.active_object && !files.object_trashing && !files.object_trash ==> if has_thumbnail
            && (!files.thumbnail_active || files.thumbnail_trashing || files.thumbnail_trash) {
            result == Err::<(), VaultError>(VaultError::AuthenticationFailed)
        } else {
            result is Ok
        },
{
    if !files.active_object {
        return Err(VaultError::NotFound);
    }
    if files.object_trashing || files.object_trash {
        return Err(VaultError::AuthenticationFailed);
    }
    if has_thumbnail && (!files.thumbnail_active || files.thumbnail_trashing || files.thumbnail_trash) {
        return Err(VaultError::AuthenticationFailed);
    }
    Ok(())
}

/// What a restore finds before it moves anything: whether the item is
/// active again, whether a file holds its active name, whether a trashed
/// object was found and already staged as `.restoring`, whether another
/// file holds that `.restoring` name, and the same for the thumbnail.
pub struct RestoreFiles {
    pub active_row: bool,
    pub active_object: bool,
    pub object_found: bool,
    pub object_staged: bool,
    pub object_restoring_taken: bool,
    pub thumbnail_found: bool,
    pub thumbnail_staged: bool,
    pub thumbnail_restoring_taken: bool,
}

/// A trashed item may be purged only while it is not active again.
pub fn check_purgeable(active: bool) -> (result: Result<(), VaultError>)
    ensures
        result is Ok <==> !active,
        result matches Err(e) ==> e == VaultError::AuthenticationFailed,
{
    if active {
        return Err(VaultError::AuthenticationFailed);
    }
    Ok(())
}

/// A purge found its trash row exactly when it deleted one row; otherwise
/// the item was not in the trash.
pub fn check_purged(deleted_rows: usize) -> (result: Result<(), VaultError>)
    ensures
        result is Ok <==> deleted_rows == 1,
        result matches Err(e) ==> e == VaultError::NotFound,
{
    if deleted_rows != 1 {
        return Err(VaultError::NotFound);
    }
    Ok(())
}

/// Checks that an item can be restored: it is not active again, nothing
/// holds its active name, its trashed object exists, and neither staging
/// name is held by a file other than the one being restored.
pub fn check_restore_files(files: &RestoreFiles) -> (result: Result<(), VaultError>)
    ensures
        files.active_row ==> (result matches Err(VaultError::InvalidInput(d)) && d@
            == "media item is already active"@),
        !files.active_row && files.active_object ==> result == Err::<(), VaultError>(
            VaultError::AuthenticationFailed,
        ),
        !files.active_row && !files.active_object && !files.object_found ==> result == Err::<
            (),
            VaultError,
        >(VaultError::NotFound),
        !files.active_row && !files.active_object && files.object_found ==> if (!files.object_staged
            && files.object_restoring_taken) || (files.thumbnail_found && !files.thumbnail_staged
            && files.thumbnail_restoring_taken) {
            result == Err::<(), VaultError>(VaultError::AuthenticationFailed)
        } else {
            result is Ok
        },
{
    if files.active_row {
        return Err(invalid_input("media item is already active"));
    }
    if files.active_object {
        return Err(VaultError::AuthenticationFailed);
    }
    if !files.object_found {
        return Err(VaultError::NotFound);
    }
    if !files.object_staged && files.object_restoring_taken {
        return Err(VaultError::AuthenticationFailed);
    }
    if files.thumbnail_found && !files.thumbnail_staged && files.thumbnail_restoring_taken {
        return Err(VaultError::AuthenticationFailed);
    }
    Ok(())
}

/// Where the next gallery page starts: after the last item of a full
/// page, given by its time added and id.
pub fn gallery_next_cursor(items: &Vec<GalleryItem>, limit: usize) -> (result: Option<(i64, String)>)
    ensures
        (items@.len() == limit && limit > 0) ==> (result matches Some((t, id)) && t
            == items@.last().timestamp_added && id@ == items@.last().id@),
        !(items@.len() == limit && limit > 0) ==> result is None,
{
    if limit == 0 || items.len() != limit {
        return None;
    }
    let last = &items[items.len() - 1];
    Some((last.timestamp_added, last.id.clone()))
}

/// A trash page out of the items read for it (one more than the page
/// holds, when there are more): the first `limit` items, and where the next
/// page starts when more were read, given by the last item's deletion time
/// and id.
pub fn split_trash_page(items: Vec<GalleryTrashItem>, limit: usize) -> (result: (
    Vec<GalleryTrashItem>,
    Option<(i64, String)>,
))
    ensures
        items@.len() <= limit ==> result.0@ == items@ && result.1 is None,
        items@.len() > limit ==> result.0@ == items@.subrange(0, limit as int),
        (items@.len() > limit && limit > 0) ==> (result.1 matches Some((d, id)) && d == items@[limit
            - 1].deleted_at && id@ == items@[limit - 1].id@),
        (items@.len() > limit && limit == 0) ==> result.1 is None,
{
    if items.len() <= limit {
        return (items, None);
    }
    let mut items = items;
    items.truncate(limit);
    if limit == 0 {
        return (items, None);
    }
    let last = &items[limit - 1];
    let cursor = (last.deleted_at, last.id.clone());
    (items, Some(cursor))
}

/// Whether the bytes start with a JPEG or PNG signature.
pub open spec fn spec_image_signature(b: Seq<u8>) -> bool {
    ||| (b.len() >= 3 && b[0] == 0xff && b[1] == 0xd8 && b[2] == 0xff)
    ||| (b.len() >= 8 && b[0] == 0x89 && b[1] == 0x50 && b[2] == 0x4e && b[3] == 0x47 && b[4] == 0x0d
        && b[5] == 0x0a && b[6] == 0x1a && b[7] == 0x0a)
}

/// Whether the bytes start with a JPEG or PNG signature.
pub fn is_image_signature(bytes: &[u8]) -> (result: bool)
    ensures
        result == spec_image_signature(bytes@),
{
    (bytes.len() >= 3 && bytes[0] == 0xff && bytes[1] == 0xd8 && bytes[2] == 0xff) || (bytes.len() >= 8
        && bytes[0] == 0x89 && bytes[1] == 0x50 && bytes[2] == 0x4e && bytes[3] == 0x47 && bytes[4]
        == 0x0d && bytes[5] == 0x0a && bytes[6] == 0x1a && bytes[7] == 0x0a)
}

/// The label under which thumbnail ids are derived.
pub open spec fn thumbnail_id_label() -> Seq<u8> {
    spec_ascii("nd-secure/gallery-thumbnail-id/v1"@)
}

/// The container id of an item's thumbnail: the first 16 bytes of
/// SHA-256 over the label and the item's id, marked as a version-8,
/// RFC 4122 UUID.
pub open spec fn spec_thumbnail_id(media_id: Seq<u8>) -> Seq<u8> {
    let d = sha256(thumbnail_id_label() + media_id);
    d.subrange(0, 16).update(6, (d[6] & 0x0f) | 0x80).update(8, (d[8] & 0x3f) | 0x80)
}

/// The container id of an item's thumbnail.
pub fn thumbnail_container_id(media_id: &[u8; 16]) -> (result: [u8; 16])
    ensures
        result@ == spec_thumbnail_id(media_id@),
{
    proof {
        reveal_strlit("nd-secure/gallery-thumbnail-id/v1");
    }
    let mut input = ascii_bytes("nd-secure/gallery-thumbnail-id/v1");
    crate::bytes::push_all(&mut input, media_id);
    let digest = sha256_digest(input.as_slice());
    let mut bytes = [0u8; 16];
    let mut i: usize = 0;
    while i < 16
        invariant
            i <= 16,
            forall|j: int| 0 <= j < i ==> bytes@[j] == digest@[j],
        decreases 16 - i,
    {
        bytes[i] = digest[i];
        i = i + 1;
    }
    bytes[6] = (bytes[6] & 0x0f) | 0x80;
    bytes[8] = (bytes[8] & 0x3f) | 0x80;
    assert(bytes@ =~= spec_thumbnail_id(media_id@));
    bytes
}

/// A thumbnail id is never the item's own id: its variant bits differ
/// unless the item's id has them too, and then its version nibble is 8.
pub proof fn lemma_thumbnail_id_marked(media_id: Seq<u8>)
    requires
        media_id.len() == 16,
        sha256(thumbnail_id_label() + media_id).len() == 32,
    ensures
        spec_thumbnail_id(media_id)[6] & 0xf0 == 0x80,
        spec_thumbnail_id(media_id)[8] & 0xc0 == 0x80,
{
    let d = sha256(thumbnail_id_label() + media_id);
    let a = d[6];
    let b = d[8];
    assert(((a & 0x0f) | 0x80) & 0xf0 == 0x80) by (bit_vector);
    assert(((b & 0x3f) | 0x80) & 0xc0 == 0x80) by (bit_vector);
}

/// A thumbnail's container id is never its item's id when the item's id
/// is a random (version 4) UUID: their version nibbles differ.
pub proof fn lemma_thumbnail_id_differs_from_item_id(media_id: Seq<u8>)
    requires
        media_id.len() == 16,
        media_id[6] & 0xf0 == 0x40,
        sha256(thumbnail_id_label() + media_id).len() == 32,
    ensures
        spec_thumbnail_id(media_id) != media_id,
{
    lemma_thumbnail_id_marked(media_id);
    assert(spec_thumbnail_id(media_id)[6] != media_id[6]);
}

/// The EXIF orientations an image decoder reports.
#[derive(Debug, Clone, Copy, PartialEq, Eq, Structural)]
pub enum Orientation {
    NoTransforms,
    Rotate90,
    Rotate180,
    Rotate270,
    FlipHorizontal,
    FlipVertical,
    Rotate90FlipH,
    Rotate270FlipH,
}

/// Whether an orientation turns the image a quarter turn.
pub open spec fn spec_quarter_turn(orientation: Orientation) -> bool {
    ||| orientation == Orientation::Rotate90
    ||| orientation == Orientation::Rotate270
    ||| orientation == Orientation::Rotate90FlipH
    ||| orientation == Orientation::Rotate270FlipH
}

/// The displayed size of an image of the stored size.
pub open spec fn spec_oriented_dimensions(width: u32, height: u32, orientation: Orientation) -> (u32, u32) {
    if spec_quarter_turn(orientation) {
        (height, width)
    } else {
        (width, height)
    }
}

/// The displayed size of an image of the stored size: a quarter turn
/// swaps width and height.
pub fn oriented_dimensions(width: u32, height: u32, orientation: Orientation) -> (result: (u32, u32))
    ensures
        result == spec_oriented_dimensions(width, height, orientation),
{
    match orientation {
        Orientation::Rotate90 | Orientation::Rotate270 | Orientation::Rotate90FlipH
        | Orientation::Rotate270FlipH => (height, width),
        _ => (width, height),
    }
}

/// The orientation an EXIF orientation number stands for; numbers
/// outside 1 to 8 leave the image as stored.
pub open spec fn spec_exif_orientation(exif: u8) -> Orientation {
    if exif == 2 {
        Orientation::FlipHorizontal
    } else if exif == 3 {
        Orientation::Rotate180
    } else if exif == 4 {
        Orientation::FlipVertical
    } else if exif == 5 {
        Orientation::Rotate90FlipH
    } else if exif == 6 {
        Orientation::Rotate90
    } else if exif == 7 {
        Orientation::Rotate270FlipH
    } else if exif == 8 {
        Orientation::Rotate270
    } else {
        Orientation::NoTransforms
    }
}

/// The orientation an EXIF orientation number stands for.
pub fn exif_orientation(exif: u8) -> (result: Orientation)
    ensures
        result == spec_exif_orientation(exif),
{
    match exif {
        2 => Orientation::FlipHorizontal,
        3 => Orientation::Rotate180,
        4 => Orientation::FlipVertical,
        5 => Orientation::Rotate90FlipH,
        6 => Orientation::Rotate90,
        7 => Orientation::Rotate270FlipH,
        8 => Orientation::Rotate270,
        _ => Orientation::NoTransforms,
    }
}

/// The image formats thumbnails are made from.
#[derive(Debug, Clone, Copy, PartialEq, Eq, Structural)]
pub enum SourceFormat {
    Jpeg,
    Png,
}

/// The decoder format for a media type, if thumbnails are made from it.
pub fn thumbnail_source_format(mime_type: &str) -> (result: Option<SourceFormat>)
    ensures
        mime_type@ == "image/jpeg"@ ==> result == Some(SourceFormat::Jpeg),
        mime_type@ == "image/png"@ ==> result == Some(SourceFormat::Png),
        !spec_thumbnail_source(mime_type@) ==> result is None,
{
    proof {
        reveal_strlit("image/jpeg");
        reveal_strlit("image/png");
        assert("image/png"@[6] != "image/jpeg"@[6]);
    }
    if str_eq(mime_type, "image/jpeg") {
        Some(SourceFormat::Jpeg)
    } else if str_eq(mime_type, "image/png") {
        Some(SourceFormat::Png)
    } else {
        None
    }
}

/// The bounds a decode must respect: non-empty, at most 32768 pixels a
/// side, and at most 256 MiB whether bounded at 8 bytes a pixel or as the
/// decoder reports.
pub open spec fn spec_decode_within_limits(width: u32, height: u32, reported_bytes: u64) -> bool {
    &&& width != 0 && height != 0
    &&& width <= MAX_IMAGE_DIMENSION && height <= MAX_IMAGE_DIMENSION
    &&& width * height * MAX_DECODE_BYTES_PER_PIXEL <= MAX_DECODE_ALLOC_BYTES
    &&& reported_bytes != 0 && reported_bytes <= MAX_DECODE_ALLOC_BYTES
}

/// Whether a decode of this size may go ahead.
pub fn decode_within_limits(width: u32, height: u32, reported_bytes: u64) -> (result: bool)
    ensures
        result == spec_decode_within_limits(width, height, reported_bytes),
{
    proof {
        assert((width as u64) * (height as u64) <= u32::MAX * u32::MAX) by (nonlinear_arith);
    }
    let pixels = (width as u64) * (height as u64);
    if pixels > u64::MAX / MAX_DECODE_BYTES_PER_PIXEL {
        proof {
            assert(pixels * MAX_DECODE_BYTES_PER_PIXEL > MAX_DECODE_ALLOC_BYTES) by (nonlinear_arith)
                requires
                    pixels > u64::MAX / 8,
            ;
        }
        return false;
    }
    let bound = pixels * MAX_DECODE_BYTES_PER_PIXEL;
    width != 0 && height != 0 && width <= MAX_IMAGE_DIMENSION && height <= MAX_IMAGE_DIMENSION && bound
        <= MAX_DECODE_ALLOC_BYTES && reported_bytes != 0 && reported_bytes <= MAX_DECODE_ALLOC_BYTES
}

/// Whether an encoded thumbnail is kept: not empty and at most 4 MiB.
pub fn thumbnail_size_ok(len: usize) -> (result: bool)
    ensures
        result == (0 < len <= MAX_THUMBNAIL_BYTES),
{
    len > 0 && len <= MAX_THUMBNAIL_BYTES
}

/// The bytes of an imported image, captured while it is encrypted, so a
/// thumbnail can be made without decrypting it again. Capture stops for
/// anything that is not a JPEG or PNG, or that is larger than declared.
pub struct ThumbnailCapture {
    total_size: u64,
    captured: Option<Vec<u8>>,
}

impl ThumbnailCapture {
    /// The bytes kept so far, if capture goes on.
    pub closed spec fn captured(&self) -> Option<Seq<u8>> {
        match self.captured {
            Some(v) => Some(v@),
            None => None,
        }
    }

    /// The size the import declared.
    pub closed spec fn total_size(&self) -> u64 {
        self.total_size
    }

    /// Starts capturing a source of `total_size` bytes, unless it is larger
    /// than a thumbnail source may be.
    pub fn new(total_size: u64) -> (result: Self)
        ensures
            result.total_size() == total_size,
            total_size <= MAX_SOURCE_BYTES ==> result.captured() == Some(Seq::<u8>::empty()),
            total_size > MAX_SOURCE_BYTES ==> result.captured() is None,
    {
        let captured = if total_size <= MAX_SOURCE_BYTES {
            Some(Vec::new())
        } else {
            None
        };
        ThumbnailCapture { total_size, captured }
    }

    /// Takes in the next bytes read from the source.
    pub fn observe(&mut self, chunk: &[u8])
        ensures
            final(self).total_size() == old(self).total_size(),
            chunk@.len() == 0 ==> final(self).captured() == old(self).captured(),
            chunk@.len() > 0 ==> match old(self).captured() {
                None => final(self).captured() is None,
                Some(before) => {
                    let after = before + chunk@;
                    if after.len() > old(self).total_size() {
                        final(self).captured() is None
                    } else if after.len() >= 12 && !spec_image_signature(after) {
                        final(self).captured() is None
                    } else {
                        final(self).captured() == Some(after)
                    }
                },
            },
    {
        if chunk.len() == 0 {
            return;
        }
        let total = self.total_size;
        let drop_it = match &mut self.captured {
            None => false,
            Some(captured) => {
                if chunk.len() as u64 > total || captured.len() as u64 > total - chunk.len() as u64 {
                    true
                } else {
                    crate::bytes::push_all(captured, chunk);
                    captured.len() >= 12 && !is_image_signature(captured.as_slice())
                }
            },
        };
        if drop_it {
            if let Some(captured) = &mut self.captured {
                crate::crypto::wipe(captured);
            }
            self.captured = None;
        }
    }

    /// The captured image, if the whole declared size was captured and it
    /// is a JPEG or PNG.
    pub fn finish(self) -> (result: Option<Vec<u8>>)
        ensures
            match result {
                Some(v) => self.captured() == Some(v@) && v@.len() == self.total_size()
                    && spec_image_signature(v@),
                None => !(self.captured() matches Some(c) && c.len() == self.total_size()
                    && spec_image_signature(c)),
            },
    {
        let total = self.total_size;
        match self.captured {
            Some(v) => if v.len() as u64 == total && is_image_signature(v.as_slice()) {
                Some(v)
            } else {
                let mut v = v;
                crate::crypto::wipe(&mut v);
                None
            },
            None => None,
        }
    }
}

/// The name a file of an interrupted trash transition carries.
#[derive(Debug, Clone, Copy, PartialEq, Eq, Structural)]
pub enum TransitionVariant {
    Trash,
    Trashing,
    Restoring,
    Purging,
}

/// The extension of a transition file.
pub fn variant_extension(variant: TransitionVariant) -> (result: &'static str)
    ensures
        result@ == match variant {
            TransitionVariant::Trash => "trash"@,
            TransitionVariant::Trashing => "trashing"@,
            TransitionVariant::Restoring => "restoring"@,
            TransitionVariant::Purging => "purging"@,
        },
{
    match variant {
        TransitionVariant::Trash => "trash",
        TransitionVariant::Trashing => "trashing",
        TransitionVariant::Restoring => "restoring",
        TransitionVariant::Purging => "purging",
    }
}

/// How many of the four transition files exist.
pub open spec fn present_count(trash: bool, trashing: bool, restoring: bool, purging: bool) -> int {
    (if trash { 1int } else { 0 }) + (if trashing { 1int } else { 0 }) + (if restoring { 1int } else { 0 }) + (
    if purging { 1int } else { 0 })
}

/// The one transition file of an item, given which of `.trash`,
/// `.trashing`, `.restoring` and `.purging` exist; more than one is refused
/// as tampering.
pub fn find_transition_variant(trash: bool, trashing: bool, restoring: bool, purging: bool) -> (result: Result<
    Option<TransitionVariant>,
    VaultError,
>)
    ensures
        present_count(trash, trashing, restoring, purging) > 1 ==> result == Err::<
            Option<TransitionVariant>,
            VaultError,
        >(VaultError::AuthenticationFailed),
        present_count(trash, trashing, restoring, purging) == 0 ==> result == Ok::<
            Option<TransitionVariant>,
            VaultError,
        >(None),
        present_count(trash, trashing, restoring, purging) == 1 ==> result == Ok::<
            Option<TransitionVariant>,
            VaultError,
        >(
            Some(
                if trash {
                    TransitionVariant::Trash
                } else if trashing {
                    TransitionVariant::Trashing
                } else if restoring {
                    TransitionVariant::Restoring
                } else {
                    TransitionVariant::Purging
                },
            ),
        ),
{
    let mut found: Option<TransitionVariant> = None;
    if trash {
        found = Some(TransitionVariant::Trash);
    }
    if trashing {
        if found.is_some() {
            return Err(VaultError::AuthenticationFailed);
        }
        found = Some(TransitionVariant::Trashing);
    }
    if restoring {
        if found.is_some() {
            return Err(VaultError::AuthenticationFailed);
        }
        found = Some(TransitionVariant::Restoring);
    }
    if purging {
        if found.is_some() {
            return Err(VaultError::AuthenticationFailed);
        }
        found = Some(TransitionVariant::Purging);
    }
    Ok(found)
}

/// What bringing an item's file back to its active name decides, given
/// whether the active file exists and which transition file was found:
/// whether the item is (or will be) in place, and the transition file to
/// rename to the active name, if any. An active file beside a transition
/// file is refused as tampering; a missing file is in place only if it is
/// not required.
pub fn reconcile_to_active(active: bool, transition: Option<TransitionVariant>, required: bool) -> (result:
    Result<(bool, Option<TransitionVariant>), VaultError>)
    ensures
        active && transition is None ==> result == Ok::<(bool, Option<TransitionVariant>), VaultError>(
            (true, None),
        ),
        !active && transition is Some ==> result == Ok::<(bool, Option<TransitionVariant>), VaultError>(
            (true, transition),
        ),
        !active && transition is None ==> result == Ok::<(bool, Option<TransitionVariant>), VaultError>(
            (!required, None),
        ),
        active && transition is Some ==> result == Err::<(bool, Option<TransitionVariant>), VaultError>(
            VaultError::AuthenticationFailed,
        ),
{
    match (active, transition) {
        (true, None) => Ok((true, None)),
        (false, Some(v)) => Ok((true, Some(v))),
        (false, None) => Ok((!required, None)),
        (true, Some(_)) => Err(VaultError::AuthenticationFailed),
    }
}

} // verus!
