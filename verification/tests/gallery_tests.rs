use nd_secure::error::VaultError;
use nd_secure::gallery::{
    check_restore_files, import_thumbnail_state, thumbnail_backfill, RestoreFiles, ThumbnailBackfill,
    MAX_SOURCE_BYTES,
    check_delete_files, decode_within_limits, file_recovery, is_image_signature, is_orphan_trash_file,
    is_thumbnail_source_mime, masked_name, normalize_trash_variant, open_trash_metadata,
    oriented_dimensions, recover_trash_entry, restored_thumbnail_state, row_is_expected,
    seal_trash_metadata, sqlite_integer, thumbnail_container_id, thumbnail_size_ok,
    thumbnail_source_format, trash_item, validate_metadata, DeleteFiles, FileRecovery, Orientation,
    SourceFormat, ThumbnailCapture, TrashEntryRecovery, TrashMetadata, TrashThumbnail,
    VariantNormalization, THUMBNAIL_PENDING, THUMBNAIL_READY, THUMBNAIL_UNAVAILABLE,
};
use nd_secure::ids::{canonical_uuid, uuid_text};

const ID: &str = "67e55044-10b1-426f-9247-bb680e5fe0c8";

fn metadata(with_thumbnail: bool) -> TrashMetadata {
    TrashMetadata {
        id: ID.into(),
        masked_name: format!("{ID}.enc"),
        mime_type: "image/png".into(),
        file_size_bytes: 10,
        timestamp_added: 5,
        container_version: 1,
        width: Some(4),
        height: Some(3),
        duration_ms: None,
        thumbnail_state: THUMBNAIL_READY,
        thumbnail: with_thumbnail.then(|| TrashThumbnail {
            masked_name: format!("{ID}.enc"),
            mime_type: "image/png".into(),
            file_size_bytes: 7,
            container_version: 1,
        }),
    }
}

fn files(active_object: bool, thumbnail_active: bool) -> DeleteFiles {
    DeleteFiles {
        active_object,
        object_trashing: false,
        object_trash: false,
        thumbnail_active,
        thumbnail_trashing: false,
        thumbnail_trash: false,
    }
}

#[test]
fn thumbnail_ids_are_deterministic_and_domain_separated() {
    let media = canonical_uuid(ID).unwrap();
    let first = thumbnail_container_id(&media);
    let second = thumbnail_container_id(&media);
    assert_eq!(first, second);
    assert_ne!(first, media);
    assert_ne!(thumbnail_container_id(&[0_u8; 16]), first);
}

#[test]
fn capture_keeps_images_and_discards_video() {
    let jpeg = [0xff, 0xd8, 0xff, 0x00, 0x01, 0x02];
    let mut capture = ThumbnailCapture::new(6);
    capture.observe(&jpeg[..4]);
    capture.observe(&jpeg[4..]);
    assert_eq!(capture.finish(), Some(jpeg.to_vec()));

    let mp4 = b"\0\0\0\x18ftypisommore".to_vec();
    let mut capture = ThumbnailCapture::new(mp4.len() as u64);
    capture.observe(&mp4);
    assert!(capture.finish().is_none());
}

#[test]
fn capture_drops_sources_larger_than_declared_or_incomplete() {
    let jpeg = [0xff, 0xd8, 0xff, 0x00];
    let mut capture = ThumbnailCapture::new(3);
    capture.observe(&jpeg);
    assert!(capture.finish().is_none());
    let mut partial = ThumbnailCapture::new(10);
    partial.observe(&jpeg);
    assert!(partial.finish().is_none());
    assert!(ThumbnailCapture::new(64 * 1024 * 1024 + 1).finish().is_none());
}

#[test]
fn rotated_orientations_swap_reported_dimensions() {
    assert_eq!(oriented_dimensions(640, 480, Orientation::Rotate90), (480, 640));
    assert_eq!(oriented_dimensions(640, 480, Orientation::Rotate270FlipH), (480, 640));
    assert_eq!(oriented_dimensions(640, 480, Orientation::FlipHorizontal), (640, 480));
}

#[test]
fn only_jpeg_and_png_make_thumbnails() {
    assert!(is_thumbnail_source_mime("image/jpeg"));
    assert!(!is_thumbnail_source_mime("video/mp4"));
    assert_eq!(thumbnail_source_format("image/png"), Some(SourceFormat::Png));
    assert_eq!(thumbnail_source_format("image/jpeg"), Some(SourceFormat::Jpeg));
    assert_eq!(thumbnail_source_format("image/gif"), None);
    assert!(is_image_signature(&[0xff, 0xd8, 0xff]));
    assert!(!is_image_signature(b"\0\0\0\x18ftypisom"));
}

#[test]
fn decodes_and_thumbnails_are_bounded() {
    assert!(decode_within_limits(1024, 768, 1024 * 768 * 4));
    assert!(!decode_within_limits(0, 768, 100));
    assert!(!decode_within_limits(32769, 1, 100));
    assert!(!decode_within_limits(8192, 8192, 100));
    assert!(!decode_within_limits(10, 10, 0));
    assert!(thumbnail_size_ok(1));
    assert!(!thumbnail_size_ok(0));
    assert!(!thumbnail_size_ok(4 * 1024 * 1024 + 1));
}

#[test]
fn recovery_decides_per_file_extension() {
    assert_eq!(file_recovery("partial", true), FileRecovery::Remove);
    assert_eq!(file_recovery("deleting", true), FileRecovery::Restore);
    assert_eq!(file_recovery("deleting", false), FileRecovery::Remove);
    assert_eq!(file_recovery("enc", false), FileRecovery::Remove);
    assert_eq!(file_recovery("enc", true), FileRecovery::Keep);
    assert!(is_orphan_trash_file("trashing", false));
    assert!(!is_orphan_trash_file("trash", true));
}

#[test]
fn recovery_normalizes_interrupted_trash_rename() {
    assert_eq!(normalize_trash_variant(true, true, false), VariantNormalization::KeepTrash);
    assert_eq!(normalize_trash_variant(false, true, false), VariantNormalization::FromTrashing);
    assert_eq!(normalize_trash_variant(false, false, true), VariantNormalization::FromRestoring);
    assert_eq!(normalize_trash_variant(false, false, false), VariantNormalization::Missing);
    assert_eq!(
        recover_trash_entry(true, true, VariantNormalization::Missing),
        TrashEntryRecovery::CompletedRestore
    );
    assert_eq!(
        recover_trash_entry(false, false, VariantNormalization::Missing),
        TrashEntryRecovery::MissingPrimary
    );
    assert_eq!(
        recover_trash_entry(true, false, VariantNormalization::FromTrashing),
        TrashEntryRecovery::Keep
    );
}

#[test]
fn rows_must_name_their_canonical_object() {
    assert_eq!(masked_name(ID), format!("{ID}.enc"));
    assert!(row_is_expected(ID, &format!("{ID}.enc"), 1));
    assert!(!row_is_expected(&ID.to_uppercase(), &format!("{}.enc", ID.to_uppercase()), 1));
    assert!(!row_is_expected(ID, "other.enc", 1));
    assert!(!row_is_expected(ID, &format!("{ID}.enc"), 2));
}

#[test]
fn sqlite_integers_are_range_checked() {
    assert_eq!(sqlite_integer(5, "size").unwrap(), 5);
    assert!(matches!(
        sqlite_integer(u64::MAX, "media size"),
        Err(VaultError::InvalidInput(detail)) if detail == "media size exceeds SQLite integer range"
    ));
}

#[test]
fn trash_metadata_must_describe_its_item() {
    let id = canonical_uuid(ID).unwrap();
    assert!(validate_metadata(&metadata(true), &id).is_ok());
    let mut wrong = metadata(false);
    wrong.mime_type = "text/plain".into();
    assert!(matches!(validate_metadata(&wrong, &id), Err(VaultError::AuthenticationFailed)));
    assert!(matches!(validate_metadata(&metadata(false), &[0_u8; 16]), Err(VaultError::AuthenticationFailed)));
    let item = trash_item(metadata(true), 77).unwrap();
    assert_eq!(item.id, ID);
    assert!(item.thumbnail_available);
    assert_eq!(item.deleted_at, 77);
}

#[test]
fn trash_metadata_is_sealed_to_its_id() {
    let id = canonical_uuid(ID).unwrap();
    let key = [4_u8; 32];
    let (nonce, sealed) = seal_trash_metadata(&key, &id, b"{\"id\":1}").unwrap();
    assert_eq!(open_trash_metadata(&key, ID, &nonce, &sealed).unwrap(), b"{\"id\":1}");
    let other = uuid_text(&[1_u8; 16]);
    assert!(matches!(open_trash_metadata(&key, &other, &nonce, &sealed), Err(VaultError::AuthenticationFailed)));
    assert!(matches!(open_trash_metadata(&[5_u8; 32], ID, &nonce, &sealed), Err(VaultError::AuthenticationFailed)));
}

#[test]
fn delete_needs_the_active_files_and_no_leftovers() {
    assert!(matches!(check_delete_files(false, &files(false, false)), Err(VaultError::NotFound)));
    assert!(check_delete_files(true, &files(true, true)).is_ok());
    assert!(matches!(check_delete_files(true, &files(true, false)), Err(VaultError::AuthenticationFailed)));
    let mut leftover = files(true, false);
    leftover.object_trash = true;
    assert!(matches!(check_delete_files(false, &leftover), Err(VaultError::AuthenticationFailed)));
}

#[test]
fn restored_items_get_a_thumbnail_state() {
    assert_eq!(restored_thumbnail_state(true, "video/mp4"), THUMBNAIL_READY);
    assert_eq!(restored_thumbnail_state(false, "image/png"), THUMBNAIL_PENDING);
    assert_eq!(restored_thumbnail_state(false, "video/mp4"), THUMBNAIL_UNAVAILABLE);
}

#[test]
fn imports_record_whether_a_thumbnail_is_ready_owed_or_impossible() {
    assert_eq!(import_thumbnail_state(true, "image/png", 10, true), THUMBNAIL_READY);
    assert_eq!(import_thumbnail_state(false, "image/jpeg", 10, false), THUMBNAIL_PENDING);
    assert_eq!(import_thumbnail_state(false, "image/jpeg", 10, true), THUMBNAIL_UNAVAILABLE);
    assert_eq!(import_thumbnail_state(false, "image/png", MAX_SOURCE_BYTES + 1, false), THUMBNAIL_UNAVAILABLE);
    assert_eq!(import_thumbnail_state(false, "video/mp4", 10, false), THUMBNAIL_UNAVAILABLE);
}

#[test]
fn missing_thumbnails_are_made_only_for_small_images() {
    assert!(matches!(thumbnail_backfill(THUMBNAIL_UNAVAILABLE, "image/png", 10), Ok(ThumbnailBackfill::Unavailable)));
    assert!(matches!(thumbnail_backfill(THUMBNAIL_PENDING, "image/png", 10), Ok(ThumbnailBackfill::Generate)));
    assert!(matches!(thumbnail_backfill(THUMBNAIL_READY, "image/jpeg", 10), Ok(ThumbnailBackfill::Generate)));
    assert!(matches!(
        thumbnail_backfill(THUMBNAIL_PENDING, "video/webm", 10),
        Ok(ThumbnailBackfill::MarkUnavailable)
    ));
    assert!(matches!(
        thumbnail_backfill(THUMBNAIL_PENDING, "image/png", MAX_SOURCE_BYTES + 1),
        Ok(ThumbnailBackfill::MarkUnavailable)
    ));
    assert!(matches!(thumbnail_backfill(7, "image/png", 10), Err(VaultError::AuthenticationFailed)));
}

#[test]
fn restores_need_a_trashed_object_and_free_names() {
    let files = |active_row, active_object, object_found, object_staged, object_restoring_taken| RestoreFiles {
        active_row,
        active_object,
        object_found,
        object_staged,
        object_restoring_taken,
        thumbnail_found: false,
        thumbnail_staged: false,
        thumbnail_restoring_taken: false,
    };
    assert!(check_restore_files(&files(false, false, true, false, false)).is_ok());
    assert!(check_restore_files(&files(false, false, true, true, true)).is_ok());
    assert!(matches!(
        check_restore_files(&files(true, false, true, false, false)),
        Err(VaultError::InvalidInput(detail)) if detail == "media item is already active"
    ));
    assert!(matches!(check_restore_files(&files(false, true, true, false, false)), Err(VaultError::AuthenticationFailed)));
    assert!(matches!(check_restore_files(&files(false, false, false, false, false)), Err(VaultError::NotFound)));
    assert!(matches!(check_restore_files(&files(false, false, true, false, true)), Err(VaultError::AuthenticationFailed)));
    let thumbnail_blocked = RestoreFiles {
        thumbnail_found: true,
        thumbnail_staged: false,
        thumbnail_restoring_taken: true,
        ..files(false, false, true, false, false)
    };
    assert!(matches!(check_restore_files(&thumbnail_blocked), Err(VaultError::AuthenticationFailed)));
}
