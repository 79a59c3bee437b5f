use nd_secure::env::ProjectRegistration;
use nd_secure::error::VaultError;
use nd_secure::gallery::{find_transition_variant, reconcile_to_active, variant_extension, TransitionVariant};
use nd_secure::ids::uuid_text;
use nd_secure::registry::{
    check_registration_matches_row, open_project_row, project_record_aad, registration_identity,
    seal_registration, EncryptedProjectRow, REGISTRY_FORMAT_VERSION,
};

fn row(id: [u8; 16], revision: i64, sealed: &nd_secure::registry::SealedRegistration) -> EncryptedProjectRow {
    EncryptedProjectRow {
        id,
        salt: sealed.salt,
        nonce: sealed.nonce,
        ciphertext: sealed.ciphertext.clone(),
        format_version: REGISTRY_FORMAT_VERSION,
        revision,
        created_at: 1,
        updated_at: 2,
    }
}

#[test]
fn project_registry_encrypts_local_path() {
    let key = [9_u8; 32];
    let id = [4_u8; 16];
    let plaintext = b"{\"root\":\"/home/me/todo-project\"}";
    let sealed = seal_registration(&key, &id, 3, plaintext).unwrap();
    assert!(!sealed.ciphertext.windows(b"todo-project".len()).any(|w| w == b"todo-project"));
    assert_eq!(open_project_row(&key, &row(id, 3, &sealed)).unwrap(), plaintext);
    assert!(matches!(open_project_row(&[8_u8; 32], &row(id, 3, &sealed)), Err(VaultError::AuthenticationFailed)));
    assert!(matches!(open_project_row(&key, &row(id, 4, &sealed)), Err(VaultError::AuthenticationFailed)));
    assert!(matches!(open_project_row(&key, &row(id, 0, &sealed)), Err(VaultError::AuthenticationFailed)));
}

#[test]
fn registry_aad_binds_id_and_revision() {
    let aad = project_record_aad(&[1_u8; 16], 2);
    assert!(aad.starts_with(b"nd-secure/project-registration-aad/v1"));
    assert_eq!(&aad[aad.len() - 8..], &2_i64.to_be_bytes());
}

#[test]
fn decrypted_registrations_must_match_their_row() {
    let id = [4_u8; 16];
    let sealed = seal_registration(&[9_u8; 32], &id, 1, b"{}").unwrap();
    let stored = row(id, 1, &sealed);
    let registration = ProjectRegistration {
        id: uuid_text(&id),
        name: "todo".into(),
        root: "/tmp/todo".into(),
        environments: vec!["dev".into()],
        required_keys: Vec::new(),
        created_at: 1,
        updated_at: 2,
    };
    assert!(check_registration_matches_row(&registration, &stored).is_ok());
    let moved = ProjectRegistration { updated_at: 3, ..registration };
    assert!(matches!(check_registration_matches_row(&moved, &stored), Err(VaultError::AuthenticationFailed)));
}

#[test]
fn registrations_keep_creation_time_and_raise_revision() {
    assert_eq!(registration_identity(None, 50), (50, 1));
    assert_eq!(registration_identity(Some((10, 3)), 50), (10, 4));
    assert_eq!(registration_identity(Some((10, i64::MAX)), 50), (10, i64::MAX));
}

#[test]
fn restores_journaled_active_object_before_gallery_cleanup() {
    assert_eq!(find_transition_variant(false, true, false, false).unwrap(), Some(TransitionVariant::Trashing));
    assert_eq!(find_transition_variant(false, false, false, false).unwrap(), None);
    assert!(matches!(find_transition_variant(true, false, true, false), Err(VaultError::AuthenticationFailed)));
    assert_eq!(variant_extension(TransitionVariant::Purging), "purging");
    assert_eq!(reconcile_to_active(false, Some(TransitionVariant::Restoring), true).unwrap(), (true, Some(TransitionVariant::Restoring)));
    assert_eq!(reconcile_to_active(true, None, true).unwrap(), (true, None));
    assert_eq!(reconcile_to_active(false, None, true).unwrap(), (false, None));
    assert_eq!(reconcile_to_active(false, None, false).unwrap(), (true, None));
    assert!(matches!(reconcile_to_active(true, Some(TransitionVariant::Trash), true), Err(VaultError::AuthenticationFailed)));
}
