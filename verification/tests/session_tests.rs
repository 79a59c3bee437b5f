use aes_gcm::aead::{Aead, KeyInit, Payload};
use aes_gcm::{Aes256Gcm, Nonce};
use base64::engine::general_purpose::STANDARD;
use base64::Engine;
use nd_secure::crypto::{credentials_domain, derive_domain_key, gallery_domain};
use nd_secure::error::VaultError;
use nd_secure::session::{
    decode_array_16, derive_password_key, initial_header, legacy_verifier_aad, seal_root_verifier,
    validate_auto_lock, validate_clipboard_timeout, validate_password, verify_root_verifier, wrap_root_key,
    SessionCore, VaultHeader,
    DEFAULT_CLIPBOARD_TIMEOUT_SECONDS, HEADER_VERSION, LEGACY_HEADER_VERSION, PREVIOUS_HEADER_VERSION,
};

const PASSWORD: &str = "correct horse battery staple";
const NOW: u64 = 1_000_000;

fn opened() -> (VaultHeader, [u8; 32], SessionCore) {
    let (header, root) = initial_header(false, PASSWORD, 300).unwrap();
    let mut core = SessionCore::new(Some(&header));
    core.open_with(&header, root, NOW, true);
    (header, root, core)
}

/// An open session whose header uses the cheapest Argon2 parameters a
/// header may have, so that tests deriving several keys stay quick.
fn cheap_opened() -> (VaultHeader, [u8; 32], SessionCore) {
    let salt = [3_u8; 16];
    let root = [11_u8; 32];
    let key = derive_password_key(PASSWORD, &salt, 32_768, 1, 1).unwrap();
    let mut header = VaultHeader {
        version: HEADER_VERSION,
        salt: STANDARD.encode(salt),
        argon_memory_kib: 32_768,
        argon_iterations: 1,
        argon_parallelism: 1,
        verifier_nonce: String::new(),
        verifier_ciphertext: String::new(),
        auto_lock_seconds: 300,
        delete_source_after_import: false,
        vault_id: "dGVzdC12YXVsdA".into(),
        wrapped_root_nonce: String::new(),
        wrapped_root_ciphertext: String::new(),
        recovery_nonce: String::new(),
        recovery_ciphertext: String::new(),
        lock_on_blur: false,
        lock_on_suspend: true,
        clipboard_timeout_seconds: DEFAULT_CLIPBOARD_TIMEOUT_SECONDS,
    };
    wrap_root_key(&mut header, &key, &root).unwrap();
    seal_root_verifier(&mut header, &root).unwrap();
    let mut core = SessionCore::new(Some(&header));
    core.open_with(&header, root, NOW, true);
    (header, root, core)
}

fn legacy_header(version: u16, delete_source_after_import: bool) -> (VaultHeader, [u8; 32]) {
    let salt = [7_u8; 16];
    let nonce = [9_u8; 12];
    let key = derive_password_key(PASSWORD, &salt, 65_536, 3, 1).unwrap();
    let mut header = VaultHeader {
        version,
        salt: STANDARD.encode(salt),
        argon_memory_kib: 65_536,
        argon_iterations: 3,
        argon_parallelism: 1,
        verifier_nonce: STANDARD.encode(nonce),
        verifier_ciphertext: String::new(),
        auto_lock_seconds: 300,
        delete_source_after_import,
        vault_id: String::new(),
        wrapped_root_nonce: String::new(),
        wrapped_root_ciphertext: String::new(),
        recovery_nonce: String::new(),
        recovery_ciphertext: String::new(),
        lock_on_blur: false,
        lock_on_suspend: true,
        clipboard_timeout_seconds: DEFAULT_CLIPBOARD_TIMEOUT_SECONDS,
    };
    let cipher = Aes256Gcm::new_from_slice(&key).unwrap();
    let aad = legacy_verifier_aad(&header).unwrap();
    let ciphertext = cipher
        .encrypt(
            Nonce::from_slice(&nonce),
            Payload { msg: b"ND_SECURE_MASTER_KEY_VERIFIER_V1", aad: &aad },
        )
        .unwrap();
    header.verifier_ciphertext = STANDARD.encode(ciphertext);
    (header, key)
}

#[test]
fn domain_keys_are_distinct() {
    let root = [7_u8; 32];
    let gallery = derive_domain_key(&root, b"gallery").unwrap();
    let credentials = derive_domain_key(&root, b"credentials").unwrap();
    assert_ne!(gallery, credentials);
}

#[test]
fn session_initializes_with_secure_lifecycle_defaults() {
    let (_, _, mut core) = opened();
    let initialized = core.status(NOW, true);
    assert!(initialized.initialized);
    assert!(!initialized.locked);
    assert!(!initialized.delete_source_after_import);
    assert!(!initialized.lock_on_blur);
    assert!(initialized.lock_on_suspend);
    assert_eq!(initialized.clipboard_timeout_seconds, DEFAULT_CLIPBOARD_TIMEOUT_SECONDS);
    assert!(!initialized.recovery_configured);
    assert!(initialized.recently_reauthenticated);
    assert_ne!(
        core.domain_key(NOW, &gallery_domain()).unwrap(),
        core.domain_key(NOW, &credentials_domain()).unwrap()
    );
}

#[test]
fn initialization_refuses_weak_passwords_and_existing_vaults() {
    assert!(matches!(initial_header(false, "short", 300), Err(VaultError::WeakPassword)));
    assert!(matches!(initial_header(true, PASSWORD, 300), Err(VaultError::AlreadyInitialized)));
    assert!(matches!(validate_password("elevenchars"), Err(VaultError::WeakPassword)));
    assert!(validate_password("twelve chars").is_ok());
}

#[test]
fn authenticated_setting_tampering_is_detected() {
    let (header, _, _) = cheap_opened();
    let mut tampered = header.clone();
    tampered.delete_source_after_import = true;
    let mut core = SessionCore::new(Some(&tampered));
    let step = core.begin_unlock(Some(tampered), PASSWORD, NOW).unwrap();
    assert!(matches!(
        core.complete_unlock(&step.header, step.root_key, NOW),
        Err(VaultError::AuthenticationFailed)
    ));
    assert!(core.status(NOW, true).locked);
}

#[test]
fn unlock_opens_the_session_with_the_original_root() {
    let (header, root, _) = cheap_opened();
    let mut core = SessionCore::new(Some(&header));
    let step = core.begin_unlock(Some(header), PASSWORD, NOW).unwrap();
    assert!(!step.migrated);
    assert_eq!(step.root_key, root);
    core.complete_unlock(&step.header, step.root_key, NOW).unwrap();
    assert!(!core.status(NOW, true).locked);
}

#[test]
fn wrong_passwords_are_counted_and_rate_limited() {
    let (header, _, _) = cheap_opened();
    let mut core = SessionCore::new(Some(&header));
    assert!(matches!(
        core.begin_unlock(Some(header.clone()), "wrong password 123", NOW),
        Err(VaultError::InvalidPassword)
    ));
    assert_eq!(core.failed, 1);
    assert!(matches!(core.check_attempt_limit(NOW), Err(VaultError::RateLimited)));
    assert!(matches!(
        core.begin_unlock(Some(header), PASSWORD, NOW),
        Err(VaultError::RateLimited)
    ));
}

#[test]
fn master_password_change_preserves_encrypted_domain_keys() {
    let (header, _, mut core) = cheap_opened();
    let new_password = "another correct horse battery staple";
    let before = core.domain_key(NOW, &credentials_domain()).unwrap();
    let changed = core.change_master_password(Some(header), PASSWORD, new_password, NOW).unwrap();
    core.lock();

    let mut reopened = SessionCore::new(Some(&changed));
    let step = reopened.begin_unlock(Some(changed), new_password, NOW).unwrap();
    reopened.complete_unlock(&step.header, step.root_key, NOW).unwrap();
    let after = reopened.domain_key(NOW, &credentials_domain()).unwrap();
    assert_eq!(before, after);
}

#[test]
fn changed_master_password_refuses_the_old_one() {
    let (header, _, mut core) = cheap_opened();
    let changed = core
        .change_master_password(Some(header), PASSWORD, "another correct horse battery staple", NOW)
        .unwrap();
    let mut old_attempt = SessionCore::new(Some(&changed));
    assert!(matches!(
        old_attempt.begin_unlock(Some(changed), PASSWORD, NOW),
        Err(VaultError::InvalidPassword)
    ));
}

#[test]
fn recovery_key_can_reset_password_without_rotating_root_key() {
    let (header, root, mut core) = cheap_opened();
    let new_password = "recovered horse battery staple";
    let (with_recovery, recovery) = core.create_recovery_key(Some(header), PASSWORD, NOW).unwrap();
    core.lock();
    let (recovered, recovered_root) =
        SessionCore::recover_with_key(Some(with_recovery), &recovery.recovery_key, new_password).unwrap();
    assert_eq!(recovered_root, root);
    let mut reopened = SessionCore::new(Some(&recovered));
    let step = reopened.begin_unlock(Some(recovered), new_password, NOW).unwrap();
    assert_eq!(step.root_key, root);
}

#[test]
fn legacy_header_migrates_to_envelope_without_changing_domain_keys() {
    let (legacy, legacy_root) = legacy_header(PREVIOUS_HEADER_VERSION, true);
    let salt = decode_array_16(&legacy.salt).unwrap();
    assert_eq!(salt, [7_u8; 16]);
    let expected_gallery = derive_domain_key(&legacy_root, &gallery_domain()).unwrap();
    let mut core = SessionCore::new(Some(&legacy));
    let step = core.begin_unlock(Some(legacy), PASSWORD, NOW).unwrap();
    assert!(step.migrated);
    assert_eq!(step.header.version, HEADER_VERSION);
    assert!(!step.header.wrapped_root_ciphertext.is_empty());
    assert!(step.header.delete_source_after_import);
    assert!(verify_root_verifier(&step.header, &legacy_root).unwrap());
    core.complete_unlock(&step.header, step.root_key, NOW).unwrap();
    assert_eq!(core.domain_key(NOW, &gallery_domain()).unwrap(), expected_gallery);
}

#[test]
fn v1_migration_forces_source_removal_off() {
    let (legacy, _) = legacy_header(LEGACY_HEADER_VERSION, true);
    let mut core = SessionCore::new(Some(&legacy));
    assert!(!core.delete_source_after_import);
    let step = core.begin_unlock(Some(legacy), PASSWORD, NOW).unwrap();
    assert!(!step.header.delete_source_after_import);
}

#[test]
fn settings_are_bounded() {
    assert!(validate_auto_lock(60).is_ok());
    assert!(validate_auto_lock(59).is_err());
    assert!(validate_auto_lock(86_401).is_err());
    assert!(validate_clipboard_timeout(5).is_ok());
    assert!(validate_clipboard_timeout(301).is_err());
}

#[test]
fn locking_forgets_the_root_key() {
    let (_, _, mut core) = opened();
    core.lock();
    assert!(matches!(core.domain_key(NOW, &gallery_domain()), Err(VaultError::Locked)));
}

#[test]
fn idle_sessions_expire() {
    let (_, _, mut core) = opened();
    assert!(core.touch(NOW + 299_000).is_ok());
    assert!(matches!(core.touch(NOW + 299_000 + 300_001), Err(VaultError::Locked)));
}

#[test]
fn argon2_refuses_exactly_the_parameters_outside_its_limits() {
    let salt = [5_u8; 16];
    assert!(derive_password_key(PASSWORD, &salt, 8, 1, 1).is_ok());
    assert!(matches!(derive_password_key(PASSWORD, &salt, 7, 1, 1), Err(VaultError::Crypto)));
    assert!(matches!(derive_password_key(PASSWORD, &salt, 64, 0, 1), Err(VaultError::Crypto)));
    assert!(matches!(derive_password_key(PASSWORD, &salt, 64, 1, 0), Err(VaultError::Crypto)));
    assert!(matches!(derive_password_key(PASSWORD, &salt, 64, 1, 9), Err(VaultError::Crypto)));
    assert!(matches!(derive_password_key(PASSWORD, &salt, u32::MAX, 1, 0x1000_0000), Err(VaultError::Crypto)));
    assert_ne!(
        derive_password_key(PASSWORD, &salt, 8, 1, 1).unwrap(),
        derive_password_key("another password!", &salt, 8, 1, 1).unwrap()
    );
}

#[test]
fn header_changes_need_an_open_session() {
    let (header, _, mut core) = cheap_opened();
    core.lock();
    assert!(matches!(
        core.set_delete_source_after_import(Some(header.clone()), true, NOW),
        Err(VaultError::Locked)
    ));
    assert!(matches!(core.disable_recovery(Some(header), PASSWORD, NOW), Err(VaultError::Locked)));
}

#[test]
fn resealed_headers_stay_authentic_to_the_root_key() {
    let (header, root, mut core) = cheap_opened();
    let changed = core.set_delete_source_after_import(Some(header.clone()), true, NOW).unwrap();
    assert!(changed.delete_source_after_import);
    assert_eq!(changed.vault_id, header.vault_id);
    assert_eq!(changed.wrapped_root_ciphertext, header.wrapped_root_ciphertext);
    let checked = SessionCore::authenticated_header(Some(changed), &root).unwrap();
    assert!(checked.delete_source_after_import);
}

#[test]
fn authenticated_header_refusals() {
    let (header, root, _) = cheap_opened();
    assert!(matches!(
        SessionCore::authenticated_header(None, &root),
        Err(VaultError::NotInitialized)
    ));
    assert!(matches!(
        SessionCore::authenticated_header(Some(header.clone()), &[12_u8; 32]),
        Err(VaultError::AuthenticationFailed)
    ));
    let mut older = header;
    older.version = PREVIOUS_HEADER_VERSION;
    assert!(matches!(
        SessionCore::authenticated_header(Some(older), &root),
        Err(VaultError::AuthenticationFailed)
    ));
}

#[test]
fn recovery_changes_need_the_current_password() {
    let (header, _, mut core) = cheap_opened();
    assert!(matches!(
        core.create_recovery_key(Some(header.clone()), "not the password!", NOW),
        Err(VaultError::InvalidPassword)
    ));
    let (with_recovery, _) = core.create_recovery_key(Some(header), PASSWORD, NOW + 2_000).unwrap();
    assert!(!with_recovery.recovery_nonce.is_empty());
    let disabled = core.disable_recovery(Some(with_recovery.clone()), PASSWORD, NOW + 3_000).unwrap();
    assert!(disabled.recovery_nonce.is_empty() && disabled.recovery_ciphertext.is_empty());
    assert_eq!(disabled.wrapped_root_nonce, with_recovery.wrapped_root_nonce);
}

#[test]
fn complete_unlock_refuses_a_foreign_root_key() {
    let (header, _, _) = cheap_opened();
    let mut core = SessionCore::new(Some(&header));
    assert!(matches!(
        core.complete_unlock(&header, [12_u8; 32], NOW),
        Err(VaultError::AuthenticationFailed)
    ));
    assert!(core.status(NOW, true).locked);
}

#[test]
fn a_wrong_unlock_password_is_counted_and_delays_the_next_attempt() {
    let (header, _, _) = cheap_opened();
    let mut core = SessionCore::new(Some(&header));
    assert!(matches!(
        core.begin_unlock(Some(header.clone()), "wrong password 123", NOW),
        Err(VaultError::InvalidPassword)
    ));
    assert_eq!(core.failed, 1);
    assert_eq!(core.blocked_until, Some(NOW + 1_000));
    assert!(matches!(core.check_attempt_limit(NOW + 999), Err(VaultError::RateLimited)));
    assert!(core.check_attempt_limit(NOW + 1_000).is_ok());
    assert!(matches!(
        core.begin_unlock(Some(header.clone()), "wrong password 456", NOW + 1_000),
        Err(VaultError::InvalidPassword)
    ));
    assert_eq!(core.failed, 2);
    assert_eq!(core.blocked_until, Some(NOW + 3_000));
    let step = core.begin_unlock(Some(header), PASSWORD, NOW + 3_000).unwrap();
    core.complete_unlock(&step.header, step.root_key, NOW + 3_000).unwrap();
    assert_eq!(core.failed, 0);
    assert_eq!(core.blocked_until, None);
}

#[test]
fn a_missing_header_is_not_counted_as_a_failure() {
    let mut core = SessionCore::new(None);
    assert!(matches!(core.begin_unlock(None, PASSWORD, NOW), Err(VaultError::NotInitialized)));
    assert_eq!(core.failed, 0);
    assert_eq!(core.blocked_until, None);
}

#[test]
fn a_wrong_reauthentication_password_is_counted() {
    let (header, _, mut core) = cheap_opened();
    assert!(matches!(
        core.reauthenticate(Some(header.clone()), "not the password!", NOW),
        Err(VaultError::InvalidPassword)
    ));
    assert_eq!(core.failed, 1);
    assert!(matches!(core.reauthenticate(Some(header.clone()), PASSWORD, NOW + 500), Err(VaultError::RateLimited)));
    core.reauthenticate(Some(header), PASSWORD, NOW + 1_000).unwrap();
    assert_eq!(core.failed, 0);
}

#[test]
fn a_fresh_header_is_authentic_and_opens_with_its_password() {
    let (header, root) = initial_header(false, PASSWORD, 10).unwrap();
    assert_eq!(header.auto_lock_seconds, 60);
    let checked = SessionCore::authenticated_header(Some(header), &root).unwrap();
    assert_eq!(checked.version, HEADER_VERSION);
}

#[test]
fn settings_changes_reseal_the_header() {
    let (header, root, mut core) = cheap_opened();
    let longer = core.set_auto_lock(Some(header.clone()), 900, NOW).unwrap();
    assert_eq!(longer.auto_lock_seconds, 900);
    assert_eq!(longer.salt, header.salt);
    SessionCore::authenticated_header(Some(longer), &root).unwrap();
    let preferences = core.set_security_preferences(Some(header.clone()), true, false, 30, NOW).unwrap();
    assert!(preferences.lock_on_blur && !preferences.lock_on_suspend);
    assert_eq!(preferences.clipboard_timeout_seconds, 30);
    SessionCore::authenticated_header(Some(preferences), &root).unwrap();
    core.lock();
    assert!(matches!(core.set_auto_lock(Some(header.clone()), 900, NOW), Err(VaultError::Locked)));
    assert!(matches!(core.set_security_preferences(Some(header), true, true, 30, NOW), Err(VaultError::Locked)));
}

#[test]
fn a_recovery_key_has_its_fixed_text_form() {
    let (header, _, mut core) = cheap_opened();
    let (_, key) = core.create_recovery_key(Some(header), PASSWORD, NOW).unwrap();
    assert!(key.recovery_key.starts_with("NDSECURE-R1-"));
    assert_eq!(key.recovery_key.len(), 12 + 43);
}

#[test]
fn recovery_refuses_a_wrong_key() {
    let (header, _, mut core) = cheap_opened();
    let (with_recovery, _) = core.create_recovery_key(Some(header), PASSWORD, NOW).unwrap();
    let (_, other) = core.create_recovery_key(Some(with_recovery.clone()), PASSWORD, NOW + 1).unwrap();
    assert!(matches!(
        SessionCore::recover_with_key(Some(with_recovery), &other.recovery_key, "recovered horse battery"),
        Err(VaultError::InvalidPassword)
    ));
}

#[test]
fn a_recent_confirmation_check_restarts_the_idle_timer() {
    let (_, _, mut core) = opened();
    core.require_recent_reauthentication(NOW + 100_000).unwrap();
    assert!(core.touch(NOW + 100_000 + 299_000).is_ok());
}

#[test]
fn a_confirmation_lasts_two_minutes() {
    let (_, _, mut core) = opened();
    core.require_recent_reauthentication(NOW + 119_999).unwrap();
    assert!(matches!(core.require_recent_reauthentication(NOW + 120_000), Err(VaultError::InvalidInput(_))));
}

#[test]
fn disabling_recovery_retires_the_recovery_key() {
    let (header, _, mut core) = cheap_opened();
    let (with_recovery, key) = core.create_recovery_key(Some(header), PASSWORD, NOW).unwrap();
    let disabled = core.disable_recovery(Some(with_recovery), PASSWORD, NOW + 1).unwrap();
    assert!(matches!(
        SessionCore::recover_with_key(Some(disabled), &key.recovery_key, "recovered horse battery"),
        Err(VaultError::InvalidInput(_))
    ));
}
