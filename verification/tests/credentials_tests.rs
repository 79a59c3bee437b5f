use nd_secure::commands::{
    check_stream_mime, import_item_result, validate_credential_filters, validate_import_sources,
};
use nd_secure::credential_search::{
    clamp_limit, listed, matches_project, matches_search, normalize_filter, search_page, select_page,
    PageCursor,
};
use nd_secure::credentials::{
    check_detail_matches_row, field_value, open_row, parse_uuid, project_secret_values, save_identity,
    saved_detail, seal_record, summary_from_detail, totp_secret_of, transition_record, validate_input, CredentialDetail,
    CredentialField, CredentialInput, CredentialScope, CredentialType, EncryptedRow, PasswordHistoryEntry,
};
use nd_secure::error::{public_error, VaultError};
use nd_secure::ids::uuid_text;
use nd_secure::source::{
    check_opened_source, check_reopened_source, check_source_metadata, classify_source,
    require_content_uri, OpenSourceResponse, SourceImportOutcome, SourceLocation,
};

const ID: &str = "67e55044-10b1-426f-9247-bb680e5fe0c8";

fn input(record_type: CredentialType) -> CredentialInput {
    CredentialInput {
        id: None,
        record_type,
        title: "  Example  ".into(),
        scope: CredentialScope::Central,
        project: Some("ignored".into()),
        environment: None,
        folder: Some("  Work ".into()),
        username: Some("person@example.com".into()),
        password: Some("a-long-generated-password".into()),
        secret_value: Some("secret".into()),
        websites: vec![" https://example.com ".into(), "   ".into()],
        notes: Some("recovery note".into()),
        totp_secret: Some("JBSWY3DPEHPK3PXP".into()),
        custom_fields: Vec::new(),
        favorite: true,
    }
}

fn detail(id: &str, title: &str, updated_at: i64) -> CredentialDetail {
    let mut d = saved_detail(input(CredentialType::Login), id.into(), 1, updated_at, None);
    d.title = title.into();
    d
}

fn secret(id: &str, environment: &str, value: &str) -> CredentialDetail {
    let mut i = input(CredentialType::Secret);
    i.title = "API_TOKEN".into();
    i.scope = CredentialScope::Project;
    i.project = Some("todo".into());
    i.environment = Some(environment.into());
    i.secret_value = Some(value.into());
    saved_detail(i, id.into(), 1, 1, None)
}

fn id(n: u8) -> String {
    uuid_text(&[n; 16])
}

#[test]
fn credential_records_round_trip_and_reject_wrong_keys() {
    let key = [11_u8; 32];
    let raw_id = [3_u8; 16];
    let sealed = seal_record(&key, &raw_id, CredentialType::Login, 1, b"{\"title\":\"Example\"}").unwrap();
    let row = EncryptedRow {
        id: raw_id,
        record_type: CredentialType::Login,
        salt: sealed.salt,
        nonce: sealed.nonce,
        ciphertext: sealed.ciphertext.clone(),
        format_version: 1,
        revision: 1,
        created_at: 5,
        updated_at: 6,
    };
    assert_eq!(open_row(&key, &row).unwrap(), b"{\"title\":\"Example\"}");
    assert!(matches!(open_row(&[12_u8; 32], &row), Err(VaultError::AuthenticationFailed)));
    let moved = EncryptedRow { revision: 2, ciphertext: sealed.ciphertext.clone(), ..row };
    assert!(matches!(open_row(&key, &moved), Err(VaultError::AuthenticationFailed)));
}

#[test]
fn changing_record_type_discards_hidden_secret_fields() {
    let mut note = input(CredentialType::SecureNote);
    note.notes = Some("kept note".into());
    let detail = saved_detail(note, ID.into(), 1, 2, None);
    assert!(detail.username.is_none());
    assert!(detail.password.is_none());
    assert!(detail.websites.is_empty());
    assert!(detail.totp_secret.is_none());
    assert_eq!(detail.notes.as_deref(), Some("kept note"));
}

#[test]
fn saved_records_keep_only_what_their_kind_uses() {
    let login = saved_detail(input(CredentialType::Login), ID.into(), 1, 2, None);
    assert_eq!(login.title, "Example");
    assert_eq!(login.folder.as_deref(), Some("Work"));
    assert_eq!(login.websites, vec!["https://example.com"]);
    assert!(login.project.is_none());
    assert!(login.secret_value.is_none());
    let totp = saved_detail(input(CredentialType::Totp), ID.into(), 1, 2, None);
    assert_eq!(totp.totp_secret.as_deref(), Some("JBSWY3DPEHPK3PXP"));
    assert!(totp.password.is_none());
    assert_eq!(totp_secret_of(&totp).unwrap(), "JBSWY3DPEHPK3PXP");
    assert!(totp_secret_of(&login).is_err());
}

#[test]
fn input_validation_names_the_first_problem() {
    let mut blank = input(CredentialType::Login);
    blank.title = "   ".into();
    assert!(matches!(
        validate_input(&blank),
        Err(VaultError::InvalidInput(d)) if d == "credential title must contain 1 to 512 bytes"
    ));
    let mut totp = input(CredentialType::Totp);
    totp.totp_secret = None;
    assert!(matches!(
        validate_input(&totp),
        Err(VaultError::InvalidInput(d)) if d == "TOTP secret is required"
    ));
    assert!(validate_input(&input(CredentialType::Login)).is_ok());
}

#[test]
fn saves_keep_creation_time_and_raise_the_revision() {
    assert_eq!(save_identity(false, None, 50).unwrap(), (50, 1));
    assert_eq!(save_identity(true, Some((10, 4)), 50).unwrap(), (10, 5));
    assert_eq!(save_identity(true, Some((10, i64::MAX)), 50).unwrap(), (10, i64::MAX));
    assert!(matches!(save_identity(true, None, 50), Err(VaultError::NotFound)));
}

#[test]
fn uuids_must_be_canonical_ignoring_case() {
    assert_eq!(uuid_text(&parse_uuid(&ID.to_uppercase()).unwrap()), ID);
    assert!(matches!(parse_uuid("nope"), Err(VaultError::InvalidInput(d)) if d == "invalid UUID"));
    assert!(matches!(
        parse_uuid("67e5504410b1426f9247bb680e5fe0c8"),
        Err(VaultError::InvalidInput(d)) if d == "UUID is not canonical"
    ));
}

#[test]
fn copied_fields_must_exist_and_be_non_empty() {
    let mut login = saved_detail(input(CredentialType::Login), ID.into(), 1, 2, None);
    login.custom_fields = vec![CredentialField { name: "pin".into(), value: "1234".into(), hidden: true }];
    assert_eq!(field_value(&login, "password").unwrap(), "a-long-generated-password");
    assert_eq!(field_value(&login, "custom:0").unwrap(), "1234");
    assert!(matches!(
        field_value(&login, "custom:1"),
        Err(VaultError::InvalidInput(d)) if d == "custom field not found"
    ));
    assert!(matches!(
        field_value(&login, "secret"),
        Err(VaultError::InvalidInput(d)) if d == "credential field is empty"
    ));
    assert!(matches!(
        field_value(&login, "other"),
        Err(VaultError::InvalidInput(d)) if d == "unsupported credential field"
    ));
}

#[test]
fn rows_must_match_their_decrypted_records() {
    let raw_id = [3_u8; 16];
    let d = saved_detail(input(CredentialType::Login), uuid_text(&raw_id), 5, 6, None);
    let row = EncryptedRow {
        id: raw_id,
        record_type: CredentialType::Login,
        salt: [0; 16],
        nonce: [0; 12],
        ciphertext: Vec::new(),
        format_version: 1,
        revision: 1,
        created_at: 5,
        updated_at: 6,
    };
    assert!(check_detail_matches_row(&d, &row).is_ok());
    let other = EncryptedRow { updated_at: 7, ..row };
    assert!(matches!(check_detail_matches_row(&d, &other), Err(VaultError::AuthenticationFailed)));
}

#[test]
fn project_secret_resolution_is_exact_and_does_not_fall_back_across_environments() {
    let records = vec![secret(&id(1), "dev", "dev-secret"), secret(&id(2), "prod", "prod-secret")];
    let required = vec!["API_TOKEN".to_owned()];
    let dev = project_secret_values(&records, "todo", "dev", &required).unwrap();
    assert_eq!(dev, vec![("API_TOKEN".to_owned(), "dev-secret".to_owned())]);
    let prod = project_secret_values(&records, "todo", "prod", &required).unwrap();
    assert_eq!(prod, vec![("API_TOKEN".to_owned(), "prod-secret".to_owned())]);
    assert!(project_secret_values(&records, "todo", "test", &required).unwrap().is_empty());
}

#[test]
fn search_lists_matching_records_newest_first() {
    let records = vec![
        detail(&id(1), "Bank", 10),
        detail(&id(2), "Example mail", 30),
        detail(&id(3), "Other example", 20),
    ];
    let page = search_page(records, None, 25, "  EXAMPLE ", None, None);
    let ids: Vec<&str> = page.items.iter().map(|item| item.id.as_str()).collect();
    assert_eq!(ids, vec![id(2), id(3), id(1)]);
    assert!(!page.has_more);
    assert!(page.next_cursor.is_none());
}

#[test]
fn search_pages_continue_after_their_cursor() {
    let records: Vec<CredentialDetail> = (1..=5).map(|n| detail(&id(n), "Item", n as i64)).collect();
    let first = search_page(records, None, 2, "", None, None);
    let first_ids: Vec<String> = first.items.iter().map(|item| item.id.clone()).collect();
    assert_eq!(first_ids, vec![id(5), id(4)]);
    assert!(first.has_more);
    let cursor = first.next_cursor.unwrap();
    assert_eq!((cursor.updated_at, cursor.id.as_str()), (4, id(4).as_str()));
    let records: Vec<CredentialDetail> = (1..=5).map(|n| detail(&id(n), "Item", n as i64)).collect();
    let second = search_page(records, Some(cursor), 2, "", None, None);
    let second_ids: Vec<String> = second.items.iter().map(|item| item.id.clone()).collect();
    assert_eq!(second_ids, vec![id(3), id(2)]);
    let records: Vec<CredentialDetail> = (1..=5).map(|n| detail(&id(n), "Item", n as i64)).collect();
    let last = search_page(records, Some(PageCursor { updated_at: 2, id: id(2) }), 2, "", None, None);
    assert_eq!(last.items.len(), 1);
    assert!(!last.has_more && last.next_cursor.is_none());
}

#[test]
fn equal_times_are_ordered_by_id_descending() {
    let records = vec![detail(&id(1), "A", 7), detail(&id(9), "B", 7), detail(&id(4), "C", 7)];
    let (items, has_more) = select_page(records, "", None, None, &None, 10);
    let ids: Vec<String> = items.iter().map(|item| item.id.clone()).collect();
    assert_eq!(ids, vec![id(9), id(4), id(1)]);
    assert!(!has_more);
}

#[test]
fn filters_select_scopes_projects_and_environments() {
    let central = detail(&id(1), "Mail", 1);
    let project = secret(&id(2), "Prod", "x");
    assert!(matches_project(&central, Some("__central__")));
    assert!(!matches_project(&project, Some("__central__")));
    assert!(matches_project(&project, Some("__project__")));
    assert!(matches_project(&project, Some("TODO")));
    assert!(!matches_project(&project, Some("other")));
    assert!(listed(&project, "", Some("todo"), Some("prod"), &None));
    assert!(!listed(&project, "", Some("todo"), Some("dev"), &None));
    assert!(matches_search(&central, "mail"));
    assert!(!matches_search(&central, "bank"));
    assert_eq!(normalize_filter(Some("  dev ")).as_deref(), Some("dev"));
    assert_eq!(normalize_filter(Some("   ")), None);
    assert_eq!(clamp_limit(0), 1);
    assert_eq!(clamp_limit(10_000), 500);
    assert_eq!(summary_from_detail(central).title, "Mail");
}

#[test]
fn hidden_custom_field_values_are_not_searched() {
    let mut d = detail(&id(1), "Bank", 1);
    d.custom_fields = vec![CredentialField { name: "pin".into(), value: "secret-code".into(), hidden: true }];
    assert!(!matches_search(&d, "secret-code"));
    assert!(matches_search(&d, "pin"));
    d.custom_fields[0].hidden = false;
    assert!(matches_search(&d, "secret-code"));
}

#[test]
fn command_inputs_are_bounded() {
    assert!(matches!(
        validate_import_sources(&Vec::new()),
        Err(message) if message == "select between 1 and 100 media files"
    ));
    assert!(validate_import_sources(&vec!["a".to_owned(); 100]).is_ok());
    assert!(validate_import_sources(&vec!["a".to_owned(); 101]).is_err());
    assert!(matches!(
        validate_import_sources(&vec!["x".repeat(16 * 1024 + 1)]),
        Err(message) if message == "a selected media source identifier is too long"
    ));
    assert!(validate_credential_filters(&"s".repeat(4096), Some("p"), None).is_ok());
    assert!(matches!(
        validate_credential_filters("", None, Some(&"e".repeat(65))),
        Err(message) if message == "credential filter text is too long"
    ));
    assert!(check_stream_mime("video/mp4").is_ok());
    assert!(matches!(check_stream_mime("image/png"), Err(m) if m == "media item is not a video"));
}

#[test]
fn public_errors_hide_storage_details() {
    assert_eq!(public_error(VaultError::Storage("disk /home/x".into())), "unable to access secure local storage");
    assert_eq!(public_error(VaultError::Database("row".into())), "unable to access the encrypted vault index");
    assert_eq!(public_error(VaultError::Platform("x".into())), "the requested platform operation failed");
    assert_eq!(public_error(VaultError::InvalidInput("bad".into())), "invalid input: bad");
    assert_eq!(public_error(VaultError::Locked), "vault is locked");
}

#[test]
fn import_items_report_outcomes_or_public_errors() {
    let kept = import_item_result(0, Ok(SourceImportOutcome::new(ID.into(), true, false)));
    assert_eq!(kept.id.as_deref(), Some(ID));
    assert!(!kept.source_removed);
    assert!(kept.warning.unwrap().starts_with("The encrypted item was saved"));
    let removed = import_item_result(1, Ok(SourceImportOutcome::new(ID.into(), true, true)));
    assert!(removed.source_removed && removed.warning.is_none());
    let failed = import_item_result(2, Err(VaultError::UnsupportedMedia));
    assert_eq!(failed.source_index, 2);
    assert_eq!(failed.error.as_deref(), Some("unsupported or malformed media file"));
    let untouched = SourceImportOutcome::new(ID.into(), false, true);
    assert!(!untouched.source_removed && untouched.warning.is_none());
}

#[test]
fn sources_are_classified_and_checked() {
    assert_eq!(classify_source("file:///tmp/a.png").unwrap(), SourceLocation::FileUrl);
    assert_eq!(classify_source("/tmp/a.png").unwrap(), SourceLocation::Path);
    assert!(matches!(classify_source(""), Err(VaultError::InvalidInput(d)) if d == "empty media source"));
    assert!(matches!(check_source_metadata(false, 5), Err(VaultError::InvalidInput(d)) if d == "media source must be a file"));
    assert!(matches!(check_source_metadata(true, 0), Err(VaultError::InvalidInput(d)) if d == "empty media files are not supported"));
    assert!(check_source_metadata(true, 1).is_ok());
    assert!(require_content_uri("content://x").is_ok());
    assert!(require_content_uri("file://x").is_err());
    assert!(matches!(check_opened_source(&OpenSourceResponse { fd: -1, size: 5 }), Err(VaultError::Platform(_))));
    assert!(check_opened_source(&OpenSourceResponse { fd: 3, size: 5 }).is_ok());
    assert!(matches!(
        check_reopened_source(&OpenSourceResponse { fd: 3, size: 4 }, 5),
        Err(VaultError::InvalidInput(d)) if d == "media source changed after import"
    ));
}

#[test]
fn trash_moves_reseal_the_record_at_its_next_revision() {
    let raw_id = [4_u8; 16];
    let d = saved_detail(input(CredentialType::Login), uuid_text(&raw_id), 5, 6, None);
    let (moved, revision) = transition_record(d, 3, 40);
    assert_eq!(revision, 4);
    assert_eq!(moved.updated_at, 40);
    assert_eq!(moved.created_at, 5);
    assert_eq!(moved.title, "Example");
    let row = EncryptedRow {
        id: raw_id,
        record_type: CredentialType::Login,
        salt: [0; 16],
        nonce: [0; 12],
        ciphertext: Vec::new(),
        format_version: 1,
        revision,
        created_at: 5,
        updated_at: 40,
    };
    assert!(check_detail_matches_row(&moved, &row).is_ok());
    let (_, saturated) = transition_record(moved, i64::MAX, 41);
    assert_eq!(saturated, i64::MAX);
}

#[test]
fn a_changed_password_enters_the_bounded_history() {
    let first = saved_detail(input(CredentialType::Login), ID.into(), 1, 2, None);
    assert!(first.password_history.is_empty());
    let mut changed = input(CredentialType::Login);
    changed.password = Some("a-new-password".into());
    let second = saved_detail(changed, ID.into(), 1, 3, Some(first));
    assert_eq!(second.password_history.len(), 1);
    assert_eq!(second.password_history[0].password, "a-long-generated-password");
    assert_eq!(second.password_history[0].changed_at, 3);

    let mut same = input(CredentialType::Login);
    same.password = Some("a-new-password".into());
    let third = saved_detail(same, ID.into(), 1, 4, Some(second));
    assert_eq!(third.password_history.len(), 1);

    let mut full = saved_detail(input(CredentialType::Login), ID.into(), 1, 5, None);
    full.password_history =
        (0..10).map(|n| PasswordHistoryEntry { password: format!("old-{n}"), changed_at: n }).collect();
    let mut again = input(CredentialType::Login);
    again.password = Some("yet another password".into());
    let bounded = saved_detail(again, ID.into(), 1, 6, Some(full));
    assert_eq!(bounded.password_history.len(), 10);
    assert_eq!(bounded.password_history[0].password, "a-long-generated-password");
    assert_eq!(bounded.password_history[9].password, "old-8");
}

#[test]
fn only_logins_keep_a_password_history() {
    let login = saved_detail(input(CredentialType::Login), ID.into(), 1, 2, None);
    let note = saved_detail(input(CredentialType::SecureNote), ID.into(), 1, 3, Some(login));
    assert!(note.password_history.is_empty());
}

#[test]
fn successive_pages_neither_repeat_nor_skip_records() {
    let all: Vec<CredentialDetail> = (1..=5).map(|n| detail(&id(n), "Example", 10 + n as i64)).collect();
    let first = search_page(all, None, 2, "", None, None);
    assert_eq!(first.items.len(), 2);
    assert!(first.has_more);
    let again: Vec<CredentialDetail> = (1..=5).map(|n| detail(&id(n), "Example", 10 + n as i64)).collect();
    let second = search_page(again, first.next_cursor, 10, "", None, None);
    let mut seen: Vec<String> = first.items.iter().chain(second.items.iter()).map(|s| s.id.clone()).collect();
    assert_eq!(seen.len(), 5);
    seen.sort();
    seen.dedup();
    assert_eq!(seen.len(), 5);
    assert!(!second.has_more);
}
