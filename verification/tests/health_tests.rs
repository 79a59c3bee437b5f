use nd_secure::clock::timestamp_from;
use nd_secure::health::{CursorHistory, HealthAccumulator, HealthProblem};
use nd_secure::paths::VaultPaths;

#[test]
fn health_report_counts_items_and_issues() {
    let mut health = HealthAccumulator::new();
    health.count_gallery_items(3);
    health.count_gallery_trash_items(1);
    health.count_credentials(4, false);
    health.count_credentials(2, true);
    health.verified_bytes(100);
    health.issue("gallery", Some("id".into()), "broken");
    let report = health.report(9);
    assert_eq!(report.gallery_items, 3);
    assert_eq!(report.gallery_trash_items, 1);
    assert_eq!(report.credential_items, 4);
    assert_eq!(report.credential_trash_items, 2);
    assert_eq!(report.verified_media_bytes, 100);
    assert_eq!(report.issues.len(), 1);
    assert_eq!(report.issues[0].message, "broken");
    assert!(!report.healthy);
    assert_eq!(report.checked_at, 9);
}

#[test]
fn reported_issues_are_capped() {
    let mut health = HealthAccumulator::new();
    for _ in 0..60 {
        health.problem(HealthProblem::GalleryMediaFailed, None);
    }
    let report = health.report(1);
    assert_eq!(report.issues.len(), 50);
    assert_eq!(report.total_issues, 60);
    assert!(!report.healthy);
}

#[test]
fn cursor_history_detects_repeats() {
    let mut history = CursorHistory::new();
    assert!(history.note("a"));
    assert!(history.note("b"));
    assert!(!history.note("a"));
}

#[test]
fn timestamps_fit_sqlite_integers() {
    assert_eq!(timestamp_from(Some(5)).unwrap(), 5);
    assert!(timestamp_from(None).is_err());
    assert!(timestamp_from(Some(u64::MAX)).is_err());
}

#[test]
fn vault_paths_live_under_the_app_directory() {
    let paths = VaultPaths::new("/data/app");
    assert_eq!(paths.header, "/data/app/vault/vault-header.json");
    assert_eq!(paths.gallery_objects, "/data/app/vault/gallery/objects");
    assert_eq!(paths.credentials_db, "/data/app/vault/credentials/credentials.sqlite3");
}

#[test]
fn finished_report_is_stamped_with_the_clock() {
    let mut health = HealthAccumulator::new();
    health.count_gallery_items(2);
    health.verified_bytes(7);
    let report = health.finish().unwrap();
    assert!(report.healthy);
    assert_eq!(report.gallery_items, 2);
    assert_eq!(report.verified_media_bytes, 7);
    assert_eq!(report.total_issues, 0);
    assert!(report.checked_at > 1_600_000_000);
}
