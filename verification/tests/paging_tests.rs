use nd_secure::container::plan_whole_read;
use nd_secure::error::VaultError;
use nd_secure::gallery::{gallery_next_cursor, split_trash_page, GalleryItem, GalleryTrashItem};
use nd_secure::protocol::{route_object_request, ObjectRoute};

fn item(n: i64) -> GalleryItem {
    GalleryItem {
        id: format!("item-{n}"),
        mime_type: "image/png".into(),
        file_size_bytes: 10,
        timestamp_added: 100 - n,
        width: None,
        height: None,
        duration_ms: None,
        thumbnail_available: false,
    }
}

fn trashed(n: i64) -> GalleryTrashItem {
    GalleryTrashItem {
        id: format!("trash-{n}"),
        mime_type: "video/mp4".into(),
        file_size_bytes: 10,
        timestamp_added: 1,
        width: None,
        height: None,
        duration_ms: Some(5),
        thumbnail_available: false,
        deleted_at: 50 - n,
    }
}

#[test]
fn only_full_gallery_pages_have_a_next_cursor() {
    let full: Vec<GalleryItem> = (0..3).map(item).collect();
    assert_eq!(gallery_next_cursor(&full, 3), Some((98, "item-2".to_string())));
    assert_eq!(gallery_next_cursor(&full, 4), None);
    assert_eq!(gallery_next_cursor(&Vec::new(), 0), None);
}

#[test]
fn trash_pages_keep_the_limit_and_point_past_it() {
    let read: Vec<GalleryTrashItem> = (0..4).map(trashed).collect();
    let (page, next) = split_trash_page(read, 3);
    assert_eq!(page.len(), 3);
    assert_eq!(page[2].id, "trash-2");
    assert_eq!(next, Some((48, "trash-2".to_string())));
    let (page, next) = split_trash_page((0..2).map(trashed).collect(), 3);
    assert_eq!(page.len(), 2);
    assert_eq!(next, None);
}

#[test]
fn whole_reads_are_bounded() {
    assert!(matches!(plan_whole_read(10, 10), Ok((0, 9))));
    assert!(matches!(plan_whole_read(11, 10), Err(VaultError::RangeTooLarge)));
    assert!(matches!(plan_whole_read(0, 10), Err(VaultError::RangeTooLarge)));
}

#[test]
fn object_requests_are_routed_by_origin_and_method() {
    assert_eq!(route_object_request("GET", None), ObjectRoute::Serve);
    assert_eq!(route_object_request("HEAD", Some("tauri://localhost")), ObjectRoute::Serve);
    assert_eq!(route_object_request("OPTIONS", Some("http://tauri.localhost")), ObjectRoute::Preflight);
    assert_eq!(route_object_request("POST", None), ObjectRoute::MethodNotAllowed);
    assert_eq!(route_object_request("GET", Some("https://example.com")), ObjectRoute::Forbidden);
}
