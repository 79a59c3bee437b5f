use nd_secure::container::{check_destination_free, check_source_exhausted};
use nd_secure::error::VaultError;
use nd_secure::gallery::{check_purgeable, check_purged};
use nd_secure::media_server::{stream_answer, StreamAnswer};

#[test]
fn a_partial_request_is_served_with_its_range() {
    match stream_answer("video/mp4", 1000, "video/mp4", 1000, Some("bytes=10-19")) {
        StreamAnswer::Serve { status, start, end, content_length, content_range } => {
            assert_eq!((status, start, end, content_length), (206, 10, 19, 10));
            assert_eq!(content_range.as_deref(), Some("bytes 10-19/1000"));
        }
        StreamAnswer::Refuse { .. } => panic!("the range should be served"),
    }
}

#[test]
fn a_plain_request_is_served_whole() {
    match stream_answer("video/webm", 5, "video/webm", 5, None) {
        StreamAnswer::Serve { status, start, end, content_length, content_range } => {
            assert_eq!((status, start, end, content_length), (200, 0, 4, 5));
            assert!(content_range.is_none());
        }
        StreamAnswer::Refuse { .. } => panic!("the video should be served"),
    }
}

#[test]
fn refused_streams_get_their_status() {
    match stream_answer("video/mp4", 1000, "video/mp4", 1000, Some("bytes=2000-")) {
        StreamAnswer::Refuse { status, content_range } => {
            assert_eq!(status, 416);
            assert_eq!(content_range.as_deref(), Some("bytes */1000"));
        }
        StreamAnswer::Serve { .. } => panic!("the range should be refused"),
    }
    assert!(matches!(
        stream_answer("video/mp4", 1000, "video/mp4", 999, None),
        StreamAnswer::Refuse { status: 422, content_range: None }
    ));
    assert!(matches!(
        stream_answer("image/png", 10, "image/png", 10, None),
        StreamAnswer::Refuse { status: 422, content_range: None }
    ));
}

#[test]
fn purges_and_imports_refuse_what_they_must() {
    assert!(check_purgeable(false).is_ok());
    assert!(matches!(check_purgeable(true), Err(VaultError::AuthenticationFailed)));
    assert!(check_purged(1).is_ok());
    assert!(matches!(check_purged(0), Err(VaultError::NotFound)));
    assert!(check_source_exhausted(0).is_ok());
    assert!(matches!(check_source_exhausted(1), Err(VaultError::InvalidInput(d)) if d == "media source changed size while being imported"));
    assert!(check_destination_free(false).is_ok());
    assert!(matches!(check_destination_free(true), Err(VaultError::Storage(_))));
}
