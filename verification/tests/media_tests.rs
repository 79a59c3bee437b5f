use nd_secure::error::VaultError;
use nd_secure::ids::{canonical_uuid, uuid_text};
use nd_secure::media_server::{
    content_range, find_header_end, head_progress, parse_range, parse_target, route_request,
    stream_error_status, stream_range, stream_windows, token_digest, try_acquire_connection, HeadProgress, MediaServer,
    ParsedRequest, StreamStage, MAX_CONNECTIONS, STREAM_WINDOW_BYTES,
};
use nd_secure::protocol::{
    self, parse_object_target, plan_response, ObjectKind, RangeIssue, ResponsePlan,
};
use nd_secure::request_head::{parse_request_head, parse_request_text};
use nd_secure::token::{decode_token, encode_token, TOKEN_BYTES, TOKEN_HEX_BYTES};

const ID: &str = "67e55044-10b1-426f-9247-bb680e5fe0c8";

fn request(method: &str, target: &str, host: &str, origin: Option<&str>) -> ParsedRequest {
    ParsedRequest {
        method: method.to_owned(),
        target: target.to_owned(),
        host: host.to_owned(),
        range: None,
        origin: origin.map(str::to_owned),
    }
}

#[test]
fn token_encoding_round_trips() {
    let raw = [0xab_u8; TOKEN_BYTES];
    let encoded = encode_token(&raw);
    assert_eq!(encoded.len(), TOKEN_HEX_BYTES);
    assert_eq!(decode_token(&encoded), Some(raw));
    assert!(decode_token(&encoded.to_uppercase()).is_none());
}

#[test]
fn token_decoding_refuses_short_or_foreign_text() {
    assert!(decode_token("abcd").is_none());
    assert!(decode_token(&"zz".repeat(TOKEN_BYTES)).is_none());
    assert_eq!(encode_token(&[0x0f_u8; TOKEN_BYTES]), "0f".repeat(TOKEN_BYTES));
}

#[test]
fn parses_strict_media_target() {
    let id = canonical_uuid(ID).unwrap();
    let token = "00".repeat(TOKEN_BYTES);
    let target = format!("/v1/{token}/media/{ID}");
    let parsed = parse_target(&target).unwrap();
    assert_eq!(parsed.0, token);
    assert_eq!(parsed.1, id);
    assert!(parse_target(&(target + "?x=1")).is_none());
}

#[test]
fn media_target_refuses_escapes_and_other_shapes() {
    let token = "00".repeat(TOKEN_BYTES);
    assert!(parse_target(&format!("/v1/{token}/media/{}", ID.to_uppercase())).is_none());
    assert!(parse_target(&format!("/v1/{token}/media/../{ID}")).is_none());
    assert!(parse_target(&format!("/v2/{token}/media/{ID}")).is_none());
    assert!(parse_target(&format!("/v1/{token}/thumb/{ID}")).is_none());
    assert!(parse_target(&format!("/v1/00/media/{ID}")).is_none());
    assert!(parse_target(&format!("/v1/{token}/media/{ID}%20")).is_none());
}

#[test]
fn media_server_parses_closed_open_and_suffix_ranges() {
    assert_eq!(parse_range("bytes=10-19", 100).unwrap(), (10, 19));
    assert_eq!(parse_range("bytes=90-", 100).unwrap(), (90, 99));
    assert_eq!(parse_range("bytes=-10", 100).unwrap(), (90, 99));
    assert!(parse_range("bytes=0-1,4-5", 100).is_err());
    assert!(parse_range("bytes=100-", 100).is_err());
}

#[test]
fn protocol_parses_closed_open_and_suffix_ranges() {
    assert_eq!(protocol::parse_range("bytes=10-19", 100).unwrap(), (10, 19));
    assert_eq!(protocol::parse_range("bytes=90-", 100).unwrap(), (90, 99));
    assert_eq!(protocol::parse_range("bytes=-10", 100).unwrap(), (90, 99));
}

#[test]
fn rejects_multiple_or_unsatisfied_ranges() {
    assert_eq!(protocol::parse_range("bytes=0-1,4-5", 100), Err(RangeIssue::Malformed));
    assert_eq!(protocol::parse_range("bytes=100-", 100), Err(RangeIssue::Unsatisfiable));
    assert_eq!(protocol::parse_range("items=0-1", 100), Err(RangeIssue::Malformed));
}

#[test]
fn range_ends_past_the_object_are_clamped() {
    assert_eq!(protocol::parse_range("bytes=95-200", 100).unwrap(), (95, 99));
    assert_eq!(protocol::parse_range("bytes=-500", 100).unwrap(), (0, 99));
    assert_eq!(protocol::parse_range("bytes=-0", 100), Err(RangeIssue::Unsatisfiable));
    assert_eq!(protocol::parse_range("bytes=20-10", 100), Err(RangeIssue::Unsatisfiable));
    assert_eq!(protocol::parse_range("bytes=x-10", 100), Err(RangeIssue::Malformed));
}

#[test]
fn parses_media_and_thumbnail_routes() {
    let media = parse_object_target(&format!("/media/{ID}"), false).unwrap();
    let thumbnail = parse_object_target(&format!("/thumbnail/{ID}"), false).unwrap();
    assert_eq!(media.kind, ObjectKind::Media);
    assert_eq!(thumbnail.kind, ObjectKind::Thumbnail);
    assert_eq!(media.media_id, canonical_uuid(ID).unwrap());
}

#[test]
fn object_routes_refuse_queries_and_unknown_paths() {
    assert!(matches!(
        parse_object_target(&format!("/media/{ID}"), true),
        Err(VaultError::InvalidInput(_))
    ));
    assert!(matches!(parse_object_target("/other/x", false), Err(VaultError::NotFound)));
}

#[test]
fn whole_image_and_range_responses_are_planned() {
    let whole = plan_response(ObjectKind::Media, "image/png", 1000, None).unwrap();
    let ranged = plan_response(ObjectKind::Media, "video/mp4", 1000, Some("bytes=0-99")).unwrap();
    assert_eq!(whole, ResponsePlan::Serve { start: 0, end: 999, status: 200 });
    assert_eq!(ranged, ResponsePlan::Serve { start: 0, end: 99, status: 206 });
    assert_eq!(
        plan_response(ObjectKind::Media, "video/mp4", 1000, Some("bytes=a-b")).unwrap(),
        ResponsePlan::BadRequest
    );
    assert_eq!(
        plan_response(ObjectKind::Media, "video/mp4", 1000, Some("bytes=2000-")).unwrap(),
        ResponsePlan::Unsatisfiable
    );
}

#[test]
fn head_end_is_the_first_blank_line() {
    assert_eq!(find_header_end(b"GET / HTTP/1.1\r\nHost: a\r\n\r\nbody"), Some(23));
    assert_eq!(find_header_end(b"GET / HTTP/1.1\r\n"), None);
    assert_eq!(head_progress(b"GET / HTTP/1.1\r\n"), HeadProgress::NeedMore);
    assert_eq!(head_progress(&vec![b'a'; 40000]), HeadProgress::TooLarge);
}

#[test]
fn request_head_reads_the_fields_the_server_needs() {
    let head = b"GET /v1/x HTTP/1.1\r\nHOST: 127.0.0.1:8080\r\nRange:  bytes=0-9 \r\nX-Other: 1\r\nContent-Length: 0";
    let parsed = parse_request_head(head).unwrap();
    assert_eq!(parsed.method, "GET");
    assert_eq!(parsed.target, "/v1/x");
    assert_eq!(parsed.host, "127.0.0.1:8080");
    assert_eq!(parsed.range.as_deref(), Some("bytes=0-9"));
    assert!(parsed.origin.is_none());
}

#[test]
fn request_head_refuses_malformed_or_ambiguous_requests() {
    assert!(parse_request_text("GET /x HTTP/2\r\nHost: a").is_none());
    assert!(parse_request_text("GET /x HTTP/1.1 extra\r\nHost: a").is_none());
    assert!(parse_request_text("GET /x HTTP/1.1").is_none());
    assert!(parse_request_text("GET /x HTTP/1.1\r\nHost: a\r\nHost: b").is_none());
    assert!(parse_request_text("GET /x HTTP/1.1\r\nHost: a\r\n folded").is_none());
    assert!(parse_request_text("GET /x HTTP/1.1\r\nHost: a\r\nBad Name: 1").is_none());
    assert!(parse_request_text("GET /x HTTP/1.1\r\nHost: a\r\nno-colon").is_none());
    assert!(parse_request_text("POST /x HTTP/1.1\r\nHost: a\r\nContent-Length: 5").is_none());
    assert!(parse_request_text("POST /x HTTP/1.1\r\nHost: a\r\nTransfer-Encoding: chunked").is_none());
    assert!(parse_request_text("GET /x HTTP/1.1\r\nHost:   ").is_none());
    assert!(parse_request_head(&[b'G', b'E', b'T', b' ', 0xff, b' ', b'H']).is_none());
    let long_target = format!("GET /{} HTTP/1.0\r\nHost: a", "a".repeat(1024));
    assert!(parse_request_text(&long_target).is_none());
}

#[test]
fn requests_are_routed_by_host_method_origin_and_target() {
    let token = "ab".repeat(TOKEN_BYTES);
    let target = format!("/v1/{token}/media/{ID}");
    let host = "127.0.0.1:8080";
    let ok = route_request(&request("HEAD", &target, host, Some("tauri://localhost")), 8080).unwrap();
    assert!(ok.is_head && !ok.is_options);
    assert_eq!(ok.raw_token, [0xab; TOKEN_BYTES]);
    assert_eq!(route_request(&request("GET", &target, "localhost:8080", None), 8080).err(), Some(400));
    assert_eq!(route_request(&request("PUT", &target, host, None), 8080).err(), Some(405));
    assert_eq!(route_request(&request("GET", &target, host, Some("https://evil.example")), 8080).err(), Some(403));
    assert_eq!(route_request(&request("GET", "/v1/nope", host, None), 8080).err(), Some(404));
}

#[test]
fn issued_streams_are_authorized_until_revoked() {
    let media = canonical_uuid(ID).unwrap();
    let mut server = MediaServer::new(8080);
    let (url, token) = server.issue(media, 1_000).unwrap();
    assert_eq!(url, format!("http://127.0.0.1:8080/v1/{token}/media/{}", uuid_text(&media)));
    let raw = decode_token(&token).unwrap();
    let digest = token_digest(&raw);
    assert!(server.grants.authorize(&digest, &media, 2_000));
    assert!(!server.grants.authorize(&digest, &[0_u8; 16], 2_000));
    let (_, second) = server.issue(media, 3_000).unwrap();
    server.revoke(&second);
    let second_digest = token_digest(&decode_token(&second).unwrap());
    assert!(!server.grants.authorize(&second_digest, &media, 3_500));
    server.revoke_all();
    assert!(!server.grants.authorize(&digest, &media, 4_000));
}

#[test]
fn expired_grants_are_refused() {
    let media = canonical_uuid(ID).unwrap();
    let mut server = MediaServer::new(9000);
    let (_, token) = server.issue(media, 0).unwrap();
    let digest = token_digest(&decode_token(&token).unwrap());
    assert!(!server.grants.authorize(&digest, &media, 1_200_000));
}

#[test]
fn connections_are_limited() {
    assert_eq!(try_acquire_connection(0), Some(1));
    assert_eq!(try_acquire_connection(MAX_CONNECTIONS - 1), Some(MAX_CONNECTIONS));
    assert_eq!(try_acquire_connection(MAX_CONNECTIONS), None);
}

#[test]
fn streams_are_cut_into_bounded_windows() {
    let windows = stream_windows(10, 10 + 2 * STREAM_WINDOW_BYTES);
    assert_eq!(windows.len(), 3);
    assert_eq!(windows[0], (10, 10 + STREAM_WINDOW_BYTES - 1));
    assert_eq!(windows[2], (10 + 2 * STREAM_WINDOW_BYTES, 10 + 2 * STREAM_WINDOW_BYTES));
}

#[test]
fn stream_ranges_and_content_range_text() {
    assert_eq!(stream_range(None, 100), Ok((0, 99, 200)));
    assert_eq!(stream_range(Some("bytes=5-9"), 100), Ok((5, 9, 206)));
    assert!(stream_range(Some("bytes=200-"), 100).is_err());
    assert_eq!(content_range(5, 9, 100), "bytes 5-9/100");
}

#[test]
fn stream_failures_map_to_their_statuses() {
    assert_eq!(stream_error_status(StreamStage::DomainKey, &VaultError::Locked), 423);
    assert_eq!(stream_error_status(StreamStage::DomainKey, &VaultError::Crypto), 500);
    assert_eq!(stream_error_status(StreamStage::LookupObject, &VaultError::NotFound), 404);
    assert_eq!(stream_error_status(StreamStage::LookupObject, &VaultError::Database("x".into())), 500);
    assert_eq!(stream_error_status(StreamStage::OpenContainer, &VaultError::AuthenticationFailed), 422);
    assert_eq!(stream_error_status(StreamStage::OpenContainer, &VaultError::MalformedContainer), 422);
    assert_eq!(stream_error_status(StreamStage::OpenContainer, &VaultError::Storage("x".into())), 500);
}
