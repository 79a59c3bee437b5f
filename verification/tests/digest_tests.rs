use nd_secure::digest::{text_digest, text_matches_digest, DigestStream};
use nd_secure::encoding::{decode_cursor_bytes, encode_cursor_bytes};
use nd_secure::error::VaultError;
use nd_secure::source::SourceCheck;
use sha2::{Digest, Sha256};

fn sha(data: &[u8]) -> [u8; 32] {
    Sha256::digest(data).into()
}

#[test]
fn a_digest_fed_in_pieces_is_the_digest_of_the_whole() {
    let mut stream = DigestStream::new();
    stream.absorb(b"hello ");
    stream.absorb(b"");
    stream.absorb(b"world");
    assert_eq!(stream.finish(), sha(b"hello world"));
    assert_eq!(text_digest("hello world"), sha(b"hello world"));
}

#[test]
fn the_clipboard_is_matched_by_its_exact_digest() {
    let kept = text_digest("secret value");
    assert!(text_matches_digest("secret value", &kept));
    assert!(!text_matches_digest("secret value ", &kept));
    assert!(!text_matches_digest("", &kept));
}

#[test]
fn a_source_read_back_must_match_its_size_and_digest() {
    let data = b"0123456789";
    let digest = sha(data);
    let mut check = SourceCheck::new(10);
    check.absorb(&data[..4]).unwrap();
    check.absorb(&data[4..]).unwrap();
    check.finish(&digest).unwrap();

    let mut shorter = SourceCheck::new(10);
    shorter.absorb(&data[..9]).unwrap();
    assert!(matches!(shorter.finish(&digest), Err(VaultError::InvalidInput(d)) if d == "media source changed after import"));

    let mut longer = SourceCheck::new(10);
    longer.absorb(data).unwrap();
    assert!(matches!(longer.absorb(b"x"), Err(VaultError::InvalidInput(d)) if d == "media source changed after import"));

    let mut different = SourceCheck::new(10);
    different.absorb(b"0123456780").unwrap();
    assert!(different.finish(&digest).is_err());
}

#[test]
fn cursors_round_trip_and_refuse_other_text() {
    let text = encode_cursor_bytes(b"{\"offset\":3}");
    assert_eq!(decode_cursor_bytes(&text), Some(b"{\"offset\":3}".to_vec()));
    assert_eq!(encode_cursor_bytes(b"ab"), "YWI");
    assert_eq!(decode_cursor_bytes("YWI="), None);
    assert_eq!(decode_cursor_bytes("not base64!"), None);
}
