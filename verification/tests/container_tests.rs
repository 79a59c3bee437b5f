use nd_secure::container::{
    assemble_range, chunk_plain_len, decode_header, detect_mime, encode_header, file_key, new_header,
    new_metadata, open_record, plan_container, plan_range, record_nonce, seal_record, validate_container_length,
    ContainerHeader, CHUNK_SIZE, MAX_FILE_BYTES,
};
use nd_secure::error::VaultError;

fn header(total_size: u64) -> ContainerHeader {
    let chunk_count = plan_container(total_size).unwrap();
    new_header(total_size, chunk_count, [3_u8; 16], [9, 8, 7, 6], 100).unwrap()
}

#[test]
fn mime_allowlist_detects_supported_formats() {
    assert_eq!(detect_mime(&[0xff, 0xd8, 0xff, 0x00]), Some("image/jpeg"));
    assert_eq!(
        detect_mime(&[0x89, b'P', b'N', b'G', 0x0d, 0x0a, 0x1a, 0x0a]),
        Some("image/png")
    );
    assert_eq!(detect_mime(&[0, 0, 0, 24, b'f', b't', b'y', b'p', 0, 0, 0, 0]), Some("video/mp4"));
    assert_eq!(
        detect_mime(&[0x1a, 0x45, 0xdf, 0xa3, 0x42, 0x82, 0x84, b'w', b'e', b'b', b'm']),
        Some("video/webm")
    );
    assert_eq!(detect_mime(b"not-media"), None);
}

#[test]
fn nonces_change_with_record_counter() {
    let prefix = [1, 2, 3, 4];
    assert_ne!(record_nonce(prefix, 0), record_nonce(prefix, 1));
}

#[test]
fn record_nonce_is_prefix_then_big_endian_counter() {
    assert_eq!(record_nonce([1, 2, 3, 4], 0x0102), [1, 2, 3, 4, 0, 0, 0, 0, 0, 0, 1, 2]);
}

#[test]
fn header_round_trips_through_its_encoding() {
    let original = header(CHUNK_SIZE as u64 * 2 + 113);
    let bytes = encode_header(&original);
    assert_eq!(&bytes[..8], b"NDVAULT1");
    let decoded = decode_header(&bytes).unwrap();
    assert_eq!(decoded.total_size, original.total_size);
    assert_eq!(decoded.chunk_count, 3);
    assert_eq!(decoded.salt, original.salt);
    assert_eq!(decoded.nonce_prefix, original.nonce_prefix);
    assert_eq!(decoded.metadata_cipher_len, 116);
}

#[test]
fn header_with_bad_magic_is_malformed() {
    let mut bytes = encode_header(&header(10));
    bytes[0] = b'X';
    assert!(matches!(decode_header(&bytes), Err(VaultError::MalformedContainer)));
}

#[test]
fn container_sizes_outside_bounds_are_refused() {
    assert!(matches!(plan_container(0), Err(VaultError::InvalidInput(_))));
    assert!(matches!(plan_container(MAX_FILE_BYTES + 1), Err(VaultError::InvalidInput(_))));
    assert_eq!(plan_container(1).unwrap(), 1);
    assert_eq!(plan_container(CHUNK_SIZE as u64).unwrap(), 1);
    assert_eq!(plan_container(CHUNK_SIZE as u64 + 1).unwrap(), 2);
}

#[test]
fn chunk_lengths_cover_the_plaintext() {
    let total = CHUNK_SIZE as u64 * 2 + 113;
    assert_eq!(chunk_plain_len(total, 0).unwrap(), CHUNK_SIZE);
    assert_eq!(chunk_plain_len(total, 2).unwrap(), 113);
    assert!(chunk_plain_len(total, 3).is_err());
}

#[test]
fn oversized_metadata_is_refused() {
    assert!(matches!(new_header(10, 1, [0; 16], [0; 4], 65536), Err(VaultError::MalformedContainer)));
}

#[test]
fn encrypted_container_round_trips_ranges_and_detects_tampering() {
    let total = CHUNK_SIZE * 2 + 113;
    let mut plaintext = vec![0_u8; total];
    plaintext[..3].copy_from_slice(&[0xff, 0xd8, 0xff]);
    for (index, byte) in plaintext.iter_mut().enumerate().skip(3) {
        *byte = (index % 251) as u8;
    }
    let id = [5_u8; 16];
    let h = header(total as u64);
    let key = file_key(&[42_u8; 32], &h.salt, &id).unwrap();
    let mut records = Vec::new();
    for index in 0..3_u64 {
        let from = index as usize * CHUNK_SIZE;
        let to = (from + CHUNK_SIZE).min(total);
        let sealed = seal_record(&key, &h, &id, index, &plaintext[from..to]).unwrap();
        assert_eq!(sealed.len(), to - from + 16);
        records.push(sealed);
    }
    let start = CHUNK_SIZE as u64 - 17;
    let end = CHUNK_SIZE as u64 + 79;
    assert!(matches!(plan_range(&h, start, end, 1024), Ok((0, 1))));
    let opened = vec![
        open_record(&key, &h, &id, 0, &records[0]).unwrap(),
        open_record(&key, &h, &id, 1, &records[1]).unwrap(),
    ];
    let range = assemble_range(&h, start, end, &opened).unwrap();
    assert_eq!(range, plaintext[start as usize..=end as usize]);

    let mut tampered = records[2].clone();
    let last = tampered.len() - 1;
    tampered[last] ^= 0x80;
    assert!(matches!(open_record(&key, &h, &id, 2, &tampered), Err(VaultError::AuthenticationFailed)));
    assert!(matches!(open_record(&key, &h, &id, 1, &records[2]), Err(VaultError::MalformedContainer)));
    assert!(matches!(open_record(&key, &h, &id, 3, &records[2]), Err(VaultError::InvalidRange)));
    let wrong_key = file_key(&[43_u8; 32], &h.salt, &id).unwrap();
    assert!(matches!(open_record(&wrong_key, &h, &id, 2, &records[2]), Err(VaultError::AuthenticationFailed)));
}

#[test]
fn a_range_needs_exactly_the_records_that_span_it() {
    let h = header(CHUNK_SIZE as u64 * 2);
    let only_first = vec![vec![0_u8; CHUNK_SIZE]];
    assert!(matches!(
        assemble_range(&h, 10, CHUNK_SIZE as u64 + 1, &only_first),
        Err(VaultError::MalformedContainer)
    ));
}

#[test]
fn metadata_records_the_detected_type_and_signature() {
    let first = [0xff, 0xd8, 0xff, 0x01];
    let metadata = new_metadata(4, 1, &first).unwrap();
    assert_eq!(metadata.mime_type, "image/jpeg");
    assert_eq!(metadata.signature, "/9j/AQ==");
    assert!(matches!(new_metadata(4, 1, b"text"), Err(VaultError::UnsupportedMedia)));
}

#[test]
fn container_length_must_match_the_header() {
    let h = header(10);
    let expected = 54 + 116 + 10 + 16;
    assert!(validate_container_length(&h, expected).is_ok());
    assert!(matches!(validate_container_length(&h, expected + 1), Err(VaultError::MalformedContainer)));
}
