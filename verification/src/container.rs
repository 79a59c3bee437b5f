//! The `NDVAULT1` media container: a 54-byte public header, an encrypted
//! metadata record, then content records of at most 64 KiB each, every
//! record sealed with AES-256-GCM under a per-file key and a nonce made of a
//! random 4-byte prefix and a big-endian record counter.
use vstd::prelude::*;
use crate::bytes::{be16, be32, be64, from_be16, from_be32, from_be64, lemma_be16_from_bytes, lemma_be16_round_trip, lemma_be32_from_bytes, lemma_be32_round_trip, lemma_be64_from_bytes, lemma_be64_round_trip, push_all, push_be16, push_be32, push_be64, read_be16, read_be32, read_be64};
use crate::crypto::{TAG_SIZE, AEAD_MAX_BYTES, ascii_bytes, spec_ascii, derive_object_key, hkdf_sha256_32, aes256gcm_open, aes256gcm_seal, aead_open, aead_seal};
use crate::encoding::{base64_standard_decode, base64_standard_encode, standard_decode, standard_encode};
use crate::text::str_eq;
use vstd::utf8::encode_utf8;
use crate::error::VaultError;

verus! {

pub const CONTAINER_VERSION: u16 = 1;

/// Plaintext bytes per content record.
pub const CHUNK_SIZE: usize = 65536;

/// Length of the public header.
pub const HEADER_SIZE: usize = 54;

/// Largest encrypted metadata record, tag included.
pub const MAX_METADATA_CIPHER_BYTES: usize = 65536;

/// Number of leading plaintext bytes recorded as the authenticated signature.
pub const SIGNATURE_BYTES: usize = 4096;

/// Largest plaintext a container may hold (4 TiB).
pub const MAX_FILE_BYTES: u64 = 4398046511104;

/// Distance between the starts of two consecutive content records.
pub const RECORD_STRIDE: u64 = 65552;

/// The public header of a container.
#[derive(Debug)]
pub struct ContainerHeader {
    pub total_size: u64,
    pub chunk_count: u64,
    pub salt: [u8; 16],
    pub nonce_prefix: [u8; 4],
    pub metadata_cipher_len: u32,
}

/// ASCII `NDVAULT1`.
pub open spec fn spec_magic() -> Seq<u8> {
    seq![78u8, 68u8, 86u8, 65u8, 85u8, 76u8, 84u8, 49u8]
}

/// Number of content records for a plaintext of `total` bytes.
pub open spec fn spec_chunk_count(total: int) -> int {
    (total + CHUNK_SIZE - 1) / (CHUNK_SIZE as int)
}

/// The header bytes as they are written.
pub open spec fn spec_encode_header(h: ContainerHeader) -> Seq<u8> {
    spec_magic() + be16(CONTAINER_VERSION) + be32(CHUNK_SIZE as u32) + be64(h.total_size) + be64(
        h.chunk_count,
    ) + h.salt@ + h.nonce_prefix@ + be32(h.metadata_cipher_len)
}

/// What a reader accepts of a header: a non-empty plaintext of at most
/// 4 TiB, the chunk count that size needs, and a metadata record longer
/// than a tag and at most 64 KiB.
pub open spec fn header_valid(h: ContainerHeader) -> bool {
    &&& 0 < h.total_size <= MAX_FILE_BYTES
    &&& h.chunk_count == spec_chunk_count(h.total_size as int)
    &&& TAG_SIZE < h.metadata_cipher_len <= MAX_METADATA_CIPHER_BYTES
}

/// The checks `decode_header` makes on 54 bytes.
pub open spec fn spec_header_accepts(b: Seq<u8>) -> bool {
    let total = from_be64(b.subrange(14, 22));
    let count = from_be64(b.subrange(22, 30));
    let meta = from_be32(b.subrange(50, 54));
    &&& b.len() == HEADER_SIZE
    &&& b.subrange(0, 8) == spec_magic()
    &&& from_be16(b.subrange(8, 10)) == CONTAINER_VERSION
    &&& from_be32(b.subrange(10, 14)) == CHUNK_SIZE
    &&& 0 < total <= MAX_FILE_BYTES
    &&& count == spec_chunk_count(total as int)
    &&& TAG_SIZE < meta <= MAX_METADATA_CIPHER_BYTES
}

fn vec_to_array_54(v: &Vec<u8>) -> (result: [u8; 54])
    requires
        v@.len() == 54,
    ensures
        result@ == v@,
{
    let mut out = [0u8; 54];
    let mut i: usize = 0;
    while i < 54
        invariant
            i <= 54,
            v@.len() == 54,
            forall|j: int| 0 <= j < i ==> out@[j] == v@[j],
        decreases 54 - i,
    {
        out[i] = v[i];
        i = i + 1;
    }
    assert(out@ =~= v@);
    out
}

/// Writes the public header.
pub fn encode_header(header: &ContainerHeader) -> (result: [u8; 54])
    ensures
        result@ == spec_encode_header(*header),
{
    let mut out: Vec<u8> = Vec::new();
    out.push(78u8);
    out.push(68u8);
    out.push(86u8);
    out.push(65u8);
    out.push(85u8);
    out.push(76u8);
    out.push(84u8);
    out.push(49u8);
    assert(out@ =~= spec_magic());
    push_be16(&mut out, CONTAINER_VERSION);
    push_be32(&mut out, CHUNK_SIZE as u32);
    push_be64(&mut out, header.total_size);
    push_be64(&mut out, header.chunk_count);
    push_all(&mut out, header.salt.as_slice());
    push_all(&mut out, header.nonce_prefix.as_slice());
    push_be32(&mut out, header.metadata_cipher_len);
    assert(out@ =~= spec_encode_header(*header));
    vec_to_array_54(&out)
}

/// Two headers with the same bytes are the same header.
pub proof fn lemma_encode_header_injective(a: ContainerHeader, b: ContainerHeader)
    requires
        spec_encode_header(a) == spec_encode_header(b),
    ensures
        a.total_size == b.total_size,
        a.chunk_count == b.chunk_count,
        a.salt@ == b.salt@,
        a.nonce_prefix@ == b.nonce_prefix@,
        a.metadata_cipher_len == b.metadata_cipher_len,
{
    let ea = spec_encode_header(a);
    let eb = spec_encode_header(b);
    assert(ea.subrange(14, 22) =~= be64(a.total_size));
    assert(eb.subrange(14, 22) =~= be64(b.total_size));
    lemma_be64_round_trip(a.total_size);
    lemma_be64_round_trip(b.total_size);
    assert(ea.subrange(22, 30) =~= be64(a.chunk_count));
    assert(eb.subrange(22, 30) =~= be64(b.chunk_count));
    lemma_be64_round_trip(a.chunk_count);
    lemma_be64_round_trip(b.chunk_count);
    assert(ea.subrange(30, 46) =~= a.salt@);
    assert(eb.subrange(30, 46) =~= b.salt@);
    assert(ea.subrange(46, 50) =~= a.nonce_prefix@);
    assert(eb.subrange(46, 50) =~= b.nonce_prefix@);
    assert(ea.subrange(50, 54) =~= be32(a.metadata_cipher_len));
    assert(eb.subrange(50, 54) =~= be32(b.metadata_cipher_len));
    lemma_be32_round_trip(a.metadata_cipher_len);
    lemma_be32_round_trip(b.metadata_cipher_len);
}

/// Reads the public header; every refusal is `MalformedContainer`.
pub fn decode_header(bytes: &[u8; 54]) -> (result: Result<ContainerHeader, VaultError>)
    ensures
        result is Ok <==> spec_header_accepts(bytes@),
        result matches Ok(h) ==> spec_encode_header(h) == bytes@ && header_valid(h),
        result matches Err(e) ==> e == VaultError::MalformedContainer,
{
    let b = bytes.as_slice();
    if !(b[0] == 78u8 && b[1] == 68u8 && b[2] == 86u8 && b[3] == 65u8 && b[4] == 85u8 && b[5] == 76u8
        && b[6] == 84u8 && b[7] == 49u8) {
        proof {
            if bytes@.subrange(0, 8) == spec_magic() {
                assert(bytes@.subrange(0, 8)[0] == 78u8);
                assert(bytes@.subrange(0, 8)[7] == 49u8);
            }
        }
        return Err(VaultError::MalformedContainer);
    }
    assert(bytes@.subrange(0, 8) =~= spec_magic());
    let version = read_be16(b, 8);
    let chunk_size = read_be32(b, 10);
    if version != CONTAINER_VERSION || chunk_size != CHUNK_SIZE as u32 {
        return Err(VaultError::MalformedContainer);
    }
    let total_size = read_be64(b, 14);
    let chunk_count = read_be64(b, 22);
    let metadata_cipher_len = read_be32(b, 50);
    if total_size == 0 || total_size > MAX_FILE_BYTES || chunk_count == 0 || chunk_count != (
    total_size + (CHUNK_SIZE as u64) - 1) / (CHUNK_SIZE as u64) || metadata_cipher_len as usize
        <= TAG_SIZE || metadata_cipher_len as usize > MAX_METADATA_CIPHER_BYTES {
        return Err(VaultError::MalformedContainer);
    }
    let mut salt = [0u8; 16];
    let mut i: usize = 0;
    while i < 16
        invariant
            i <= 16,
            b@ == bytes@,
            bytes@.len() == 54,
            forall|j: int| 0 <= j < i ==> salt@[j] == bytes@[30 + j],
        decreases 16 - i,
    {
        salt[i] = b[30 + i];
        i = i + 1;
    }
    let mut nonce_prefix = [0u8; 4];
    let mut k: usize = 0;
    while k < 4
        invariant
            k <= 4,
            b@ == bytes@,
            bytes@.len() == 54,
            forall|j: int| 0 <= j < k ==> nonce_prefix@[j] == bytes@[46 + j],
        decreases 4 - k,
    {
        nonce_prefix[k] = b[46 + k];
        k = k + 1;
    }
    let header = ContainerHeader { total_size, chunk_count, salt, nonce_prefix, metadata_cipher_len };
    proof {
        lemma_be16_from_bytes(bytes@.subrange(8, 10));
        lemma_be32_from_bytes(bytes@.subrange(10, 14));
        lemma_be64_from_bytes(bytes@.subrange(14, 22));
        lemma_be64_from_bytes(bytes@.subrange(22, 30));
        lemma_be32_from_bytes(bytes@.subrange(50, 54));
        assert(salt@ =~= bytes@.subrange(30, 46));
        assert(nonce_prefix@ =~= bytes@.subrange(46, 50));
        assert(spec_encode_header(header) =~= bytes@);
    }
    Ok(header)
}

/// Decoding the bytes of a valid header gives that header back.
pub proof fn lemma_header_round_trip(h: ContainerHeader)
    requires
        header_valid(h),
    ensures
        spec_header_accepts(spec_encode_header(h)),
{
    let e = spec_encode_header(h);
    assert(e.subrange(0, 8) =~= spec_magic());
    assert(e.subrange(8, 10) =~= be16(CONTAINER_VERSION));
    lemma_be16_round_trip(CONTAINER_VERSION);
    assert(e.subrange(10, 14) =~= be32(CHUNK_SIZE as u32));
    lemma_be32_round_trip(CHUNK_SIZE as u32);
    assert(e.subrange(14, 22) =~= be64(h.total_size));
    lemma_be64_round_trip(h.total_size);
    assert(e.subrange(22, 30) =~= be64(h.chunk_count));
    lemma_be64_round_trip(h.chunk_count);
    assert(e.subrange(50, 54) =~= be32(h.metadata_cipher_len));
    lemma_be32_round_trip(h.metadata_cipher_len);
}

/// Plaintext length of content record `index`, if the record exists.
pub open spec fn spec_chunk_plain_len(total: u64, index: u64) -> Option<int> {
    let start = index * CHUNK_SIZE;
    if start > u64::MAX || start >= total {
        None
    } else if total - start < CHUNK_SIZE {
        Some(total - start)
    } else {
        Some(CHUNK_SIZE as int)
    }
}

/// Plaintext length of content record `index` of a `total`-byte plaintext.
pub fn chunk_plain_len(total_size: u64, index: u64) -> (result: Result<usize, VaultError>)
    ensures
        result is Ok <==> spec_chunk_plain_len(total_size, index) is Some,
        result matches Ok(n) ==> Some(n as int) == spec_chunk_plain_len(total_size, index),
        result matches Err(e) ==> e == VaultError::MalformedContainer,
{
    if index > u64::MAX / (CHUNK_SIZE as u64) {
        return Err(VaultError::MalformedContainer);
    }
    let start = index * (CHUNK_SIZE as u64);
    if start >= total_size {
        return Err(VaultError::MalformedContainer);
    }
    let remaining = total_size - start;
    if remaining < CHUNK_SIZE as u64 {
        Ok(remaining as usize)
    } else {
        Ok(CHUNK_SIZE)
    }
}

/// Nonce of the record with the given counter: the file's random prefix
/// followed by the big-endian counter.
pub open spec fn spec_record_nonce(prefix: Seq<u8>, counter: u64) -> Seq<u8> {
    prefix + be64(counter)
}

pub fn record_nonce(prefix: [u8; 4], counter: u64) -> (result: [u8; 12])
    ensures
        result@ == spec_record_nonce(prefix@, counter),
{
    let mut out = [0u8; 12];
    out[0] = prefix[0];
    out[1] = prefix[1];
    out[2] = prefix[2];
    out[3] = prefix[3];
    out[4] = (counter >> 56u64) as u8;
    out[5] = (counter >> 48u64) as u8;
    out[6] = (counter >> 40u64) as u8;
    out[7] = (counter >> 32u64) as u8;
    out[8] = (counter >> 24u64) as u8;
    out[9] = (counter >> 16u64) as u8;
    out[10] = (counter >> 8u64) as u8;
    out[11] = counter as u8;
    assert(out@ =~= spec_record_nonce(prefix@, counter));
    out
}

/// Within one file, distinct record counters give distinct nonces.
pub proof fn lemma_record_nonce_injective(prefix: Seq<u8>, a: u64, b: u64)
    requires
        prefix.len() == 4,
        spec_record_nonce(prefix, a) == spec_record_nonce(prefix, b),
    ensures
        a == b,
{
    assert(spec_record_nonce(prefix, a).subrange(4, 12) =~= be64(a));
    assert(spec_record_nonce(prefix, b).subrange(4, 12) =~= be64(b));
    lemma_be64_round_trip(a);
    lemma_be64_round_trip(b);
}

/// Associated data of the metadata record: a domain label, the container
/// identifier and the whole public header.
pub open spec fn spec_metadata_aad(id: Seq<u8>, header: Seq<u8>) -> Seq<u8> {
    spec_ascii("nd-secure/gallery-metadata/v1"@) + id + header
}

pub fn metadata_aad(id: &[u8; 16], header: &[u8; 54]) -> (result: Vec<u8>)
    ensures
        result@ == spec_metadata_aad(id@, header@),
{
    proof {
        reveal_strlit("nd-secure/gallery-metadata/v1");
    }
    let mut aad = ascii_bytes("nd-secure/gallery-metadata/v1");
    push_all(&mut aad, id.as_slice());
    push_all(&mut aad, header.as_slice());
    aad
}

/// Associated data of a content record: a domain label, the container
/// identifier, plaintext size, chunk count, record index, record length and
/// whether it is the final record.
pub open spec fn spec_chunk_aad(
    id: Seq<u8>,
    total_size: u64,
    chunk_count: u64,
    index: u64,
    plain_len: u32,
    final_chunk: bool,
) -> Seq<u8> {
    spec_ascii("nd-secure/gallery-chunk/v1"@) + id + be64(total_size) + be64(chunk_count) + be64(
        index,
    ) + be32(plain_len) + seq![if final_chunk { 1u8 } else { 0u8 }]
}

pub fn chunk_aad(
    id: &[u8; 16],
    total_size: u64,
    chunk_count: u64,
    index: u64,
    plain_len: u32,
    final_chunk: bool,
) -> (result: Vec<u8>)
    ensures
        result@ == spec_chunk_aad(id@, total_size, chunk_count, index, plain_len, final_chunk),
{
    proof {
        reveal_strlit("nd-secure/gallery-chunk/v1");
    }
    let mut aad = ascii_bytes("nd-secure/gallery-chunk/v1");
    push_all(&mut aad, id.as_slice());
    push_be64(&mut aad, total_size);
    push_be64(&mut aad, chunk_count);
    push_be64(&mut aad, index);
    push_be32(&mut aad, plain_len);
    aad.push(if final_chunk { 1u8 } else { 0u8 });
    assert(aad@ =~= spec_chunk_aad(id@, total_size, chunk_count, index, plain_len, final_chunk));
    aad
}

/// Context under which a file key is derived: a domain label and the
/// container identifier.
pub open spec fn spec_file_key_context(id: Seq<u8>) -> Seq<u8> {
    spec_ascii("nd-secure/gallery-file/v1"@) + id
}

/// Per-file key: HKDF of the gallery key under the file's salt, expanded
/// under the file context.
pub fn file_key(root_key: &[u8; 32], salt: &[u8; 16], id: &[u8; 16]) -> (result: Result<
    [u8; 32],
    VaultError,
>)
    ensures
        result matches Ok(key) && key@ == hkdf_sha256_32(salt@, root_key@, spec_file_key_context(id@)),
{
    proof {
        reveal_strlit("nd-secure/gallery-file/v1");
    }
    let mut context = ascii_bytes("nd-secure/gallery-file/v1");
    push_all(&mut context, id.as_slice());
    derive_object_key(root_key, salt, context.as_slice())
}

/// Length in bytes of the container file that a header describes, if its
/// final record exists.
pub open spec fn spec_container_len(h: ContainerHeader) -> Option<int> {
    match spec_chunk_plain_len(h.total_size, (h.chunk_count - 1) as u64) {
        Some(final_plain) => Some(
            HEADER_SIZE + h.metadata_cipher_len + (h.chunk_count - 1) * RECORD_STRIDE + final_plain
                + TAG_SIZE,
        ),
        None => None,
    }
}

/// Checks that the file is exactly as long as its header says.
pub fn validate_container_length(header: &ContainerHeader, actual: u64) -> (result: Result<(), VaultError>)
    requires
        header.chunk_count > 0,
    ensures
        result is Ok <==> spec_container_len(*header) == Some(actual as int),
        result matches Err(e) ==> e == VaultError::MalformedContainer,
{
    let full_chunks = header.chunk_count - 1;
    let final_plain = chunk_plain_len(header.total_size, header.chunk_count - 1)?;
    let base = (HEADER_SIZE as u64) + (header.metadata_cipher_len as u64);
    let room = u64::MAX - base;
    let limit = room / RECORD_STRIDE;
    if full_chunks > limit {
        proof {
            assert(full_chunks * RECORD_STRIDE > room) by (nonlinear_arith)
                requires
                    full_chunks > limit,
                    limit == room / RECORD_STRIDE,
                    RECORD_STRIDE == 65552,
            ;
        }
        return Err(VaultError::MalformedContainer);
    }
    proof {
        assert(full_chunks * RECORD_STRIDE <= room) by (nonlinear_arith)
            requires
                full_chunks <= limit,
                limit == room / RECORD_STRIDE,
                RECORD_STRIDE == 65552,
        ;
    }
    let body = base + full_chunks * RECORD_STRIDE;
    let tail = (final_plain as u64) + (TAG_SIZE as u64);
    if body > u64::MAX - tail {
        return Err(VaultError::MalformedContainer);
    }
    let expected = body + tail;
    if expected != actual {
        return Err(VaultError::MalformedContainer);
    }
    Ok(())
}

/// Media type named by the leading bytes of a plaintext: JPEG, PNG, an
/// ISO base-media `ftyp` box, or an EBML header that mentions `webm`.
pub open spec fn spec_detect_mime(b: Seq<u8>) -> Option<Seq<char>> {
    if b.len() >= 3 && b[0] == 0xffu8 && b[1] == 0xd8u8 && b[2] == 0xffu8 {
        Some("image/jpeg"@)
    } else if b.len() >= 8 && b.subrange(0, 8) == seq![
        0x89u8,
        80u8,
        78u8,
        71u8,
        0x0du8,
        0x0au8,
        0x1au8,
        0x0au8,
    ] {
        Some("image/png"@)
    } else if b.len() >= 12 && b[4] == 102u8 && b[5] == 116u8 && b[6] == 121u8 && b[7] == 112u8 {
        Some("video/mp4"@)
    } else if b.len() >= 8 && b[0] == 0x1au8 && b[1] == 0x45u8 && b[2] == 0xdfu8 && b[3] == 0xa3u8
        && contains_webm(b) {
        Some("video/webm"@)
    } else {
        None
    }
}

/// ASCII `webm` occurs somewhere in `b`.
pub open spec fn contains_webm(b: Seq<u8>) -> bool {
    exists|i: int| 0 <= i && i + 4 <= b.len() && #[trigger] is_webm_at(b, i)
}

pub open spec fn is_webm_at(b: Seq<u8>, i: int) -> bool {
    b[i] == 119u8 && b[i + 1] == 101u8 && b[i + 2] == 98u8 && b[i + 3] == 109u8
}

fn find_webm(bytes: &[u8]) -> (result: bool)
    ensures
        result == contains_webm(bytes@),
{
    let len = bytes.len();
    if len < 4 {
        return false;
    }
    let mut i: usize = 0;
    while i <= len - 4
        invariant
            len == bytes@.len(),
            len >= 4,
            i <= len - 3,
            forall|j: int| 0 <= j < i ==> !is_webm_at(bytes@, j),
        decreases len - i,
    {
        if bytes[i] == 119u8 && bytes[i + 1] == 101u8 && bytes[i + 2] == 98u8 && bytes[i + 3] == 109u8 {
            assert(is_webm_at(bytes@, i as int));
            return true;
        }
        i = i + 1;
    }
    false
}

/// Detects the media type of a plaintext from its leading bytes.
pub fn detect_mime(bytes: &[u8]) -> (result: Option<&'static str>)
    ensures
        result is Some <==> spec_detect_mime(bytes@) is Some,
        result matches Some(m) ==> spec_detect_mime(bytes@) == Some(m@),
{
    let b = bytes;
    if b.len() >= 3 && b[0] == 0xffu8 && b[1] == 0xd8u8 && b[2] == 0xffu8 {
        return Some("image/jpeg");
    }
    if b.len() >= 8 {
        let png = b[0] == 0x89u8 && b[1] == 80u8 && b[2] == 78u8 && b[3] == 71u8 && b[4] == 0x0du8
            && b[5] == 0x0au8 && b[6] == 0x1au8 && b[7] == 0x0au8;
        proof {
            let expected = seq![0x89u8, 80u8, 78u8, 71u8, 0x0du8, 0x0au8, 0x1au8, 0x0au8];
            if png {
                assert(b@.subrange(0, 8) =~= expected);
            } else if b@.subrange(0, 8) == expected {
                assert(b@.subrange(0, 8)[0] == expected[0]);
                assert(b@.subrange(0, 8)[1] == expected[1]);
                assert(b@.subrange(0, 8)[2] == expected[2]);
                assert(b@.subrange(0, 8)[3] == expected[3]);
                assert(b@.subrange(0, 8)[4] == expected[4]);
                assert(b@.subrange(0, 8)[5] == expected[5]);
                assert(b@.subrange(0, 8)[6] == expected[6]);
                assert(b@.subrange(0, 8)[7] == expected[7]);
            }
        }
        if png {
            return Some("image/png");
        }
    }
    if b.len() >= 12 && b[4] == 102u8 && b[5] == 116u8 && b[6] == 121u8 && b[7] == 112u8 {
        return Some("video/mp4");
    }
    if b.len() >= 8 && b[0] == 0x1au8 && b[1] == 0x45u8 && b[2] == 0xdfu8 && b[3] == 0xa3u8
        && find_webm(b) {
        return Some("video/webm");
    }
    None
}

/// Metadata sealed inside a container (its JSON form is written by the
/// application layer).
#[derive(Debug)]
pub struct MediaMetadata {
    pub mime_type: String,
    pub total_size: u64,
    pub chunk_count: u64,
    pub signature: String,
    pub width: Option<u32>,
    pub height: Option<u32>,
    pub duration_ms: Option<u64>,
}

/// Opening the metadata record: AES-GCM under the file key with counter 0
/// and the metadata associated data.
pub open spec fn spec_open_metadata(
    key: Seq<u8>,
    id: Seq<u8>,
    header_bytes: Seq<u8>,
    prefix: Seq<u8>,
    encrypted: Seq<u8>,
) -> Result<Seq<u8>, VaultError> {
    match aes256gcm_open(key, spec_record_nonce(prefix, 0), spec_metadata_aad(id, header_bytes), encrypted) {
        Some(plain) => Ok(plain),
        None => Err(VaultError::AuthenticationFailed),
    }
}

/// Decrypts the metadata record (ciphertext followed by its tag).
pub fn open_metadata(
    key: &[u8; 32],
    id: &[u8; 16],
    header_bytes: &[u8; 54],
    header: &ContainerHeader,
    encrypted: &[u8],
) -> (result: Result<Vec<u8>, VaultError>)
    ensures
        encrypted@.len() != header.metadata_cipher_len ==> result == Err::<Vec<u8>, VaultError>(
            VaultError::MalformedContainer,
        ),
        encrypted@.len() == header.metadata_cipher_len ==> match result {
            Ok(plain) => spec_open_metadata(
                key@,
                id@,
                header_bytes@,
                header.nonce_prefix@,
                encrypted@,
            ) == Ok::<Seq<u8>, VaultError>(plain@),
            Err(e) => spec_open_metadata(key@, id@, header_bytes@, header.nonce_prefix@, encrypted@)
                == Err::<Seq<u8>, VaultError>(e),
        },
{
    if encrypted.len() != header.metadata_cipher_len as usize {
        return Err(VaultError::MalformedContainer);
    }
    let nonce = record_nonce(header.nonce_prefix, 0);
    let aad = metadata_aad(id, header_bytes);
    match aead_open(key, &nonce, aad.as_slice(), encrypted) {
        Some(plain) => Ok(plain),
        None => Err(VaultError::AuthenticationFailed),
    }
}

/// Seals the metadata record of a new container.
pub fn seal_metadata(
    key: &[u8; 32],
    id: &[u8; 16],
    header_bytes: &[u8; 54],
    nonce_prefix: [u8; 4],
    plain: &[u8],
) -> (result: Result<Vec<u8>, VaultError>)
    ensures
        result is Ok <==> plain@.len() <= AEAD_MAX_BYTES,
        result matches Ok(c) ==> c@ == aes256gcm_seal(
            key@,
            spec_record_nonce(nonce_prefix@, 0),
            spec_metadata_aad(id@, header_bytes@),
            plain@,
        ),
        result matches Err(e) ==> e == VaultError::Crypto,
{
    let nonce = record_nonce(nonce_prefix, 0);
    let aad = metadata_aad(id, header_bytes);
    proof {
        reveal_strlit("nd-secure/gallery-metadata/v1");
        assert(aad@.len() == 99);
    }
    aead_seal(key, &nonce, aad.as_slice(), plain)
}

/// The header's metadata agrees with the public header, else
/// `AuthenticationFailed`.
pub fn check_metadata_matches_header(header: &ContainerHeader, metadata: &MediaMetadata) -> (result:
    Result<(), VaultError>)
    ensures
        result is Ok <==> (metadata.total_size == header.total_size && metadata.chunk_count
            == header.chunk_count),
        result matches Err(e) ==> e == VaultError::AuthenticationFailed,
{
    if metadata.total_size != header.total_size || metadata.chunk_count != header.chunk_count {
        return Err(VaultError::AuthenticationFailed);
    }
    Ok(())
}

/// Number of plaintext bytes that the recorded signature covers.
pub open spec fn spec_signature_len(total_size: u64) -> int {
    if total_size < SIGNATURE_BYTES {
        total_size as int
    } else {
        SIGNATURE_BYTES as int
    }
}

/// The checks on the first decrypted record when a container is opened:
/// its detected type must be the recorded one and its leading bytes must be
/// the recorded signature.
pub open spec fn spec_check_first_record(
    total_size: u64,
    mime_type: Seq<char>,
    signature: Seq<char>,
    first: Seq<u8>,
) -> Result<(), VaultError> {
    match spec_detect_mime(first) {
        None => Err(VaultError::UnsupportedMedia),
        Some(detected) => if detected != mime_type {
            Err(VaultError::AuthenticationFailed)
        } else {
            match base64_standard_decode(encode_utf8(signature)) {
                None => Err(VaultError::MalformedContainer),
                Some(recorded) => {
                    let n = spec_signature_len(total_size);
                    if recorded.len() != n || first.len() < n || recorded != first.subrange(0, n) {
                        Err(VaultError::AuthenticationFailed)
                    } else {
                        Ok(())
                    }
                },
            }
        },
    }
}

/// Checks the first decrypted record against the metadata.
#[verifier::loop_isolation(false)]
pub fn check_first_record(total_size: u64, metadata: &MediaMetadata, first: &[u8]) -> (result: Result<
    (),
    VaultError,
>)
    ensures
        result == spec_check_first_record(total_size, metadata.mime_type@, metadata.signature@, first@),
{
    let detected = match detect_mime(first) {
        Some(detected) => detected,
        None => {
            return Err(VaultError::UnsupportedMedia);
        },
    };
    if !str_eq(detected, metadata.mime_type.as_str()) {
        return Err(VaultError::AuthenticationFailed);
    }
    let recorded = match standard_decode(metadata.signature.as_str().as_bytes()) {
        Some(recorded) => recorded,
        None => {
            return Err(VaultError::MalformedContainer);
        },
    };
    let expected_len: usize = if total_size < SIGNATURE_BYTES as u64 {
        total_size as usize
    } else {
        SIGNATURE_BYTES
    };
    if recorded.len() != expected_len || first.len() < expected_len {
        return Err(VaultError::AuthenticationFailed);
    }
    let mut i: usize = 0;
    while i < expected_len
        invariant
            i <= expected_len,
            expected_len <= first@.len(),
            recorded@.len() == expected_len,
            forall|j: int| 0 <= j < i ==> recorded@[j] == first@[j],
        decreases expected_len - i,
    {
        if recorded[i] != first[i] {
            assert(recorded@[i as int] != first@.subrange(0, expected_len as int)[i as int]);
            return Err(VaultError::AuthenticationFailed);
        }
        i = i + 1;
    }
    assert(recorded@ =~= first@.subrange(0, expected_len as int));
    Ok(())
}

/// Opening content record `index` from the bytes stored for it.
pub open spec fn spec_open_record(
    key: Seq<u8>,
    h: ContainerHeader,
    id: Seq<u8>,
    index: u64,
    record: Seq<u8>,
) -> Result<Seq<u8>, VaultError> {
    if index >= h.chunk_count {
        Err(VaultError::InvalidRange)
    } else {
        match spec_chunk_plain_len(h.total_size, index) {
            None => Err(VaultError::MalformedContainer),
            Some(plain_len) => if record.len() != plain_len + TAG_SIZE {
                Err(VaultError::MalformedContainer)
            } else {
                match aes256gcm_open(
                    key,
                    spec_record_nonce(h.nonce_prefix@, (index + 1) as u64),
                    spec_chunk_aad(
                        id,
                        h.total_size,
                        h.chunk_count,
                        index,
                        plain_len as u32,
                        index + 1 == h.chunk_count,
                    ),
                    record,
                ) {
                    Some(plain) => Ok(plain),
                    None => Err(VaultError::AuthenticationFailed),
                }
            },
        }
    }
}

/// Offset in the file of content record `index`, if it fits in a `u64`.
pub open spec fn spec_record_offset(h: ContainerHeader, index: u64) -> Option<int> {
    let offset = HEADER_SIZE + h.metadata_cipher_len + index * RECORD_STRIDE;
    if offset <= u64::MAX {
        Some(offset)
    } else {
        None
    }
}

/// Where content record `index` starts in the file.
pub fn record_offset(header: &ContainerHeader, index: u64) -> (result: Result<u64, VaultError>)
    ensures
        result is Ok <==> spec_record_offset(*header, index) is Some,
        result matches Ok(o) ==> Some(o as int) == spec_record_offset(*header, index),
        result matches Err(e) ==> e == VaultError::MalformedContainer,
{
    let data_offset = (HEADER_SIZE as u64) + (header.metadata_cipher_len as u64);
    let room = u64::MAX - data_offset;
    let limit = room / RECORD_STRIDE;
    if index > limit {
        proof {
            assert(index * RECORD_STRIDE > room) by (nonlinear_arith)
                requires
                    index > limit,
                    limit == room / RECORD_STRIDE,
                    RECORD_STRIDE == 65552,
            ;
        }
        return Err(VaultError::MalformedContainer);
    }
    proof {
        assert(index * RECORD_STRIDE <= room) by (nonlinear_arith)
            requires
                index <= limit,
                limit == room / RECORD_STRIDE,
                RECORD_STRIDE == 65552,
        ;
    }
    Ok(data_offset + index * RECORD_STRIDE)
}

/// Length of the bytes stored for content record `index`.
pub fn record_len(header: &ContainerHeader, index: u64) -> (result: Result<usize, VaultError>)
    ensures
        index >= header.chunk_count ==> result == Err::<usize, VaultError>(VaultError::InvalidRange),
        index < header.chunk_count ==> match result {
            Ok(n) => spec_chunk_plain_len(header.total_size, index) == Some(n - TAG_SIZE),
            Err(e) => e == VaultError::MalformedContainer && spec_chunk_plain_len(
                header.total_size,
                index,
            ) is None,
        },
{
    if index >= header.chunk_count {
        return Err(VaultError::InvalidRange);
    }
    let plain_len = chunk_plain_len(header.total_size, index)?;
    Ok(plain_len + TAG_SIZE)
}

/// Decrypts content record `index` from its stored bytes.
pub fn open_record(
    key: &[u8; 32],
    header: &ContainerHeader,
    id: &[u8; 16],
    index: u64,
    record: &[u8],
) -> (result: Result<Vec<u8>, VaultError>)
    ensures
        match result {
            Ok(plain) => spec_open_record(key@, *header, id@, index, record@) == Ok::<
                Seq<u8>,
                VaultError,
            >(plain@),
            Err(e) => spec_open_record(key@, *header, id@, index, record@) == Err::<
                Seq<u8>,
                VaultError,
            >(e),
        },
{
    if index >= header.chunk_count {
        return Err(VaultError::InvalidRange);
    }
    let plain_len = chunk_plain_len(header.total_size, index)?;
    if record.len() != plain_len + TAG_SIZE {
        return Err(VaultError::MalformedContainer);
    }
    let aad = chunk_aad(
        id,
        header.total_size,
        header.chunk_count,
        index,
        plain_len as u32,
        index + 1 == header.chunk_count,
    );
    let nonce = record_nonce(header.nonce_prefix, index + 1);
    match aead_open(key, &nonce, aad.as_slice(), record) {
        Some(plain) => Ok(plain),
        None => Err(VaultError::AuthenticationFailed),
    }
}

/// Sealing content record `index` of a new container.
pub open spec fn spec_seal_record(
    key: Seq<u8>,
    h: ContainerHeader,
    id: Seq<u8>,
    index: u64,
    plain: Seq<u8>,
) -> Seq<u8> {
    aes256gcm_seal(
        key,
        spec_record_nonce(h.nonce_prefix@, (index + 1) as u64),
        spec_chunk_aad(
            id,
            h.total_size,
            h.chunk_count,
            index,
            plain.len() as u32,
            index + 1 == h.chunk_count,
        ),
        plain,
    )
}

/// Seals content record `index`; its plaintext must have the record's
/// length. Opening the sealed record as record `index` of the same
/// container gives the plaintext back.
pub fn seal_record(
    key: &[u8; 32],
    header: &ContainerHeader,
    id: &[u8; 16],
    index: u64,
    plain: &[u8],
) -> (result: Result<Vec<u8>, VaultError>)
    ensures
        index >= header.chunk_count ==> result == Err::<Vec<u8>, VaultError>(VaultError::InvalidRange),
        index < header.chunk_count ==> match result {
            Ok(c) => spec_chunk_plain_len(header.total_size, index) == Some(plain@.len() as int)
                && c@ == spec_seal_record(key@, *header, id@, index, plain@),
            Err(e) => e == VaultError::MalformedContainer && spec_chunk_plain_len(
                header.total_size,
                index,
            ) != Some(plain@.len() as int),
        },
        result matches Ok(c) ==> spec_open_record(key@, *header, id@, index, c@) == Ok::<
            Seq<u8>,
            VaultError,
        >(plain@),
{
    if index >= header.chunk_count {
        return Err(VaultError::InvalidRange);
    }
    let plain_len = chunk_plain_len(header.total_size, index)?;
    if plain.len() != plain_len {
        return Err(VaultError::MalformedContainer);
    }
    let aad = chunk_aad(
        id,
        header.total_size,
        header.chunk_count,
        index,
        plain_len as u32,
        index + 1 == header.chunk_count,
    );
    let nonce = record_nonce(header.nonce_prefix, index + 1);
    proof {
        reveal_strlit("nd-secure/gallery-chunk/v1");
        assert(aad@.len() == 71);
    }
    match aead_seal(key, &nonce, aad.as_slice(), plain) {
        Ok(c) => Ok(c),
        Err(e) => Err(e),
    }
}

/// The checks of a range request on a `total`-byte plaintext: a non-empty
/// range inside the plaintext, no longer than `maximum_bytes`.
pub open spec fn spec_plan_range(total: u64, start: u64, end: u64, maximum_bytes: u64) -> Result<
    (u64, u64),
    VaultError,
> {
    if start > end || end >= total {
        Err(VaultError::InvalidRange)
    } else if end - start + 1 > maximum_bytes {
        Err(VaultError::RangeTooLarge)
    } else {
        Ok(((start / (CHUNK_SIZE as u64)) as u64, (end / (CHUNK_SIZE as u64)) as u64))
    }
}

/// After the declared size was read, the source must be exhausted: a byte
/// more means it changed size during the import.
pub fn check_source_exhausted(extra_bytes_read: usize) -> (result: Result<(), VaultError>)
    ensures
        extra_bytes_read == 0 ==> result is Ok,
        extra_bytes_read != 0 ==> (result matches Err(VaultError::InvalidInput(d)) && d@
            == "media source changed size while being imported"@),
{
    if extra_bytes_read != 0 {
        return Err(crate::error::invalid_input("media source changed size while being imported"));
    }
    Ok(())
}

/// A new container may take its final name only while nothing holds it.
pub fn check_destination_free(final_exists: bool) -> (result: Result<(), VaultError>)
    ensures
        !final_exists ==> result is Ok,
        final_exists ==> (result matches Err(VaultError::Storage(d)) && d@
            == "generated media identifier already exists"@),
{
    if final_exists {
        return Err(VaultError::Storage(String::from_str("generated media identifier already exists")));
    }
    Ok(())
}

/// The byte range of a read of a whole object of at most `maximum_bytes`
/// bytes: all of it, or `RangeTooLarge` for an empty object or one that is
/// larger.
pub fn plan_whole_read(total_size: u64, maximum_bytes: u64) -> (result: Result<(u64, u64), VaultError>)
    ensures
        total_size == 0 || total_size > maximum_bytes ==> result == Err::<(u64, u64), VaultError>(
            VaultError::RangeTooLarge,
        ),
        0 < total_size <= maximum_bytes ==> result == Ok::<(u64, u64), VaultError>(
            (0, (total_size - 1) as u64),
        ),
{
    if total_size == 0 || total_size > maximum_bytes {
        return Err(VaultError::RangeTooLarge);
    }
    Ok((0, total_size - 1))
}

/// Checks a range request and names the first and last records it spans.
pub fn plan_range(header: &ContainerHeader, start: u64, end: u64, maximum_bytes: u64) -> (result:
    Result<(u64, u64), VaultError>)
    ensures
        match result {
            Ok(p) => spec_plan_range(header.total_size, start, end, maximum_bytes) == Ok::<
                (u64, u64),
                VaultError,
            >(p),
            Err(e) => spec_plan_range(header.total_size, start, end, maximum_bytes) == Err::<
                (u64, u64),
                VaultError,
            >(e),
        },
{
    if start > end || end >= header.total_size {
        return Err(VaultError::InvalidRange);
    }
    let length = end - start;
    if length >= maximum_bytes {
        return Err(VaultError::RangeTooLarge);
    }
    Ok((start / (CHUNK_SIZE as u64), end / (CHUNK_SIZE as u64)))
}

/// The plaintexts of consecutive records, joined.
pub open spec fn joined_records(chunks: Seq<Vec<u8>>) -> Seq<u8> {
    chunks.map_values(|c: Vec<u8>| c@).flatten_alt()
}

/// Record `i` of a plaintext: the bytes from `i` chunks in, one chunk's
/// worth or up to the end.
pub open spec fn plain_record(p: Seq<u8>, i: int) -> Seq<u8> {
    p.subrange(
        i * CHUNK_SIZE,
        if (i + 1) * CHUNK_SIZE < p.len() {
            (i + 1) * CHUNK_SIZE
        } else {
            p.len() as int
        },
    )
}

/// Records `first..first + chunks.len()` of a plaintext, each decrypted to
/// its bytes, join to the plaintext from record `first` on.
proof fn lemma_joined_plain_records(p: Seq<u8>, first: int, chunks: Seq<Vec<u8>>)
    requires
        0 <= first,
        first * CHUNK_SIZE <= p.len(),
        chunks.len() > 0 ==> (first + chunks.len() - 1) * CHUNK_SIZE < p.len(),
        forall|k: int| 0 <= k < chunks.len() ==> (#[trigger] chunks[k])@ == plain_record(p, first + k),
    ensures
        joined_records(chunks) == p.subrange(
            first * CHUNK_SIZE,
            if (first + chunks.len()) * CHUNK_SIZE < p.len() {
                (first + chunks.len()) * CHUNK_SIZE
            } else {
                p.len() as int
            },
        ),
    decreases chunks.len(),
{
    if chunks.len() == 0 {
        assert(joined_records(chunks) =~= Seq::<u8>::empty());
    } else {
        let init = chunks.drop_last();
        let n = chunks.len() as int;
        assert forall|k: int| 0 <= k < init.len() implies (#[trigger] init[k])@ == plain_record(p, first + k) by {
            assert(init[k] == chunks[k]);
        }
        lemma_joined_plain_records(p, first, init);
        let f = |c: Vec<u8>| c@;
        assert(chunks.map_values(f).drop_last() =~= init.map_values(f));
        assert(chunks.map_values(f).last() == chunks[n - 1]@);
        assert(joined_records(chunks) == joined_records(init) + chunks[n - 1]@);
        assert((first + n - 1) * CHUNK_SIZE < p.len());
        assert(joined_records(init) == p.subrange(first * CHUNK_SIZE, (first + n - 1) * CHUNK_SIZE));
        assert(chunks[n - 1]@ == plain_record(p, first + n - 1));
        assert(joined_records(chunks) =~= p.subrange(
            first * CHUNK_SIZE,
            if (first + n) * CHUNK_SIZE < p.len() {
                (first + n) * CHUNK_SIZE
            } else {
                p.len() as int
            },
        ));
    }
}

/// A range read gives back exactly the bytes asked for: when each record
/// that bytes `start..=end` span decrypts to that record of the plaintext,
/// the bytes `assemble_range` cuts out of them are the plaintext's bytes
/// `start..=end`.
pub proof fn lemma_range_read_is_plaintext(p: Seq<u8>, start: u64, end: u64, chunks: Seq<Vec<u8>>)
    requires
        start <= end < p.len(),
        chunks.len() == end / (CHUNK_SIZE as u64) - start / (CHUNK_SIZE as u64) + 1,
        forall|k: int|
            0 <= k < chunks.len() ==> (#[trigger] chunks[k])@ == plain_record(
                p,
                start / (CHUNK_SIZE as u64) + k,
            ),
    ensures
        joined_records(chunks).subrange(
            start - (start / (CHUNK_SIZE as u64)) * CHUNK_SIZE,
            end - (start / (CHUNK_SIZE as u64)) * CHUNK_SIZE + 1,
        ) == p.subrange(start as int, end + 1),
{
    let first = (start / (CHUNK_SIZE as u64)) as int;
    let last = (end / (CHUNK_SIZE as u64)) as int;
    lemma_div_chunk(start);
    lemma_div_chunk(end);
    assert(last * CHUNK_SIZE <= end);
    lemma_joined_plain_records(p, first, chunks);
    let hi = if (first + chunks.len()) * CHUNK_SIZE < p.len() {
        (first + chunks.len()) * CHUNK_SIZE
    } else {
        p.len() as int
    };
    assert(end < hi);
    assert(joined_records(chunks).subrange(start - first * CHUNK_SIZE, end - first * CHUNK_SIZE + 1)
        =~= p.subrange(start as int, end + 1));
}

/// A range read of a container holding plaintext `p` gives what was asked
/// for, or refuses it: a reversed range or one past the end is
/// `InvalidRange`, one longer than `maximum_bytes` is `RangeTooLarge`, and
/// otherwise `plan_range` names the records the range spans, which, each
/// decrypted to that record of `p`, assemble to exactly bytes `start..=end`.
pub proof fn lemma_range_read(p: Seq<u8>, start: u64, end: u64, maximum_bytes: u64, chunks: Seq<Vec<u8>>)
    requires
        p.len() <= u64::MAX,
    ensures
        start > end || end >= p.len() ==> spec_plan_range(p.len() as u64, start, end, maximum_bytes) == Err::<
            (u64, u64),
            VaultError,
        >(VaultError::InvalidRange),
        start <= end < p.len() && end - start + 1 > maximum_bytes ==> spec_plan_range(
            p.len() as u64,
            start,
            end,
            maximum_bytes,
        ) == Err::<(u64, u64), VaultError>(VaultError::RangeTooLarge),
        spec_plan_range(p.len() as u64, start, end, maximum_bytes) matches Ok((first, last)) ==> (
        chunks.len() == last - first + 1 && (forall|k: int|
            0 <= k < chunks.len() ==> (#[trigger] chunks[k])@ == plain_record(p, first + k))
            ==> joined_records(chunks).subrange(
            start - first * CHUNK_SIZE,
            end - first * CHUNK_SIZE + 1,
        ) == p.subrange(start as int, end + 1)),
{
    if spec_plan_range(p.len() as u64, start, end, maximum_bytes) is Ok {
        let first = (start / (CHUNK_SIZE as u64)) as u64;
        let last = (end / (CHUNK_SIZE as u64)) as u64;
        if chunks.len() == last - first + 1 && (forall|k: int|
            0 <= k < chunks.len() ==> (#[trigger] chunks[k])@ == plain_record(p, first + k)) {
            lemma_range_read_is_plaintext(p, start, end, chunks);
        }
    }
}

/// `chunks` holds, in order, records `first..first + chunks.len()` with the
/// lengths the header gives them.
pub open spec fn records_have_lengths(h: ContainerHeader, first: u64, chunks: Seq<Vec<u8>>) -> bool {
    forall|k: int|
        0 <= k < chunks.len() ==> spec_chunk_plain_len(h.total_size, (first + k) as u64) == Some(
            (#[trigger] chunks[k])@.len() as int,
        )
}

proof fn lemma_div_chunk(x: u64)
    ensures
        (x / 65536u64) * 65536 <= x < (x / 65536u64) * 65536 + 65536,
{
    assert((x / 65536u64) * 65536 <= x < (x / 65536u64) * 65536 + 65536) by (nonlinear_arith);
}

/// Cuts bytes `start..=end` of the plaintext out of the decrypted records
/// `first..=last` that span them.
pub fn assemble_range(
    header: &ContainerHeader,
    start: u64,
    end: u64,
    chunks: &Vec<Vec<u8>>,
) -> (result: Result<Vec<u8>, VaultError>)
    requires
        header_valid(*header),
        start <= end < header.total_size,
    ensures
        ({
            let first = (start / (CHUNK_SIZE as u64)) as u64;
            let last = (end / (CHUNK_SIZE as u64)) as u64;
            &&& result is Ok <==> (chunks@.len() == last - first + 1 && records_have_lengths(
                *header,
                first,
                chunks@,
            ))
            &&& result matches Ok(out) ==> out@ == joined_records(chunks@).subrange(
                start - first * CHUNK_SIZE,
                end - first * CHUNK_SIZE + 1,
            )
            &&& result matches Err(e) ==> e == VaultError::MalformedContainer
        }),
{
    let first = start / (CHUNK_SIZE as u64);
    let last = end / (CHUNK_SIZE as u64);
    proof {
        lemma_div_chunk(start);
        lemma_div_chunk(end);
        assert(first <= last) by (nonlinear_arith)
            requires
                first == start / 65536u64,
                last == end / 65536u64,
                start <= end,
        ;
    }
    let count = last - first + 1;
    if chunks.len() as u64 != count {
        return Err(VaultError::MalformedContainer);
    }
    let ghost views = chunks@.map_values(|c: Vec<u8>| c@);
    let mut all: Vec<u8> = Vec::new();
    let mut k: usize = 0;
    while k < chunks.len()
        invariant
            header_valid(*header),
            start <= end < header.total_size,
            first == start / (CHUNK_SIZE as u64),
            last == end / (CHUNK_SIZE as u64),
            last * 65536 <= end < last * 65536 + 65536,
            first <= last,
            chunks@.len() == last - first + 1,
            views == chunks@.map_values(|c: Vec<u8>| c@),
            k <= chunks@.len(),
            all@ == views.take(k as int).flatten_alt(),
            forall|j: int|
                0 <= j < k ==> spec_chunk_plain_len(header.total_size, (first + j) as u64) == Some(
                    (#[trigger] chunks@[j])@.len() as int,
                ),
            k < chunks@.len() ==> all@.len() == k * CHUNK_SIZE,
            k == chunks@.len() ==> all@.len() == (k - 1) * CHUNK_SIZE + chunks@[k - 1]@.len(),
        decreases chunks@.len() - k,
    {
        let index = first + k as u64;
        let expected = chunk_plain_len(header.total_size, index)?;
        if chunks[k].len() != expected {
            return Err(VaultError::MalformedContainer);
        }
        push_all(&mut all, chunks[k].as_slice());
        proof {
            assert(views.take(k + 1).drop_last() =~= views.take(k as int));
            assert(views.take(k + 1).last() == chunks@[k as int]@);
            if k + 1 < chunks@.len() {
                assert(index < last);
                assert(index * 65536 + 65536 <= last * 65536);
            }
        }
        k = k + 1;
    }
    proof {
        assert(views.take(chunks@.len() as int) =~= views);
        let lastk = chunks@.len() - 1;
        assert((first + lastk) as u64 == last);
        assert(spec_chunk_plain_len(header.total_size, last) == Some(chunks@[lastk]@.len() as int));
        let lenlast = chunks@[lastk]@.len() as int;
        assert(lenlast >= end - last * 65536 + 1);
        assert(all@.len() == lastk * 65536 + lenlast);
        assert(lastk * 65536 == last * 65536 - first * 65536);
        assert(end - first * 65536 + 1 <= all@.len());
        assert(records_have_lengths(*header, first, chunks@));
    }
    let from64 = start - first * (CHUNK_SIZE as u64);
    let to64 = end - first * (CHUNK_SIZE as u64) + 1;
    proof {
        assert(from64 == start - first * 65536);
        assert(to64 == end - first * 65536 + 1);
        assert(from64 <= to64 <= all@.len());
        assert(all@ == joined_records(chunks@));
    }
    let joined_len = all.len();
    proof {
        assert(to64 <= joined_len);
    }
    let from = from64 as usize;
    let to = to64 as usize;
    let out = vstd::slice::slice_to_vec(vstd::slice::slice_subrange(all.as_slice(), from, to));
    Ok(out)
}

/// The number of records a new container of `total_size` bytes needs, or
/// why the size is refused.
pub fn plan_container(total_size: u64) -> (result: Result<u64, VaultError>)
    ensures
        (total_size == 0 || total_size > MAX_FILE_BYTES) ==> (result matches Err(
            VaultError::InvalidInput(d),
        ) && d@ == "media size is outside supported bounds"@),
        0 < total_size <= MAX_FILE_BYTES ==> (result matches Ok(n) && n == spec_chunk_count(
            total_size as int,
        )),
{
    if total_size == 0 || total_size > MAX_FILE_BYTES {
        return Err(crate::error::invalid_input("media size is outside supported bounds"));
    }
    Ok((total_size + (CHUNK_SIZE as u64 - 1)) / CHUNK_SIZE as u64)
}

/// The metadata of a new container, from the first record's plaintext: its
/// detected type and, Base64-encoded, its leading `SIGNATURE_BYTES` bytes.
pub fn new_metadata(total_size: u64, chunk_count: u64, first: &[u8]) -> (result: Result<
    MediaMetadata,
    VaultError,
>)
    ensures
        match spec_detect_mime(first@) {
            None => result == Err::<MediaMetadata, VaultError>(VaultError::UnsupportedMedia),
            Some(mime) => result matches Ok(m) && {
                &&& m.mime_type@ == mime
                &&& m.total_size == total_size
                &&& m.chunk_count == chunk_count
                &&& m.signature@ == base64_standard_encode(
                    first@.subrange(
                        0,
                        if first@.len() < SIGNATURE_BYTES {
                            first@.len() as int
                        } else {
                            SIGNATURE_BYTES as int
                        },
                    ),
                )
                &&& m.width is None && m.height is None && m.duration_ms is None
            },
        },
{
    let mime = match detect_mime(first) {
        Some(m) => m,
        None => return Err(VaultError::UnsupportedMedia),
    };
    let n = if first.len() < SIGNATURE_BYTES {
        first.len()
    } else {
        SIGNATURE_BYTES
    };
    let signature = standard_encode(vstd::slice::slice_subrange(first, 0, n));
    Ok(
        MediaMetadata {
            mime_type: String::from_str(mime),
            total_size,
            chunk_count,
            signature,
            width: None,
            height: None,
            duration_ms: None,
        },
    )
}

/// The header of a new container whose metadata record holds
/// `metadata_plain_len` plaintext bytes.
pub fn new_header(
    total_size: u64,
    chunk_count: u64,
    salt: [u8; 16],
    nonce_prefix: [u8; 4],
    metadata_plain_len: usize,
) -> (result: Result<ContainerHeader, VaultError>)
    ensures
        metadata_plain_len + TAG_SIZE > MAX_METADATA_CIPHER_BYTES ==> result == Err::<
            ContainerHeader,
            VaultError,
        >(VaultError::MalformedContainer),
        metadata_plain_len + TAG_SIZE <= MAX_METADATA_CIPHER_BYTES ==> (result matches Ok(h) && h
            == (ContainerHeader {
            total_size,
            chunk_count,
            salt,
            nonce_prefix,
            metadata_cipher_len: (metadata_plain_len + TAG_SIZE) as u32,
        })),
{
    if metadata_plain_len > MAX_METADATA_CIPHER_BYTES - TAG_SIZE {
        return Err(VaultError::MalformedContainer);
    }
    Ok(
        ContainerHeader {
            total_size,
            chunk_count,
            salt,
            nonce_prefix,
            metadata_cipher_len: (metadata_plain_len + TAG_SIZE) as u32,
        },
    )
}

/// Content record `index` of a plaintext: its bytes from
/// `index * CHUNK_SIZE`, at most `CHUNK_SIZE` of them.
pub open spec fn plaintext_chunk(p: Seq<u8>, index: int) -> Seq<u8> {
    p.subrange(
        index * CHUNK_SIZE,
        if (index + 1) * CHUNK_SIZE < p.len() {
            (index + 1) * CHUNK_SIZE
        } else {
            p.len() as int
        },
    )
}

/// Records `first..first + count` of a plaintext.
pub open spec fn plaintext_chunks(p: Seq<u8>, first: int, count: nat) -> Seq<Seq<u8>> {
    Seq::new(count, |k: int| plaintext_chunk(p, first + k))
}

/// Consecutive records of a plaintext, joined, are the plaintext from the
/// first record's start to the last record's end.
proof fn lemma_chunks_join(p: Seq<u8>, first: int, count: nat)
    requires
        0 <= first,
        first * CHUNK_SIZE <= p.len(),
        count > 0 ==> (first + count - 1) * CHUNK_SIZE < p.len(),
    ensures
        plaintext_chunks(p, first, count).flatten_alt() == p.subrange(
            first * CHUNK_SIZE,
            if (first + count) * CHUNK_SIZE < p.len() {
                (first + count) * CHUNK_SIZE
            } else {
                p.len() as int
            },
        ),
    decreases count,
{
    let cs = plaintext_chunks(p, first, count);
    if count == 0 {
        assert(cs.flatten_alt() =~= p.subrange(first * CHUNK_SIZE, first * CHUNK_SIZE));
    } else {
        let n = (count - 1) as nat;
        lemma_chunks_join(p, first, n);
        assert(cs.drop_last() =~= plaintext_chunks(p, first, n));
        assert(cs.last() == plaintext_chunk(p, first + n));
        assert(cs.flatten_alt() == plaintext_chunks(p, first, n).flatten_alt() + plaintext_chunk(p, first + n));
        assert(cs.flatten_alt() =~= p.subrange(
            first * CHUNK_SIZE,
            if (first + count) * CHUNK_SIZE < p.len() {
                (first + count) * CHUNK_SIZE
            } else {
                p.len() as int
            },
        ));
    }
}

/// The records that span bytes `start..=end` of a plaintext have the
/// lengths the container's header gives them, and joined, cut at the range,
/// they are exactly bytes `start..=end`: sealing each with `seal_record`,
/// opening it with `open_record` and assembling them with `assemble_range`
/// gives the range of the plaintext back.
pub proof fn lemma_range_round_trip(p: Seq<u8>, h: ContainerHeader, start: u64, end: u64)
    requires
        header_valid(h),
        p.len() == h.total_size,
        start <= end < h.total_size,
    ensures
        ({
            let first = (start / (CHUNK_SIZE as u64)) as int;
            let last = (end / (CHUNK_SIZE as u64)) as int;
            let chunks = plaintext_chunks(p, first, (last - first + 1) as nat);
            &&& forall|k: int|
                0 <= k < chunks.len() ==> spec_chunk_plain_len(h.total_size, (first + k) as u64) == Some(
                    (#[trigger] chunks[k]).len() as int,
                )
            &&& chunks.flatten_alt().subrange(start - first * CHUNK_SIZE, end - first * CHUNK_SIZE + 1)
                == p.subrange(start as int, end + 1)
        }),
{
    let first = (start / (CHUNK_SIZE as u64)) as int;
    let last = (end / (CHUNK_SIZE as u64)) as int;
    lemma_div_chunk(start);
    lemma_div_chunk(end);
    let count = (last - first + 1) as nat;
    let chunks = plaintext_chunks(p, first, count);
    assert forall|k: int| 0 <= k < chunks.len() implies spec_chunk_plain_len(
        h.total_size,
        (first + k) as u64,
    ) == Some((#[trigger] chunks[k]).len() as int) by {
        assert(chunks[k] == plaintext_chunk(p, first + k));
        assert((first + k) * CHUNK_SIZE <= last * CHUNK_SIZE);
    }
    lemma_chunks_join(p, first, count);
    assert(chunks.flatten_alt().subrange(start - first * CHUNK_SIZE, end - first * CHUNK_SIZE + 1)
        =~= p.subrange(start as int, end + 1));
}

} // verus!
