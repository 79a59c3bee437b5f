//! The in-app `vault://` protocol: which objects a request names, which
//! byte range it asks for, and how failures map to HTTP statuses.
use vstd::prelude::*;
use crate::error::{VaultError, invalid_input};
use crate::ids::{parse_canonical_uuid, uuid_parse, spec_uuid_text};
use crate::text::{
    chars_of, contains_char, contains_pair, contains_adjacent, find_char, first_index_of,
    parse_u64, spec_parse_u64, spec_starts_with, starts_with, strip_prefix, chars_between, str_eq,
    decimal_text,
};

verus! {

/// Largest range served in one partial response.
pub const MAX_RANGE_BYTES: u64 = 4194304;

/// Largest object served whole without a range.
pub const MAX_COMPLETE_IMAGE_BYTES: u64 = 67108864;

/// Largest thumbnail object.
pub const MAX_THUMBNAIL_BYTES: u64 = 4194304;

/// The two kinds of object the protocol serves.
#[derive(Debug, Clone, Copy, PartialEq, Eq, Structural)]
pub enum ObjectKind {
    Media,
    Thumbnail,
}

/// A parsed protocol path: the object kind and the media item's id.
#[derive(Debug, Clone, Copy)]
pub struct ObjectTarget {
    pub kind: ObjectKind,
    pub media_id: [u8; 16],
}

/// Why a `Range` header was not served.
#[derive(Debug, Clone, Copy, PartialEq, Eq, Structural)]
pub enum RangeIssue {
    Malformed,
    Unsatisfiable,
}

/// The `bytes=` unit prefix of a range header.
pub open spec fn bytes_unit() -> Seq<char> {
    seq!['b', 'y', 't', 'e', 's', '=']
}

/// The range named by the two sides of `first-last`, `first-` or `-suffix`.
pub open spec fn spec_range_sides(left: Seq<char>, right: Seq<char>, total: u64) -> Result<
    (u64, u64),
    RangeIssue,
> {
    if left.len() == 0 {
        match spec_parse_u64(right) {
            None => Err(RangeIssue::Malformed),
            Some(suffix) => if suffix == 0 {
                Err(RangeIssue::Unsatisfiable)
            } else {
                let length = if suffix < total {
                    suffix
                } else {
                    total
                };
                Ok(((total - length) as u64, (total - 1) as u64))
            },
        }
    } else {
        match spec_parse_u64(left) {
            None => Err(RangeIssue::Malformed),
            Some(start) => if start >= total {
                Err(RangeIssue::Unsatisfiable)
            } else if right.len() == 0 {
                Ok((start, (total - 1) as u64))
            } else {
                match spec_parse_u64(right) {
                    None => Err(RangeIssue::Malformed),
                    Some(last) => {
                        let end = if last < total - 1 {
                            last
                        } else {
                            (total - 1) as u64
                        };
                        if end < start {
                            Err(RangeIssue::Unsatisfiable)
                        } else {
                            Ok((start, end))
                        }
                    },
                }
            },
        }
    }
}

/// A single-range `Range` header on a `total`-byte object: `bytes=`, no
/// comma, and the sides around the first `-`.
pub open spec fn spec_parse_range(value: Seq<char>, total: u64) -> Result<(u64, u64), RangeIssue> {
    if total == 0 || !spec_starts_with(value, bytes_unit()) || value.contains(',') {
        Err(RangeIssue::Malformed)
    } else {
        let raw = value.skip(6);
        match first_index_of(raw, '-') {
            None => Err(RangeIssue::Malformed),
            Some(i) => spec_range_sides(raw.take(i), raw.skip(i + 1), total),
        }
    }
}

/// The `Range` unit prefix, written out.
pub open spec fn range_prefix() -> Seq<char> {
    seq!['b', 'y', 't', 'e', 's', '=']
}

/// A header of digits around one `-` is read by its two sides.
proof fn lemma_range_of_digit_sides(left: Seq<char>, right: Seq<char>, total: u64)
    requires
        total > 0,
        crate::text::all_digits(left),
        crate::text::all_digits(right),
    ensures
        spec_parse_range(range_prefix() + left + seq!['-'] + right, total) == spec_range_sides(
            left,
            right,
            total,
        ),
{
    let v = range_prefix() + left + seq!['-'] + right;
    assert(v.subrange(0, 6) =~= bytes_unit());
    assert(spec_starts_with(v, bytes_unit()));
    assert(!v.contains(',')) by {
        if v.contains(',') {
            let i = choose|i: int| 0 <= i < v.len() && v[i] == ',';
            if i >= 6 && i < 6 + left.len() {
                assert(v[i] == left[i - 6]);
                assert(crate::text::is_ascii_digit(left[i - 6]));
            } else if i > 6 + left.len() {
                assert(v[i] == right[i - 7 - left.len()]);
                assert(crate::text::is_ascii_digit(right[i - 7 - left.len()]));
            }
        }
    }
    let raw = v.skip(6);
    assert(raw =~= left + seq!['-'] + right);
    let k = left.len() as int;
    assert(crate::text::is_first_index(raw, '-', k)) by {
        assert forall|j: int| 0 <= j < k implies raw[j] != '-' by {
            assert(raw[j] == left[j]);
            assert(crate::text::is_ascii_digit(left[j]));
        }
    }
    let i = choose|i: int| crate::text::is_first_index(raw, '-', i);
    assert(i == k) by {
        if i < k {
            assert(raw[i] == left[i]);
            assert(crate::text::is_ascii_digit(left[i]));
        }
    }
    assert(first_index_of(raw, '-') == Some(k));
    assert(raw.take(k) =~= left);
    assert(raw.skip(k + 1) =~= right);
}

/// A single byte range is read as written, for an object of `total`
/// bytes: `bytes=first-last` with `first <= last` names bytes `first` to
/// `last` (to the end when `last` is past it), one byte when they are
/// equal; `bytes=first-` names `first` to the end; `bytes=-n` names the
/// last `n` bytes (all of them when `n` exceeds the size); a first byte
/// past the end, a last byte before the first, or an empty suffix is
/// unsatisfiable.
pub proof fn lemma_range_reads_as_written(first: u64, last: u64, total: u64)
    requires
        total > 0,
    ensures
        first < total && first <= last ==> spec_parse_range(
            range_prefix() + decimal_text(first as nat) + seq!['-'] + decimal_text(last as nat),
            total,
        ) == Ok::<(u64, u64), RangeIssue>((first, if last < total { last } else { (total - 1) as u64 })),
        first < total ==> spec_parse_range(
            range_prefix() + decimal_text(first as nat) + seq!['-'],
            total,
        ) == Ok::<(u64, u64), RangeIssue>((first, (total - 1) as u64)),
        last > 0 ==> spec_parse_range(range_prefix() + seq!['-'] + decimal_text(last as nat), total) == Ok::<
            (u64, u64),
            RangeIssue,
        >(((total - (if last < total { last } else { total })) as u64, (total - 1) as u64)),
        first >= total ==> spec_parse_range(
            range_prefix() + decimal_text(first as nat) + seq!['-'] + decimal_text(last as nat),
            total,
        ) == Err::<(u64, u64), RangeIssue>(RangeIssue::Unsatisfiable) && spec_parse_range(
            range_prefix() + decimal_text(first as nat) + seq!['-'],
            total,
        ) == Err::<(u64, u64), RangeIssue>(RangeIssue::Unsatisfiable),
        first < total && last < first ==> spec_parse_range(
            range_prefix() + decimal_text(first as nat) + seq!['-'] + decimal_text(last as nat),
            total,
        ) == Err::<(u64, u64), RangeIssue>(RangeIssue::Unsatisfiable),
        spec_parse_range(range_prefix() + seq!['-'] + decimal_text(0), total) == Err::<(u64, u64), RangeIssue>(
            RangeIssue::Unsatisfiable,
        ),
{
    let d1 = decimal_text(first as nat);
    let d2 = decimal_text(last as nat);
    crate::text::lemma_decimal_text_reads_back(first as nat);
    crate::text::lemma_decimal_text_reads_back(last as nat);
    crate::text::lemma_decimal_text_reads_back(0);
    let empty = Seq::<char>::empty();
    assert(crate::text::all_digits(empty));
    lemma_range_of_digit_sides(d1, d2, total);
    lemma_range_of_digit_sides(d1, empty, total);
    assert(range_prefix() + d1 + seq!['-'] + empty =~= range_prefix() + d1 + seq!['-']);
    lemma_range_of_digit_sides(empty, d2, total);
    assert(range_prefix() + empty + seq!['-'] + d2 =~= range_prefix() + seq!['-'] + d2);
    lemma_range_of_digit_sides(empty, decimal_text(0), total);
    assert(range_prefix() + empty + seq!['-'] + decimal_text(0) =~= range_prefix() + seq!['-'] + decimal_text(0));
}

/// Reads a `Range` header against an object of `total` bytes.
pub fn parse_range(value: &str, total: u64) -> (result: Result<(u64, u64), RangeIssue>)
    ensures
        result == spec_parse_range(value@, total),
        result matches Ok((start, end)) ==> start <= end < total,
{
    let text = chars_of(value);
    proof {
        reveal_strlit("bytes=");
        assert("bytes="@ =~= bytes_unit());
    }
    if total == 0 || !starts_with(text.as_slice(), "bytes=") || contains_char(text.as_slice(), ',') {
        return Err(RangeIssue::Malformed);
    }
    let raw = chars_between(text.as_slice(), 6, text.len());
    assert(raw@ =~= value@.skip(6));
    let dash = match find_char(raw.as_slice(), '-') {
        Some(i) => i,
        None => return Err(RangeIssue::Malformed),
    };
    let left = chars_between(raw.as_slice(), 0, dash);
    let right = chars_between(raw.as_slice(), dash + 1, raw.len());
    assert(left@ =~= raw@.take(dash as int));
    assert(right@ =~= raw@.skip(dash + 1));
    if left.len() == 0 {
        let suffix = match parse_u64(right.as_slice()) {
            Some(n) => n,
            None => return Err(RangeIssue::Malformed),
        };
        if suffix == 0 {
            return Err(RangeIssue::Unsatisfiable);
        }
        let length = if suffix < total {
            suffix
        } else {
            total
        };
        return Ok((total - length, total - 1));
    }
    let start = match parse_u64(left.as_slice()) {
        Some(n) => n,
        None => return Err(RangeIssue::Malformed),
    };
    if start >= total {
        return Err(RangeIssue::Unsatisfiable);
    }
    let end = if right.len() == 0 {
        total - 1
    } else {
        match parse_u64(right.as_slice()) {
            Some(last) => if last < total - 1 {
                last
            } else {
                total - 1
            },
            None => return Err(RangeIssue::Malformed),
        }
    };
    if end < start {
        return Err(RangeIssue::Unsatisfiable);
    }
    Ok((start, end))
}

/// The origins the protocol answers.
pub open spec fn spec_allowed_origin(origin: Seq<char>) -> bool {
    ||| origin == "tauri://localhost"@
    ||| origin == "http://tauri.localhost"@
    ||| origin == "https://tauri.localhost"@
    ||| origin == "http://localhost:1420"@
    ||| origin == "https://localhost:1420"@
}

/// Whether a request from `origin` is answered.
pub fn is_allowed_origin(origin: &str) -> (result: bool)
    ensures
        result == spec_allowed_origin(origin@),
{
    str_eq(origin, "tauri://localhost") || str_eq(origin, "http://tauri.localhost") || str_eq(
        origin,
        "https://tauri.localhost",
    ) || str_eq(origin, "http://localhost:1420") || str_eq(origin, "https://localhost:1420")
}

/// The checks on a stored object before it is opened: it is not empty, and
/// a thumbnail is a PNG of at most `MAX_THUMBNAIL_BYTES`.
pub open spec fn spec_object_bounds_ok(kind: ObjectKind, mime_type: Seq<char>, total_size: u64) -> bool {
    &&& total_size != 0
    &&& kind == ObjectKind::Thumbnail ==> (mime_type == "image/png"@ && total_size
        <= MAX_THUMBNAIL_BYTES)
}

/// Refuses an object that cannot be what the request names.
pub fn validate_object_bounds(kind: ObjectKind, mime_type: &str, total_size: u64) -> (result: Result<
    (),
    VaultError,
>)
    ensures
        result is Ok <==> spec_object_bounds_ok(kind, mime_type@, total_size),
        result matches Err(e) ==> e == VaultError::AuthenticationFailed,
{
    if total_size == 0 {
        return Err(VaultError::AuthenticationFailed);
    }
    if kind == ObjectKind::Thumbnail && (!str_eq(mime_type, "image/png") || total_size
        > MAX_THUMBNAIL_BYTES) {
        return Err(VaultError::AuthenticationFailed);
    }
    Ok(())
}

/// The range served when a request names none: the whole object with
/// status 200 where it is small enough, the first window of a large video
/// with status 206, and otherwise `RangeTooLarge`.
pub open spec fn spec_complete_range(kind: ObjectKind, mime_type: Seq<char>, total_size: u64) -> Result<
    (u64, u64, u16),
    VaultError,
> {
    if kind == ObjectKind::Thumbnail {
        if total_size > MAX_THUMBNAIL_BYTES {
            Err(VaultError::RangeTooLarge)
        } else {
            Ok((0, (total_size - 1) as u64, 200))
        }
    } else if total_size <= MAX_COMPLETE_IMAGE_BYTES {
        Ok((0, (total_size - 1) as u64, 200))
    } else if spec_starts_with(mime_type, "video/"@) {
        Ok((0, (MAX_RANGE_BYTES - 1) as u64, 206))
    } else {
        Err(VaultError::RangeTooLarge)
    }
}

/// Chooses the range of a response to a request without a `Range` header.
pub fn complete_response_range(kind: ObjectKind, mime_type: &str, total_size: u64) -> (result:
    Result<(u64, u64, u16), VaultError>)
    requires
        total_size > 0,
    ensures
        result == spec_complete_range(kind, mime_type@, total_size),
{
    if kind == ObjectKind::Thumbnail {
        if total_size > MAX_THUMBNAIL_BYTES {
            return Err(VaultError::RangeTooLarge);
        }
        return Ok((0, total_size - 1, 200));
    }
    if total_size <= MAX_COMPLETE_IMAGE_BYTES {
        return Ok((0, total_size - 1, 200));
    }
    let chars = chars_of(mime_type);
    if starts_with(chars.as_slice(), "video/") {
        let last = if total_size - 1 < MAX_RANGE_BYTES - 1 {
            total_size - 1
        } else {
            MAX_RANGE_BYTES - 1
        };
        return Ok((0, last, 206));
    }
    Err(VaultError::RangeTooLarge)
}

/// The object kind and id text a protocol path names, before the id is read.
pub open spec fn spec_route(path: Seq<char>) -> Option<(ObjectKind, Seq<char>)> {
    if spec_starts_with(path, "/media/"@) {
        Some((ObjectKind::Media, path.skip(7)))
    } else if spec_starts_with(path, "/thumbnail/"@) {
        Some((ObjectKind::Thumbnail, path.skip(11)))
    } else {
        None
    }
}

/// The path holds a character or sequence that no object path may hold.
pub open spec fn spec_path_forbidden(path: Seq<char>) -> bool {
    path.contains('%') || path.contains('\\') || contains_adjacent(path, '.', '.')
}

/// The path names a canonical object: a known route whose id is a UUID in
/// canonical form.
pub open spec fn spec_target_of(path: Seq<char>, target: ObjectTarget) -> bool {
    &&& spec_route(path) matches Some((kind, id))
    &&& kind == target.kind
    &&& uuid_parse(id) == Some(target.media_id@)
    &&& spec_uuid_text(target.media_id@) == id
}

/// What an object request gets before anything is read: refused for a
/// foreign origin, the preflight answer for `OPTIONS`, refused for a method
/// other than `GET` and `HEAD`, or served.
#[derive(Debug, Clone, Copy, PartialEq, Eq, Structural)]
pub enum ObjectRoute {
    Forbidden,
    Preflight,
    MethodNotAllowed,
    Serve,
}

/// Routes an object request by its origin and method.
pub fn route_object_request(method: &str, origin: Option<&str>) -> (result: ObjectRoute)
    ensures
        (origin matches Some(o) && !spec_allowed_origin(o@)) ==> result == ObjectRoute::Forbidden,
        !(origin matches Some(o) && !spec_allowed_origin(o@)) ==> result == (if method@ == "OPTIONS"@ {
            ObjectRoute::Preflight
        } else if method@ == "GET"@ || method@ == "HEAD"@ {
            ObjectRoute::Serve
        } else {
            ObjectRoute::MethodNotAllowed
        }),
{
    if let Some(value) = origin {
        if !is_allowed_origin(value) {
            return ObjectRoute::Forbidden;
        }
    }
    if str_eq(method, "OPTIONS") {
        ObjectRoute::Preflight
    } else if str_eq(method, "GET") || str_eq(method, "HEAD") {
        ObjectRoute::Serve
    } else {
        ObjectRoute::MethodNotAllowed
    }
}

/// Reads the object a protocol request names from its path; `has_query`
/// tells whether the request URL carried a query.
pub fn parse_object_target(path: &str, has_query: bool) -> (result: Result<ObjectTarget, VaultError>)
    ensures
        has_query ==> (result matches Err(VaultError::InvalidInput(d)) && d@
            == "vault URL must not contain a query"@),
        !has_query && spec_path_forbidden(path@) ==> (result matches Err(VaultError::InvalidInput(d))
            && d@ == "invalid vault URL"@),
        !has_query && !spec_path_forbidden(path@) ==> match result {
            Ok(target) => spec_target_of(path@, target),
            Err(e) => e == VaultError::NotFound && forall|t: ObjectTarget| !spec_target_of(path@, t),
        },
{
    if has_query {
        return Err(invalid_input("vault URL must not contain a query"));
    }
    let text = chars_of(path);
    if contains_char(text.as_slice(), '%') || contains_char(text.as_slice(), '\\') || contains_pair(
        text.as_slice(),
        '.',
        '.',
    ) {
        return Err(invalid_input("invalid vault URL"));
    }
    proof {
        reveal_strlit("/media/");
        reveal_strlit("/thumbnail/");
    }
    let (kind, id) = match strip_prefix(text.as_slice(), "/media/") {
        Some(rest) => (ObjectKind::Media, rest),
        None => match strip_prefix(text.as_slice(), "/thumbnail/") {
            Some(rest) => (ObjectKind::Thumbnail, rest),
            None => {
                return Err(VaultError::NotFound);
            },
        },
    };
    assert(spec_route(path@) == Some((kind, id@)));
    if id.len() == 0 || contains_char(id.as_slice(), '/') {
        proof {
            if id@.len() == 0 {
                assert forall|t: ObjectTarget| !spec_target_of(path@, t) by {
                    if spec_target_of(path@, t) {
                        assert(spec_uuid_text(t.media_id@).len() > 0);
                    }
                }
            } else {
                let k = choose|k: int| 0 <= k < id@.len() && id@[k] == '/';
                assert forall|t: ObjectTarget| !spec_target_of(path@, t) by {
                    if spec_target_of(path@, t) {
                        lemma_uuid_text_has_no_slash(t.media_id@, k);
                    }
                }
            }
        }
        return Err(VaultError::NotFound);
    }
    let id_text = crate::text::string_from_chars(id.as_slice());
    match parse_canonical_uuid(id_text.as_str()) {
        Some(media_id) => Ok(ObjectTarget { kind, media_id }),
        None => {
            assert forall|t: ObjectTarget| !spec_target_of(path@, t) by {
                if spec_target_of(path@, t) {
                    assert(t.media_id@.len() == 16);
                }
            }
            Err(VaultError::NotFound)
        },
    }
}

/// No character of a UUID's text is a slash.
proof fn lemma_uuid_text_has_no_slash(id: Seq<u8>, k: int)
    requires
        id.len() == 16,
        0 <= k < spec_uuid_text(id).len(),
    ensures
        spec_uuid_text(id)[k] != '/',
{
    let t = spec_uuid_text(id);
    crate::token::lemma_encoded_is_hex(id.subrange(0, 4));
    crate::token::lemma_encoded_is_hex(id.subrange(4, 6));
    crate::token::lemma_encoded_is_hex(id.subrange(6, 8));
    crate::token::lemma_encoded_is_hex(id.subrange(8, 10));
    crate::token::lemma_encoded_is_hex(id.subrange(10, 16));
}

/// The HTTP status with which the protocol answers an error.
pub open spec fn spec_error_status(error: VaultError) -> u16 {
    match error {
        VaultError::Locked => 423,
        VaultError::NotFound => 404,
        VaultError::InvalidRange => 416,
        VaultError::RangeTooLarge => 413,
        VaultError::InvalidInput(_) => 400,
        VaultError::AuthenticationFailed => 422,
        VaultError::MalformedContainer => 422,
        VaultError::UnsupportedMedia => 422,
        _ => 500,
    }
}

/// The HTTP status of the empty response sent for an error.
pub fn error_status(error: &VaultError) -> (result: u16)
    ensures
        result == spec_error_status(*error),
{
    match error {
        VaultError::Locked => 423,
        VaultError::NotFound => 404,
        VaultError::InvalidRange => 416,
        VaultError::RangeTooLarge => 413,
        VaultError::InvalidInput(_) => 400,
        VaultError::AuthenticationFailed => 422,
        VaultError::MalformedContainer => 422,
        VaultError::UnsupportedMedia => 422,
        _ => 500,
    }
}

/// How a request for an object's bytes is answered.
#[derive(Debug, Clone, Copy, PartialEq, Eq, Structural)]
pub enum ResponsePlan {
    /// Bytes `start..=end` with the given status (200 or 206).
    Serve { start: u64, end: u64, status: u16 },
    /// The `Range` header is malformed: status 400.
    BadRequest,
    /// The range lies outside the object: status 416.
    Unsatisfiable,
}

/// The answer to a request with the given `Range` header, if any, for an
/// object of `total_size` bytes: a range request is served up to
/// `MAX_RANGE_BYTES` from its start.
pub open spec fn spec_response_plan(
    kind: ObjectKind,
    mime_type: Seq<char>,
    total_size: u64,
    range: Option<Seq<char>>,
) -> Result<ResponsePlan, VaultError> {
    match range {
        Some(value) => match spec_parse_range(value, total_size) {
            Err(RangeIssue::Malformed) => Ok(ResponsePlan::BadRequest),
            Err(RangeIssue::Unsatisfiable) => Ok(ResponsePlan::Unsatisfiable),
            Ok((start, end)) => if start + MAX_RANGE_BYTES - 1 > u64::MAX {
                Err(VaultError::InvalidRange)
            } else {
                let cap = (start + MAX_RANGE_BYTES - 1) as u64;
                Ok(
                    ResponsePlan::Serve {
                        start,
                        end: if end < cap {
                            end
                        } else {
                            cap
                        },
                        status: 206,
                    },
                )
            },
        },
        None => match spec_complete_range(kind, mime_type, total_size) {
            Ok((start, end, status)) => Ok(ResponsePlan::Serve { start, end, status }),
            Err(e) => Err(e),
        },
    }
}

/// Decides which bytes of an object a request receives.
pub fn plan_response(kind: ObjectKind, mime_type: &str, total_size: u64, range: Option<&str>) -> (result:
    Result<ResponsePlan, VaultError>)
    requires
        total_size > 0,
    ensures
        result == spec_response_plan(kind, mime_type@, total_size, match range {
            Some(v) => Some(v@),
            None => None,
        }),
        result matches Ok(ResponsePlan::Serve { start, end, status }) ==> start <= end < total_size
            && end - start < MAX_COMPLETE_IMAGE_BYTES,
{
    match range {
        Some(value) => match parse_range(value, total_size) {
            Err(RangeIssue::Malformed) => Ok(ResponsePlan::BadRequest),
            Err(RangeIssue::Unsatisfiable) => Ok(ResponsePlan::Unsatisfiable),
            Ok((start, end)) => {
                if start > u64::MAX - (MAX_RANGE_BYTES - 1) {
                    return Err(VaultError::InvalidRange);
                }
                let cap = start + (MAX_RANGE_BYTES - 1);
                let end = if end < cap {
                    end
                } else {
                    cap
                };
                Ok(ResponsePlan::Serve { start, end, status: 206 })
            },
        },
        None => match complete_response_range(kind, mime_type, total_size) {
            Ok((start, end, status)) => Ok(ResponsePlan::Serve { start, end, status }),
            Err(e) => Err(e),
        },
    }
}

} // verus!
