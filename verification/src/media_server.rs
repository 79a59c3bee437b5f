//! The loopback media stream: capability grants, request routing and the
//! windows in which a video range is decrypted and sent.
use vstd::prelude::*;
use crate::crypto::{sha256, sha256_digest, random_32};
use crate::error::VaultError;
use crate::ids::{parse_canonical_uuid, uuid_parse, spec_uuid_text, uuid_text};
use crate::protocol::spec_parse_range;
use crate::text::{
    chars_of, contains_char, contains_pair, contains_adjacent, str_eq, string_from_chars, u64_text,
    decimal_text, split_char, spec_split, views_of,
};
use vstd::utf8::encode_utf8;
use crate::token::{encode_token, decode_token, spec_encode_token, is_token_text, spec_token_bytes, TOKEN_HEX_BYTES};

verus! {

/// Largest request head, in bytes.
pub const MAX_HEADER_BYTES: usize = 32768;

/// Largest request target, in bytes.
pub const MAX_TARGET_BYTES: usize = 1024;

/// Largest `Range` header value, in bytes.
pub const MAX_RANGE_HEADER_BYTES: usize = 256;

/// Largest `Host` or `Origin` header value, in bytes.
pub const MAX_ORIGIN_BYTES: usize = 2048;

/// Plaintext decrypted and sent at a time.
pub const STREAM_WINDOW_BYTES: u64 = 1048576;

/// Lifetime of a grant after it is issued or last used, in milliseconds.
pub const GRANT_TTL_MS: u64 = 1200000;

/// Connections served at once.
pub const MAX_CONNECTIONS: usize = 8;

/// Attempts at drawing a token that no live grant already uses.
pub const ISSUE_ATTEMPTS: usize = 8;

/// Reads a `Range` header of a streamed video; any refusal is one error.
pub fn parse_range(value: &str, total: u64) -> (result: Result<(u64, u64), ()>)
    ensures
        match spec_parse_range(value@, total) {
            Ok(r) => result == Ok::<(u64, u64), ()>(r),
            Err(_) => result is Err,
        },
{
    match crate::protocol::parse_range(value, total) {
        Ok(r) => Ok(r),
        Err(_) => Err(()),
    }
}

/// The origins the media stream answers; a sandboxed page sends `null`.
pub open spec fn spec_allowed_origin(origin: Seq<char>) -> bool {
    crate::protocol::spec_allowed_origin(origin) || origin == "null"@
}

/// Whether the stream answers a request from `origin`.
pub fn is_allowed_origin(origin: &str) -> (result: bool)
    ensures
        result == spec_allowed_origin(origin@),
{
    crate::protocol::is_allowed_origin(origin) || str_eq(origin, "null")
}

/// Position of the blank line that ends a request head.
pub open spec fn spec_header_end(buffer: Seq<u8>) -> Option<int> {
    if exists|i: int| is_first_crlfcrlf(buffer, i) {
        Some(choose|i: int| is_first_crlfcrlf(buffer, i))
    } else {
        None
    }
}

/// `\r\n\r\n` starts at `i`.
pub open spec fn is_crlfcrlf_at(buffer: Seq<u8>, i: int) -> bool {
    0 <= i && i + 4 <= buffer.len() && buffer[i] == 13 && buffer[i + 1] == 10 && buffer[i + 2] == 13
        && buffer[i + 3] == 10
}

/// `\r\n\r\n` first starts at `i`.
pub open spec fn is_first_crlfcrlf(buffer: Seq<u8>, i: int) -> bool {
    is_crlfcrlf_at(buffer, i) && forall|j: int| 0 <= j < i ==> !#[trigger] is_crlfcrlf_at(buffer, j)
}

/// Finds where the request head ends: the first `\r\n\r\n`.
pub fn find_header_end(buffer: &[u8]) -> (result: Option<usize>)
    ensures
        match result {
            Some(i) => spec_header_end(buffer@) == Some(i as int),
            None => spec_header_end(buffer@) is None && forall|j: int| !is_crlfcrlf_at(buffer@, j),
        },
{
    if buffer.len() < 4 {
        return None;
    }
    let mut i: usize = 0;
    while i <= buffer.len() - 4
        invariant
            buffer@.len() >= 4,
            forall|j: int| 0 <= j < i ==> !#[trigger] is_crlfcrlf_at(buffer@, j),
        decreases buffer@.len() - i,
    {
        if buffer[i] == 13 && buffer[i + 1] == 10 && buffer[i + 2] == 13 && buffer[i + 3] == 10 {
            proof {
                assert(is_first_crlfcrlf(buffer@, i as int));
                let k = choose|k: int| is_first_crlfcrlf(buffer@, k);
                if k < i {
                    assert(!is_crlfcrlf_at(buffer@, k));
                }
                if i < k {
                    assert(!is_crlfcrlf_at(buffer@, i as int));
                }
            }
            return Some(i);
        }
        i = i + 1;
    }
    proof {
        assert forall|j: int| !is_crlfcrlf_at(buffer@, j) by {
            if 0 <= j < i {
            }
        }
    }
    None
}

/// Where reading a request head stands after the bytes read so far.
#[derive(Debug, Clone, Copy, PartialEq, Eq, Structural)]
pub enum HeadProgress {
    /// The head ends at this offset.
    Complete(usize),
    /// More bytes than a head may have were read without its end.
    TooLarge,
    /// The end has not been read yet.
    NeedMore,
}

/// Decides, after a read, whether the request head is complete, too large
/// or still to be read.
pub fn head_progress(buffer: &[u8]) -> (result: HeadProgress)
    ensures
        buffer@.len() > MAX_HEADER_BYTES ==> result == HeadProgress::TooLarge,
        buffer@.len() <= MAX_HEADER_BYTES ==> match spec_header_end(buffer@) {
            Some(i) => result == HeadProgress::Complete(i as usize),
            None => result == HeadProgress::NeedMore,
        },
{
    if buffer.len() > MAX_HEADER_BYTES {
        return HeadProgress::TooLarge;
    }
    match find_header_end(buffer) {
        Some(i) => HeadProgress::Complete(i),
        None => HeadProgress::NeedMore,
    }
}

/// Stores a header value that may appear once and may not be empty or longer
/// than `maximum_bytes`; `Err` leaves `destination` as it was.
pub fn set_once(destination: &mut Option<String>, value: &str, maximum_bytes: usize) -> (result: Result<
    (),
    (),
>)
    ensures
        result is Ok <==> (*old(destination) is None && value@.len() > 0 && value.len()
            <= maximum_bytes),
        result is Ok ==> (*final(destination) matches Some(s) && s@ == value@),
        result is Err ==> *final(destination) == *old(destination),
{
    if destination.is_some() || value.is_empty() || value.len() > maximum_bytes {
        return Err(());
    }
    *destination = Some(String::from_str(value));
    Ok(())
}

/// The token text and media id named by a stream target
/// `/v1/{token}/media/{id}`: no query, escape or parent step, five
/// `/`-separated parts, a 64-byte token and an id in canonical form.
pub open spec fn spec_parse_target(target: Seq<char>) -> Option<(Seq<char>, Seq<u8>)> {
    let parts = spec_split(target, '/');
    if target.contains('?') || target.contains('%') || target.contains('\\') || contains_adjacent(
        target,
        '.',
        '.',
    ) {
        None
    } else if parts.len() != 5 || parts[0].len() != 0 || parts[1] != "v1"@ || parts[3] != "media"@ {
        None
    } else if encode_utf8(parts[2]).len() as usize != TOKEN_HEX_BYTES {
        None
    } else {
        match uuid_parse(parts[4]) {
            Some(id) => if id.len() == 16 && spec_uuid_text(id) == parts[4] {
                Some((parts[2], id))
            } else {
                None
            },
            None => None,
        }
    }
}

/// Reads a stream request target.
pub fn parse_target(target: &str) -> (result: Option<(String, [u8; 16])>)
    ensures
        match result {
            Some((token, id)) => spec_parse_target(target@) == Some((token@, id@)),
            None => spec_parse_target(target@) is None,
        },
{
    let text = chars_of(target);
    if contains_char(text.as_slice(), '?') || contains_char(text.as_slice(), '%') || contains_char(
        text.as_slice(),
        '\\',
    ) || contains_pair(text.as_slice(), '.', '.') {
        return None;
    }
    let parts = split_char(text.as_slice(), '/');
    proof {
        reveal_strlit("v1");
        reveal_strlit("media");
        assert(views_of(parts@).len() == parts@.len());
    }
    if parts.len() != 5 {
        return None;
    }
    proof {
        assert(views_of(parts@)[0] == parts@[0]@);
        assert(views_of(parts@)[1] == parts@[1]@);
        assert(views_of(parts@)[2] == parts@[2]@);
        assert(views_of(parts@)[3] == parts@[3]@);
        assert(views_of(parts@)[4] == parts@[4]@);
    }
    let v1 = string_from_chars(parts[1].as_slice());
    let media = string_from_chars(parts[3].as_slice());
    if parts[0].len() != 0 || !str_eq(v1.as_str(), "v1") || !str_eq(media.as_str(), "media") {
        return None;
    }
    let token = string_from_chars(parts[2].as_slice());
    if token.as_str().len() != TOKEN_HEX_BYTES {
        return None;
    }
    let id_text = string_from_chars(parts[4].as_slice());
    match parse_canonical_uuid(id_text.as_str()) {
        Some(id) => {
            proof {
                let ps = spec_split(target@, '/');
                assert(ps == views_of(parts@));
                assert(ps.len() == 5);
                assert(ps[0].len() == 0);
                assert(ps[1] == "v1"@);
                assert(ps[3] == "media"@);
                assert(ps[2] == token@);
                assert(ps[4] == id_text@);
                assert(uuid_parse(ps[4]) == Some(id@));
            }
            Some((token, id))
        },
        None => None,
    }
}

/// What a grant allows: streaming one media item until a deadline.
#[derive(Debug, Clone, Copy)]
pub struct StreamGrant {
    pub media_id: [u8; 16],
    /// Monotonic milliseconds after which the grant is void.
    pub expires_at: u64,
}

/// A grant under the SHA-256 digest of its token.
#[derive(Debug, Clone, Copy)]
pub struct GrantEntry {
    pub digest: [u8; 32],
    pub grant: StreamGrant,
}

/// No two entries share a digest.
pub open spec fn distinct_digests(entries: Seq<GrantEntry>) -> bool {
    forall|i: int, j: int|
        0 <= i < entries.len() && 0 <= j < entries.len() && i != j ==> (#[trigger] entries[i]).digest@
            != (#[trigger] entries[j]).digest@
}

/// Some entry holds `digest`.
pub open spec fn holds_digest(entries: Seq<GrantEntry>, digest: Seq<u8>) -> bool {
    exists|i: int| 0 <= i < entries.len() && (#[trigger] entries[i]).digest@ == digest
}

/// The grant is still valid at `now`.
pub open spec fn is_live(now: u64) -> spec_fn(GrantEntry) -> bool {
    |e: GrantEntry| e.grant.expires_at > now
}

/// The entry is not under `digest`.
pub open spec fn not_under(digest: Seq<u8>) -> spec_fn(GrantEntry) -> bool {
    |e: GrantEntry| e.digest@ != digest
}

/// The entry is not for `media_id`.
pub open spec fn not_for_media(media_id: Seq<u8>) -> spec_fn(GrantEntry) -> bool {
    |e: GrantEntry| e.grant.media_id@ != media_id
}

/// Whether some grant lets the token with `digest` stream `media_id` at
/// `now`.
pub open spec fn spec_grants(entries: Seq<GrantEntry>, digest: Seq<u8>, media_id: Seq<u8>, now: u64) -> bool {
    exists|i: int|
        0 <= i < entries.len() && (#[trigger] entries[i]).digest@ == digest && entries[i].grant.media_id@
            == media_id && entries[i].grant.expires_at > now
}

/// A token issued at `now` for an item lets that item stream, and nothing
/// else, until its grant's deadline: the grant `issue` appends under the
/// token's digest answers for the item at any time before the deadline,
/// and, digests being distinct, the token grants no other item.
pub proof fn lemma_issued_token_streams(
    entries: Seq<GrantEntry>,
    digest: Seq<u8>,
    media_id: Seq<u8>,
    issued_at: u64,
    at: u64,
)
    requires
        distinct_digests(entries),
        entries.len() > 0,
        entries.last().digest@ == digest,
        entries.last().grant.media_id@ == media_id,
        entries.last().grant.expires_at == saturating_deadline(issued_at),
        at < saturating_deadline(issued_at),
    ensures
        spec_grants(entries, digest, media_id, at),
        forall|other: Seq<u8>| other != media_id ==> !#[trigger] spec_grants(entries, digest, other, at),
{
    let last = entries.len() - 1;
    assert(entries[last] == entries.last());
    assert forall|other: Seq<u8>| other != media_id implies !#[trigger] spec_grants(entries, digest, other, at) by {
        if spec_grants(entries, digest, other, at) {
            let i = choose|i: int|
                0 <= i < entries.len() && (#[trigger] entries[i]).digest@ == digest && entries[i].grant.media_id@
                    == other && entries[i].grant.expires_at > at;
            assert(i != last);
            assert(entries[i].digest@ != entries[last].digest@);
        }
    }
}

/// A revoked token grants nothing: once the entries under its digest are
/// dropped (`revoke`, or a refused `authorize`), no item streams with it.
pub proof fn lemma_revoked_token_grants_nothing(entries: Seq<GrantEntry>, digest: Seq<u8>, media_id: Seq<u8>, at: u64)
    ensures
        !spec_grants(entries.filter(not_under(digest)), digest, media_id, at),
{
    let kept = entries.filter(not_under(digest));
    if spec_grants(kept, digest, media_id, at) {
        let i = choose|i: int|
            0 <= i < kept.len() && (#[trigger] kept[i]).digest@ == digest && kept[i].grant.media_id@ == media_id
                && kept[i].grant.expires_at > at;
        entries.lemma_filter_pred(not_under(digest), i);
    }
}

/// A removed item streams with no token: once the grants for it are
/// dropped (`revoke_media`), no token grants it.
pub proof fn lemma_revoked_media_streams_nowhere(
    entries: Seq<GrantEntry>,
    digest: Seq<u8>,
    media_id: Seq<u8>,
    at: u64,
)
    ensures
        !spec_grants(entries.filter(not_for_media(media_id)), digest, media_id, at),
{
    let kept = entries.filter(not_for_media(media_id));
    if spec_grants(kept, digest, media_id, at) {
        let i = choose|i: int|
            0 <= i < kept.len() && (#[trigger] kept[i]).digest@ == digest && kept[i].grant.media_id@ == media_id
                && kept[i].grant.expires_at > at;
        entries.lemma_filter_pred(not_for_media(media_id), i);
    }
}

/// The live stream grants, keyed by token digest.
pub struct GrantTable {
    entries: Vec<GrantEntry>,
}

impl View for GrantTable {
    type V = Seq<GrantEntry>;

    closed spec fn view(&self) -> Seq<GrantEntry> {
        self.entries@
    }
}

proof fn lemma_filter_step(s: Seq<GrantEntry>, pred: spec_fn(GrantEntry) -> bool, i: int)
    requires
        0 <= i < s.len(),
    ensures
        s.take(i + 1).filter(pred) == (if pred(s[i]) {
            s.take(i).filter(pred).push(s[i])
        } else {
            s.take(i).filter(pred)
        }),
{
    reveal(Seq::filter);
    assert(s.take(i + 1).drop_last() =~= s.take(i));
}

proof fn lemma_filter_keeps_distinct(s: Seq<GrantEntry>, pred: spec_fn(GrantEntry) -> bool)
    requires
        distinct_digests(s),
    ensures
        distinct_digests(s.filter(pred)),
        forall|d: Seq<u8>| holds_digest(s.filter(pred), d) ==> holds_digest(s, d),
    decreases s.len(),
{
    reveal(Seq::filter);
    if s.len() > 0 {
        let init = s.drop_last();
        assert(distinct_digests(init));
        lemma_filter_keeps_distinct(init, pred);
        let f = init.filter(pred);
        if pred(s.last()) {
            assert forall|d: Seq<u8>| holds_digest(f, d) implies holds_digest(s, d) by {
                let k = choose|k: int| 0 <= k < f.len() && (#[trigger] f[k]).digest@ == d;
                assert(holds_digest(init, d));
                let m = choose|m: int| 0 <= m < init.len() && (#[trigger] init[m]).digest@ == d;
                assert(s[m] == init[m]);
            }
            assert(!holds_digest(f, s.last().digest@)) by {
                if holds_digest(f, s.last().digest@) {
                    assert(holds_digest(init, s.last().digest@));
                    let m = choose|m: int|
                        0 <= m < init.len() && (#[trigger] init[m]).digest@ == s.last().digest@;
                    assert(s[m] == init[m]);
                    assert(s[s.len() - 1] == s.last());
                    assert(s[m].digest@ != s[s.len() - 1].digest@);
                }
            }
            let g = f.push(s.last());
            assert forall|i: int, j: int|
                0 <= i < g.len() && 0 <= j < g.len() && i != j implies (#[trigger] g[i]).digest@
                != (#[trigger] g[j]).digest@ by {
                if i == f.len() {
                    assert(f[j] == g[j]);
                } else if j == f.len() {
                    assert(f[i] == g[i]);
                } else {
                    assert(f[i] == g[i] && f[j] == g[j]);
                }
            }
            assert forall|d: Seq<u8>| holds_digest(g, d) implies holds_digest(s, d) by {
                let k = choose|k: int| 0 <= k < g.len() && (#[trigger] g[k]).digest@ == d;
                if k == f.len() {
                    assert(s[s.len() - 1].digest@ == d);
                } else {
                    assert(g[k] == f[k]);
                    assert(holds_digest(f, d));
                }
            }
        } else {
            assert forall|d: Seq<u8>| holds_digest(f, d) implies holds_digest(s, d) by {
                assert(holds_digest(init, d));
                let m = choose|m: int| 0 <= m < init.len() && (#[trigger] init[m]).digest@ == d;
                assert(s[m] == init[m]);
            }
        }
    }
}

impl GrantTable {
    /// The table holds each digest at most once.
    pub open spec fn wf(&self) -> bool {
        distinct_digests(self@)
    }

    /// An empty table.
    pub fn new() -> (result: Self)
        ensures
            result@ == Seq::<GrantEntry>::empty(),
            result.wf(),
    {
        GrantTable { entries: Vec::new() }
    }

    /// Keeps only the entries that pass `keep`, in order.
    fn retain_where(&mut self, pred: Ghost<spec_fn(GrantEntry) -> bool>, keep: impl Fn(&GrantEntry) -> bool)
        requires
            forall|e: GrantEntry| #[trigger] keep.requires((&e,)),
            forall|e: GrantEntry, r: bool| keep.ensures((&e,), r) ==> r == pred@(e),
        ensures
            final(self)@ == old(self)@.filter(pred@),
    {
        let mut kept: Vec<GrantEntry> = Vec::new();
        let mut i: usize = 0;
        while i < self.entries.len()
            invariant
                i <= self.entries@.len(),
                kept@ == self.entries@.take(i as int).filter(pred@),
                forall|e: GrantEntry| #[trigger] keep.requires((&e,)),
                forall|e: GrantEntry, r: bool| keep.ensures((&e,), r) ==> r == pred@(e),
            decreases self.entries@.len() - i,
        {
            let e = self.entries[i];
            proof {
                lemma_filter_step(self.entries@, pred@, i as int);
            }
            if keep(&e) {
                kept.push(e);
            }
            i = i + 1;
        }
        proof {
            assert(self.entries@.take(self.entries@.len() as int) =~= self.entries@);
        }
        self.entries = kept;
    }

    /// Position of the entry under `digest`.
    fn position(&self, digest: &[u8; 32]) -> (result: Option<usize>)
        ensures
            match result {
                Some(i) => i < self@.len() && self@[i as int].digest@ == digest@,
                None => !holds_digest(self@, digest@),
            },
    {
        let mut i: usize = 0;
        while i < self.entries.len()
            invariant
                i <= self.entries@.len(),
                forall|j: int| 0 <= j < i ==> (#[trigger] self.entries@[j]).digest@ != digest@,
            decreases self.entries@.len() - i,
        {
            if crate::bytes::bytes_eq(&self.entries[i].digest, digest) {
                return Some(i);
            }
            i = i + 1;
        }
        None
    }

    /// Drops every grant whose deadline has passed at `now`.
    pub fn purge_expired(&mut self, now: u64)
        requires
            old(self).wf(),
        ensures
            final(self)@ == old(self)@.filter(is_live(now)),
            final(self).wf(),
    {
        self.retain_where(Ghost(is_live(now)), |e: &GrantEntry| -> (r: bool)
            ensures r == is_live(now)(*e)
            { e.grant.expires_at > now });
        proof {
            lemma_filter_keeps_distinct(old(self)@, is_live(now));
        }
    }

    /// Drops the grant under `digest`, if any.
    pub fn remove(&mut self, digest: &[u8; 32])
        requires
            old(self).wf(),
        ensures
            final(self)@ == old(self)@.filter(not_under(digest@)),
            final(self).wf(),
    {
        let d = *digest;
        self.retain_where(Ghost(not_under(digest@)), |e: &GrantEntry| -> (r: bool)
            ensures r == not_under(d@)(*e)
            { !crate::bytes::bytes_eq(&e.digest, &d) });
        proof {
            lemma_filter_keeps_distinct(old(self)@, not_under(digest@));
        }
    }

    /// Drops every grant for `media_id`.
    pub fn revoke_media(&mut self, media_id: &[u8; 16])
        requires
            old(self).wf(),
        ensures
            final(self)@ == old(self)@.filter(not_for_media(media_id@)),
            final(self).wf(),
    {
        let m = *media_id;
        self.retain_where(Ghost(not_for_media(media_id@)), |e: &GrantEntry| -> (r: bool)
            ensures r == not_for_media(m@)(*e)
            { !crate::bytes::bytes_eq(&e.grant.media_id, &m) });
        proof {
            lemma_filter_keeps_distinct(old(self)@, not_for_media(media_id@));
        }
    }

    /// Drops every grant.
    pub fn clear(&mut self)
        ensures
            final(self)@ == Seq::<GrantEntry>::empty(),
            final(self).wf(),
    {
        self.entries = Vec::new();
    }

    /// Checks that the token with `digest` grants `media_id` at `now`. A
    /// grant used for another item, or past its deadline, is dropped; a
    /// grant that allows the request is extended by `GRANT_TTL_MS`.
    pub fn authorize(&mut self, digest: &[u8; 32], media_id: &[u8; 16], now: u64) -> (result: bool)
        requires
            old(self).wf(),
        ensures
            final(self).wf(),
            result == spec_grants(old(self)@, digest@, media_id@, now),
            !holds_digest(old(self)@, digest@) ==> !result && final(self)@ == old(self)@,
            forall|i: int|
                0 <= i < old(self)@.len() && (#[trigger] old(self)@[i]).digest@ == digest@ ==> {
                    let g = old(self)@[i].grant;
                    if g.media_id@ == media_id@ && g.expires_at > now {
                        &&& result
                        &&& final(self)@ == old(self)@.update(
                            i,
                            GrantEntry {
                                digest: old(self)@[i].digest,
                                grant: StreamGrant {
                                    media_id: g.media_id,
                                    expires_at: crate::media_server::saturating_deadline(now),
                                },
                            },
                        )
                    } else {
                        &&& !result
                        &&& final(self)@ == old(self)@.filter(not_under(digest@))
                    }
                },
    {
        match self.position(digest) {
            None => false,
            Some(i) => {
                let entry = self.entries[i];
                if !crate::bytes::bytes_eq(&entry.grant.media_id, media_id) || entry.grant.expires_at
                    <= now {
                    self.remove(digest);
                    proof {
                        assert forall|k: int|
                            0 <= k < old(self)@.len() && (#[trigger] old(self)@[k]).digest@
                                == digest@ implies k == i by {
                            if k != i {
                                assert(old(self)@[k].digest@ != old(self)@[i as int].digest@);
                            }
                        }
                    }
                    return false;
                }
                let refreshed = GrantEntry {
                    digest: entry.digest,
                    grant: StreamGrant {
                        media_id: entry.grant.media_id,
                        expires_at: now.saturating_add(GRANT_TTL_MS),
                    },
                };
                self.entries.set(i, refreshed);
                proof {
                    assert forall|a: int, b: int|
                        0 <= a < self@.len() && 0 <= b < self@.len() && a != b implies (
                        #[trigger] self@[a]).digest@ != (#[trigger] self@[b]).digest@ by {
                        assert(old(self)@[a].digest@ != old(self)@[b].digest@);
                    }
                    assert forall|k: int|
                        0 <= k < old(self)@.len() && (#[trigger] old(self)@[k]).digest@
                            == digest@ implies k == i by {
                        if k != i {
                            assert(old(self)@[k].digest@ != old(self)@[i as int].digest@);
                        }
                    }
                }
                true
            },
        }
    }

    /// Adds a grant under a digest the table does not hold yet.
    fn insert(&mut self, digest: [u8; 32], grant: StreamGrant)
        requires
            old(self).wf(),
            !holds_digest(old(self)@, digest@),
        ensures
            final(self)@ == old(self)@.push(GrantEntry { digest, grant }),
            final(self).wf(),
    {
        self.entries.push(GrantEntry { digest, grant });
        proof {
            let s = self@;
            assert forall|a: int, b: int|
                0 <= a < s.len() && 0 <= b < s.len() && a != b implies (#[trigger] s[a]).digest@
                != (#[trigger] s[b]).digest@ by {
                if a == s.len() - 1 {
                    assert(old(self)@[b] == s[b]);
                } else if b == s.len() - 1 {
                    assert(old(self)@[a] == s[a]);
                } else {
                    assert(old(self)@[a] == s[a] && old(self)@[b] == s[b]);
                }
            }
        }
    }

    /// Issues a grant for `media_id` at `now`: drops expired grants, then
    /// draws random tokens until one has a digest no live grant uses, at
    /// most `ISSUE_ATTEMPTS` times. Gives the raw token of the new grant.
    pub fn issue(&mut self, media_id: [u8; 16], now: u64) -> (result: Option<[u8; 32]>)
        requires
            old(self).wf(),
        ensures
            final(self).wf(),
            match result {
                Some(raw) => {
                    &&& !holds_digest(old(self)@.filter(is_live(now)), sha256(raw@))
                    &&& sha256(raw@).len() == 32
                    &&& final(self)@.len() == old(self)@.filter(is_live(now)).len() + 1
                    &&& final(self)@.drop_last() == old(self)@.filter(is_live(now))
                    &&& final(self)@.last().digest@ == sha256(raw@)
                    &&& final(self)@.last().grant.media_id == media_id
                    &&& final(self)@.last().grant.expires_at == saturating_deadline(now)
                },
                None => final(self)@ == old(self)@.filter(is_live(now)),
            },
    {
        self.purge_expired(now);
        let mut attempt: usize = 0;
        while attempt < ISSUE_ATTEMPTS
            invariant
                self.wf(),
                self@ == old(self)@.filter(is_live(now)),
            decreases ISSUE_ATTEMPTS - attempt,
        {
            let raw = random_32();
            let digest = sha256_digest(&raw);
            if self.position(&digest).is_none() {
                let grant = StreamGrant { media_id, expires_at: now.saturating_add(GRANT_TTL_MS) };
                let ghost before = self@;
                self.insert(digest, grant);
                proof {
                    assert(self@.drop_last() =~= before);
                }
                return Some(raw);
            }
            attempt = attempt + 1;
        }
        None
    }
}

/// The deadline of a grant used at `now`.
pub open spec fn saturating_deadline(now: u64) -> u64 {
    if now + GRANT_TTL_MS > u64::MAX {
        u64::MAX
    } else {
        (now + GRANT_TTL_MS) as u64
    }
}

/// The SHA-256 digest under which a token's grant is kept.
pub fn token_digest(raw: &[u8; 32]) -> (result: [u8; 32])
    ensures
        result@ == sha256(raw@),
{
    sha256_digest(raw)
}

/// The URL of a stream: `http://127.0.0.1:{port}/v1/{token}/media/{id}`.
pub open spec fn spec_stream_url(port: u16, token: Seq<char>, media_id: Seq<u8>) -> Seq<char> {
    "http://127.0.0.1:"@ + decimal_text(port as nat) + "/v1/"@ + token + "/media/"@ + spec_uuid_text(
        media_id,
    )
}

/// The stream server's state: its port and the grants it honours.
pub struct MediaServer {
    pub port: u16,
    pub grants: GrantTable,
}

impl MediaServer {
    /// A server on `port` with no grants.
    pub fn new(port: u16) -> (result: Self)
        ensures
            result.port == port,
            result.grants@ == Seq::<GrantEntry>::empty(),
            result.grants.wf(),
    {
        MediaServer { port, grants: GrantTable::new() }
    }

    /// Issues a capability for streaming `media_id`: its URL and its token.
    pub fn issue(&mut self, media_id: [u8; 16], now: u64) -> (result: Result<(String, String), VaultError>)
        requires
            old(self).grants.wf(),
        ensures
            final(self).grants.wf(),
            final(self).port == old(self).port,
            match result {
                Ok((url, token)) => {
                    &&& is_token_text(token@)
                    &&& url@ == spec_stream_url(old(self).port, token@, media_id@)
                    &&& final(self).grants@.drop_last() == old(self).grants@.filter(is_live(now))
                    &&& final(self).grants@.last() == (GrantEntry {
                        digest: final(self).grants@.last().digest,
                        grant: StreamGrant { media_id, expires_at: saturating_deadline(now) },
                    })
                    &&& final(self).grants@.last().digest@ == sha256(spec_token_bytes(token@))
                    &&& final(self).grants@.len() == old(self).grants@.filter(is_live(now)).len() + 1
                },
                Err(e) => {
                    &&& e matches VaultError::Platform(d) && d@
                        == "unable to allocate an encrypted media stream capability"@
                    &&& final(self).grants@ == old(self).grants@.filter(is_live(now))
                },
            },
    {
        match self.grants.issue(media_id, now) {
            Some(raw) => {
                let token = encode_token(&raw);
                proof {
                    crate::token::lemma_token_round_trip(raw@);
                }
                let mut url = String::from_str("http://127.0.0.1:");
                url = url.concat(u64_text(self.port as u64).as_str());
                url = url.concat("/v1/");
                url = url.concat(token.as_str());
                url = url.concat("/media/");
                url = url.concat(uuid_text(&media_id).as_str());
                proof {
                    reveal_strlit("http://127.0.0.1:");
                    reveal_strlit("/v1/");
                    reveal_strlit("/media/");
                }
                Ok((url, token))
            },
            None => Err(
                VaultError::Platform(
                    String::from_str("unable to allocate an encrypted media stream capability"),
                ),
            ),
        }
    }

    /// Revokes the capability with the given token text; text that is not a
    /// token changes nothing.
    pub fn revoke(&mut self, token: &str)
        requires
            old(self).grants.wf(),
        ensures
            final(self).grants.wf(),
            final(self).port == old(self).port,
            is_token_text(token@) ==> final(self).grants@ == old(self).grants@.filter(
                not_under(sha256(spec_token_bytes(token@))),
            ),
            !is_token_text(token@) ==> final(self).grants@ == old(self).grants@,
    {
        match decode_token(token) {
            Some(raw) => {
                let digest = token_digest(&raw);
                self.grants.remove(&digest);
            },
            None => {},
        }
    }

    /// Revokes every capability for `media_id`.
    pub fn revoke_media(&mut self, media_id: [u8; 16])
        requires
            old(self).grants.wf(),
        ensures
            final(self).grants.wf(),
            final(self).port == old(self).port,
            final(self).grants@ == old(self).grants@.filter(not_for_media(media_id@)),
    {
        self.grants.revoke_media(&media_id);
    }

    /// Revokes every capability.
    pub fn revoke_all(&mut self)
        ensures
            final(self).grants.wf(),
            final(self).port == old(self).port,
            final(self).grants@ == Seq::<GrantEntry>::empty(),
    {
        self.grants.clear();
    }
}

/// Takes a connection slot when fewer than `MAX_CONNECTIONS` are in use:
/// gives the new count of connections in use.
pub fn try_acquire_connection(active: usize) -> (result: Option<usize>)
    ensures
        active < MAX_CONNECTIONS ==> result == Some((active + 1) as usize),
        active >= MAX_CONNECTIONS ==> result is None,
{
    if active >= MAX_CONNECTIONS {
        None
    } else {
        Some(active + 1)
    }
}

/// The windows `(first, last)` in which bytes `start..=end` are decrypted
/// and sent: consecutive, covering the range, each at most
/// `STREAM_WINDOW_BYTES` long.
pub open spec fn windows_tile(windows: Seq<(u64, u64)>, start: u64, end: u64) -> bool {
    &&& windows.len() > 0
    &&& windows[0].0 == start
    &&& windows.last().1 == end
    &&& forall|k: int|
        0 <= k < windows.len() ==> (#[trigger] windows[k]).0 <= windows[k].1 && windows[k].1
            - windows[k].0 < STREAM_WINDOW_BYTES
    &&& forall|k: int| 0 <= k < windows.len() - 1 ==> windows[k + 1].0 == (#[trigger] windows[k]).1 + 1
}

/// Each window of a tiling of `start..=end` ends no later than `end`.
proof fn lemma_window_within(windows: Seq<(u64, u64)>, start: u64, end: u64, k: int)
    requires
        windows_tile(windows, start, end),
        0 <= k < windows.len(),
    ensures
        start <= windows[k].0 <= windows[k].1 <= end,
    decreases windows.len() - k,
{
    if k < windows.len() - 1 {
        lemma_window_within(windows, start, end, k + 1);
        assert(windows[k + 1].0 == windows[k].1 + 1);
    }
    if k > 0 {
        lemma_window_start(windows, start, end, k);
    }
}

proof fn lemma_window_start(windows: Seq<(u64, u64)>, start: u64, end: u64, k: int)
    requires
        windows_tile(windows, start, end),
        0 <= k < windows.len(),
    ensures
        start <= windows[k].0,
    decreases k,
{
    if k > 0 {
        lemma_window_start(windows, start, end, k - 1);
        assert(windows[k].0 == windows[k - 1].1 + 1);
    }
}

proof fn lemma_window_prefix(p: Seq<u8>, start: u64, end: u64, windows: Seq<(u64, u64)>, parts: Seq<Seq<u8>>, n: int)
    requires
        start <= end < p.len(),
        windows_tile(windows, start, end),
        parts.len() == windows.len(),
        forall|k: int|
            0 <= k < windows.len() ==> (#[trigger] parts[k]) == p.subrange(
                windows[k].0 as int,
                windows[k].1 + 1,
            ),
        1 <= n <= windows.len(),
    ensures
        parts.take(n).flatten_alt() == p.subrange(start as int, windows[n - 1].1 + 1),
    decreases n,
{
    lemma_window_within(windows, start, end, n - 1);
    if n == 1 {
        assert(parts.take(1).drop_last() =~= Seq::<Seq<u8>>::empty());
        assert(parts.take(1).drop_last().flatten_alt() =~= Seq::<u8>::empty());
        assert(parts.take(1).flatten_alt() =~= parts[0]);
    } else {
        lemma_window_prefix(p, start, end, windows, parts, n - 1);
        lemma_window_within(windows, start, end, n - 2);
        assert(parts.take(n).drop_last() =~= parts.take(n - 1));
        assert(windows[n - 1].0 == windows[n - 2].1 + 1);
        assert(parts.take(n).flatten_alt() =~= p.subrange(start as int, windows[n - 1].1 + 1));
    }
}

/// A stream sends exactly the bytes asked for: when each window of the
/// tiling that `stream_windows` gives for `start..=end` is read as the
/// plaintext's bytes in that window, the windows sent one after another
/// are the plaintext's bytes `start..=end`.
pub proof fn lemma_streamed_body(p: Seq<u8>, start: u64, end: u64, windows: Seq<(u64, u64)>, parts: Seq<Seq<u8>>)
    requires
        start <= end < p.len(),
        windows_tile(windows, start, end),
        parts.len() == windows.len(),
        forall|k: int|
            0 <= k < windows.len() ==> (#[trigger] parts[k]) == p.subrange(
                windows[k].0 as int,
                windows[k].1 + 1,
            ),
    ensures
        parts.flatten_alt() == p.subrange(start as int, end + 1),
{
    lemma_window_prefix(p, start, end, windows, parts, windows.len() as int);
    assert(parts.take(windows.len() as int) =~= parts);
}

/// Splits bytes `start..=end` into the windows a stream sends them in.
pub fn stream_windows(start: u64, end: u64) -> (result: Vec<(u64, u64)>)
    requires
        start <= end,
    ensures
        windows_tile(result@, start, end),
        forall|k: int|
            0 <= k < result@.len() - 1 ==> (#[trigger] result@[k]).1 - result@[k].0 + 1
                == STREAM_WINDOW_BYTES,
{
    let mut windows: Vec<(u64, u64)> = Vec::new();
    let mut offset = start;
    loop
        invariant
            start <= offset <= end,
            windows@.len() == 0 ==> offset == start,
            windows@.len() > 0 ==> windows@[0].0 == start && windows@.last().1 + 1 == offset,
            forall|k: int|
                0 <= k < windows@.len() ==> (#[trigger] windows@[k]).0 <= windows@[k].1
                    && windows@[k].1 - windows@[k].0 + 1 == STREAM_WINDOW_BYTES,
            forall|k: int|
                0 <= k < windows@.len() - 1 ==> windows@[k + 1].0 == (#[trigger] windows@[k]).1 + 1,
        decreases end - offset,
    {
        let window_end = if end - offset < STREAM_WINDOW_BYTES - 1 {
            end
        } else {
            offset + (STREAM_WINDOW_BYTES - 1)
        };
        let ghost before = windows@;
        windows.push((offset, window_end));
        if window_end == end {
            proof {
                assert forall|k: int| 0 <= k < windows@.len() - 1 implies windows@[k + 1].0 == (
                #[trigger] windows@[k]).1 + 1 by {
                    if k == windows@.len() - 2 {
                        assert(windows@[k] == before.last());
                    } else {
                        assert(windows@[k] == before[k] && windows@[k + 1] == before[k + 1]);
                    }
                }
                assert forall|k: int| 0 <= k < windows@.len() - 1 implies (
                #[trigger] windows@[k]).1 - windows@[k].0 + 1 == STREAM_WINDOW_BYTES by {
                    assert(windows@[k] == before[k]);
                }
            }
            return windows;
        }
        proof {
            assert forall|k: int| 0 <= k < windows@.len() - 1 implies windows@[k + 1].0 == (
            #[trigger] windows@[k]).1 + 1 by {
                if k == windows@.len() - 2 {
                    assert(windows@[k] == before.last());
                } else {
                    assert(windows@[k] == before[k] && windows@[k + 1] == before[k + 1]);
                }
            }
        }
        offset = window_end + 1;
    }
}

/// A stream request that passed routing: whether it is a preflight, the
/// raw token and the media id it names.
pub struct StreamRequest {
    pub is_options: bool,
    pub is_head: bool,
    pub raw_token: [u8; 32],
    pub media_id: [u8; 16],
}

/// The request line and the headers of a stream request that the server
/// reads.
pub struct ParsedRequest {
    pub method: String,
    pub target: String,
    pub host: String,
    pub range: Option<String>,
    pub origin: Option<String>,
}

/// The host a stream request must name.
pub open spec fn spec_expected_host(port: u16) -> Seq<char> {
    "127.0.0.1:"@ + decimal_text(port as nat)
}

/// The status refusing a request, or how it is served: 400 for a foreign
/// host, 405 for another method, 403 for a foreign origin, 404 for a
/// target that is not a stream path with a token.
pub open spec fn spec_route_request(request: ParsedRequest, port: u16) -> Result<
    (bool, bool, Seq<u8>, Seq<u8>),
    u16,
> {
    if request.host@ != spec_expected_host(port) {
        Err(400)
    } else if request.method@ != "GET"@ && request.method@ != "HEAD"@ && request.method@
        != "OPTIONS"@ {
        Err(405)
    } else if request.origin matches Some(o) && !spec_allowed_origin(o@) {
        Err(403)
    } else {
        match spec_parse_target(request.target@) {
            None => Err(404),
            Some((token, id)) => if is_token_text(token) {
                Ok((request.method@ == "OPTIONS"@, request.method@ == "HEAD"@, spec_token_bytes(token), id))
            } else {
                Err(404)
            },
        }
    }
}

/// Routes a stream request before its grant is checked.
pub fn route_request(request: &ParsedRequest, port: u16) -> (result: Result<StreamRequest, u16>)
    ensures
        match result {
            Ok(r) => spec_route_request(*request, port) == Ok::<_, u16>(
                (r.is_options, r.is_head, r.raw_token@, r.media_id@),
            ),
            Err(code) => spec_route_request(*request, port) == Err::<(bool, bool, Seq<u8>, Seq<u8>), u16>(code),
        },
{
    let expected = String::from_str("127.0.0.1:").concat(u64_text(port as u64).as_str());
    proof {
        reveal_strlit("127.0.0.1:");
    }
    if !str_eq(request.host.as_str(), expected.as_str()) {
        return Err(400);
    }
    let is_get = str_eq(request.method.as_str(), "GET");
    let is_head = str_eq(request.method.as_str(), "HEAD");
    let is_options = str_eq(request.method.as_str(), "OPTIONS");
    if !is_get && !is_head && !is_options {
        return Err(405);
    }
    match &request.origin {
        Some(origin) => {
            if !is_allowed_origin(origin.as_str()) {
                return Err(403);
            }
        },
        None => {},
    }
    let (token, media_id) = match parse_target(request.target.as_str()) {
        Some(t) => t,
        None => return Err(404),
    };
    match decode_token(token.as_str()) {
        Some(raw_token) => Ok(StreamRequest { is_options, is_head, raw_token, media_id }),
        None => Err(404),
    }
}

/// A decrypted object may be streamed: it is a non-empty video whose
/// metadata agree with the gallery's record of it.
pub open spec fn spec_stream_metadata_ok(
    object_mime: Seq<char>,
    object_total: u64,
    metadata_mime: Seq<char>,
    metadata_total: u64,
) -> bool {
    &&& metadata_total != 0
    &&& metadata_mime == object_mime
    &&& metadata_total == object_total
    &&& crate::text::spec_starts_with(metadata_mime, "video/"@)
}

/// The step of serving a stream at which an error came.
#[derive(Debug, Clone, Copy, PartialEq, Eq, Structural)]
pub enum StreamStage {
    /// Taking the gallery key from the session.
    DomainKey,
    /// Looking up the gallery object.
    LookupObject,
    /// Opening and authenticating its container.
    OpenContainer,
}

/// The status a stream is refused with when a step fails: a locked vault
/// is 423, a missing object 404, a container that fails authentication or
/// is malformed 422, and anything else 500.
pub fn stream_error_status(stage: StreamStage, error: &VaultError) -> (result: u16)
    ensures
        result == match stage {
            StreamStage::DomainKey => if *error == VaultError::Locked { 423u16 } else { 500u16 },
            StreamStage::LookupObject => if *error == VaultError::NotFound { 404u16 } else { 500u16 },
            StreamStage::OpenContainer => if *error == VaultError::AuthenticationFailed || *error
                == VaultError::MalformedContainer {
                422u16
            } else {
                500u16
            },
        },
{
    match stage {
        StreamStage::DomainKey => match error {
            VaultError::Locked => 423,
            _ => 500,
        },
        StreamStage::LookupObject => match error {
            VaultError::NotFound => 404,
            _ => 500,
        },
        StreamStage::OpenContainer => match error {
            VaultError::AuthenticationFailed | VaultError::MalformedContainer => 422,
            _ => 500,
        },
    }
}

/// Whether an opened container may be streamed for the gallery object.
pub fn stream_metadata_ok(
    object_mime: &str,
    object_total: u64,
    metadata_mime: &str,
    metadata_total: u64,
) -> (result: bool)
    ensures
        result == spec_stream_metadata_ok(object_mime@, object_total, metadata_mime@, metadata_total),
{
    let chars = chars_of(metadata_mime);
    metadata_total != 0 && str_eq(metadata_mime, object_mime) && metadata_total == object_total
        && crate::text::starts_with(chars.as_slice(), "video/")
}

/// The bytes of a stream response and its status: the requested range with
/// 206, the whole video with 200, or `Err` for a range that is refused
/// (status 416).
pub fn stream_range(range: Option<&str>, total: u64) -> (result: Result<(u64, u64, u16), ()>)
    requires
        total > 0,
    ensures
        match range {
            Some(value) => match spec_parse_range(value@, total) {
                Ok((start, end)) => result == Ok::<(u64, u64, u16), ()>((start, end, 206)),
                Err(_) => result is Err,
            },
            None => result == Ok::<(u64, u64, u16), ()>((0, (total - 1) as u64, 200)),
        },
{
    match range {
        Some(value) => match parse_range(value, total) {
            Ok((start, end)) => Ok((start, end, 206)),
            Err(()) => Err(()),
        },
        None => Ok((0, total - 1, 200)),
    }
}

/// The `Content-Range` value of a partial response.
pub open spec fn spec_content_range(start: u64, end: u64, total: u64) -> Seq<char> {
    "bytes "@ + decimal_text(start as nat) + "-"@ + decimal_text(end as nat) + "/"@ + decimal_text(
        total as nat,
    )
}

/// Writes `bytes {start}-{end}/{total}`.
pub fn content_range(start: u64, end: u64, total: u64) -> (result: String)
    ensures
        result@ == spec_content_range(start, end, total),
{
    proof {
        reveal_strlit("bytes ");
        reveal_strlit("-");
        reveal_strlit("/");
    }
    String::from_str("bytes ").concat(u64_text(start).as_str()).concat("-").concat(
        u64_text(end).as_str(),
    ).concat("/").concat(u64_text(total).as_str())
}

/// How an opened object is answered: refused with a status (and, for a
/// refused range, `Content-Range: bytes */total`), or served with a status,
/// the bytes `start..=end`, their count, and the `Content-Range` of a
/// partial response.
pub enum StreamAnswer {
    Refuse { status: u16, content_range: Option<String> },
    Serve { status: u16, start: u64, end: u64, content_length: u64, content_range: Option<String> },
}

/// The `Content-Range` of a refused range.
pub open spec fn spec_unsatisfied_range(total: u64) -> Seq<char> {
    "bytes */"@ + decimal_text(total as nat)
}

/// How a stream of an opened object is answered: 422 when its metadata
/// disagree with the gallery's record or it is not a non-empty video; 416
/// for a refused range; 206 with the range asked for; 200 with the whole
/// video when no range is asked for.
pub fn stream_answer(
    object_mime: &str,
    object_total: u64,
    metadata_mime: &str,
    metadata_total: u64,
    range: Option<&str>,
) -> (result: StreamAnswer)
    ensures
        !spec_stream_metadata_ok(object_mime@, object_total, metadata_mime@, metadata_total) ==> (result matches StreamAnswer::Refuse {
            status,
            content_range,
        } && status == 422 && content_range is None),
        spec_stream_metadata_ok(object_mime@, object_total, metadata_mime@, metadata_total) ==> match range {
            Some(v) => match spec_parse_range(v@, metadata_total) {
                Ok((s, e)) => result matches StreamAnswer::Serve {
                    status,
                    start,
                    end,
                    content_length,
                    content_range,
                } && status == 206 && start == s && end == e && content_length == e - s + 1 && (
                content_range matches Some(c) && c@ == spec_content_range(s, e, metadata_total)),
                Err(_) => result matches StreamAnswer::Refuse { status, content_range } && status == 416 && (
                content_range matches Some(c) && c@ == spec_unsatisfied_range(metadata_total)),
            },
            None => result matches StreamAnswer::Serve {
                status,
                start,
                end,
                content_length,
                content_range,
            } && status == 200 && start == 0 && end == metadata_total - 1 && content_length
                == metadata_total && content_range is None,
        },
{
    if !stream_metadata_ok(object_mime, object_total, metadata_mime, metadata_total) {
        return StreamAnswer::Refuse { status: 422, content_range: None };
    }
    match stream_range(range, metadata_total) {
        Ok((start, end, status)) => {
            proof {
                if range is Some {
                    assert(start <= end);
                }
            }
            let content_range = if status == 206 {
                Some(content_range(start, end, metadata_total))
            } else {
                None
            };
            StreamAnswer::Serve { status, start, end, content_length: end - start + 1, content_range }
        },
        Err(()) => {
            proof {
                reveal_strlit("bytes */");
            }
            let refused = String::from_str("bytes */").concat(u64_text(metadata_total).as_str());
            StreamAnswer::Refuse { status: 416, content_range: Some(refused) }
        },
    }
}

} // verus!
