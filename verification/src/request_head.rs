//! The head of a request to the local media server: its request line and
//! the few header fields the server reads, with every malformed, repeated
//! or oversized field refused.
use vstd::prelude::*;
use vstd::utf8::{valid_utf8, decode_utf8};
use crate::ids::{ascii_lowercase, spec_ascii_lowercase};
use crate::media_server::{
    ParsedRequest, set_once, MAX_ORIGIN_BYTES, MAX_RANGE_HEADER_BYTES, MAX_TARGET_BYTES,
};
use crate::text::{
    byte_len, byte_len_of, chars_between, chars_of, find_char, find_str, first_index_of,
    first_occurs_at, is_first_index, spec_find, spec_trim, str_eq, string_from_chars, trim,
    views_of,
};

verus! {

/// A content length is at most this many bytes of text.
pub const MAX_CONTENT_LENGTH_BYTES: usize = 32;

/// The line break of a request head.
pub open spec fn crlf() -> Seq<char> {
    seq!['\r', '\n']
}

/// The lines of a head, cut at every `\r\n` as `str::split("\r\n")` does.
pub open spec fn spec_head_lines(s: Seq<char>) -> Seq<Seq<char>>
    decreases s.len(),
{
    match spec_find(s, crlf()) {
        Some(i) => if 0 <= i && i + 2 <= s.len() {
            seq![s.take(i)] + spec_head_lines(s.skip(i + 2))
        } else {
            seq![s]
        },
        None => seq![s],
    }
}

/// Cuts a head into its lines.
pub fn head_lines(text: &[char]) -> (result: Vec<Vec<char>>)
    ensures
        views_of(result@) == spec_head_lines(text@),
{
    proof {
        reveal_strlit("\r\n");
        assert("\r\n"@ =~= crlf());
    }
    let mut lines: Vec<Vec<char>> = Vec::new();
    let mut rest: Vec<char> = chars_between(text, 0, text.len());
    assert(rest@ =~= text@);
    loop
        invariant
            "\r\n"@ == crlf(),
            spec_head_lines(text@) == views_of(lines@) + spec_head_lines(rest@),
        decreases rest@.len(),
    {
        match find_str(rest.as_slice(), "\r\n") {
            None => {
                proof {
                    assert(spec_head_lines(rest@) == seq![rest@]);
                }
                let ghost before = lines@;
                lines.push(rest);
                proof {
                    assert(views_of(lines@) =~= views_of(before).push(rest@));
                    assert(views_of(before) + seq![rest@] =~= views_of(before).push(rest@));
                }
                return lines;
            },
            Some(i) => {
                proof {
                    assert(first_occurs_at(rest@, crlf(), i as int));
                }
                let n = rest.len();
                let line = chars_between(rest.as_slice(), 0, i);
                let tail = chars_between(rest.as_slice(), i + 2, n);
                proof {
                    assert(line@ =~= rest@.take(i as int));
                    assert(tail@ =~= rest@.skip(i + 2));
                    assert(spec_head_lines(rest@) == seq![line@] + spec_head_lines(tail@));
                }
                let ghost before = lines@;
                lines.push(line);
                proof {
                    assert(views_of(lines@) =~= views_of(before).push(line@));
                    assert(views_of(before) + (seq![line@] + spec_head_lines(tail@)) =~= views_of(
                        before,
                    ).push(line@) + spec_head_lines(tail@));
                }
                rest = tail;
            },
        }
    }
}

/// ASCII white space, as `u8::is_ascii_whitespace` has it: space, tab,
/// line feed, form feed and carriage return.
pub open spec fn is_ascii_space(c: char) -> bool {
    c == ' ' || c == '\t' || c == '\n' || c == '\x0C' || c == '\r'
}

/// The word under way, if it has begun.
pub open spec fn flush_word(current: Seq<char>) -> Seq<Seq<char>> {
    if current.len() > 0 {
        seq![current]
    } else {
        Seq::empty()
    }
}

/// The words of `s`, the word `current` having begun before it.
pub open spec fn spec_words_from(s: Seq<char>, current: Seq<char>) -> Seq<Seq<char>>
    decreases s.len(),
{
    if s.len() == 0 {
        flush_word(current)
    } else if is_ascii_space(s[0]) {
        flush_word(current) + spec_words_from(s.skip(1), Seq::empty())
    } else {
        spec_words_from(s.skip(1), current.push(s[0]))
    }
}

/// The runs of `s` between ASCII white space, as
/// `str::split_ascii_whitespace` gives them.
pub open spec fn spec_ascii_words(s: Seq<char>) -> Seq<Seq<char>> {
    spec_words_from(s, Seq::empty())
}

/// Cuts a line into its words.
pub fn ascii_words(text: &[char]) -> (result: Vec<Vec<char>>)
    ensures
        views_of(result@) == spec_ascii_words(text@),
{
    let mut words: Vec<Vec<char>> = Vec::new();
    let mut current: Vec<char> = Vec::new();
    let mut i: usize = 0;
    proof {
        assert(text@.skip(0) =~= text@);
        assert(views_of(words@) =~= Seq::<Seq<char>>::empty());
        assert(current@ =~= Seq::<char>::empty());
        assert(views_of(words@) + spec_ascii_words(text@) =~= spec_ascii_words(text@));
    }
    while i < text.len()
        invariant
            i <= text@.len(),
            spec_ascii_words(text@) == views_of(words@) + spec_words_from(text@.skip(i as int), current@),
        decreases text@.len() - i,
    {
        let c = text[i];
        let ghost rest = text@.skip(i as int);
        proof {
            assert(rest[0] == c);
            assert(rest.skip(1) =~= text@.skip(i + 1));
        }
        if c == ' ' || c == '\t' || c == '\n' || c == '\x0C' || c == '\r' {
            let ghost before = words@;
            let ghost word = current@;
            if current.len() > 0 {
                words.push(current);
                proof {
                    assert(views_of(words@) =~= views_of(before) + flush_word(word));
                }
            } else {
                proof {
                    assert(views_of(words@) =~= views_of(before) + flush_word(word));
                }
            }
            current = Vec::new();
            proof {
                assert(views_of(before) + (flush_word(word) + spec_words_from(rest.skip(1), Seq::empty()))
                    =~= views_of(words@) + spec_words_from(text@.skip(i + 1), current@));
            }
        } else {
            current.push(c);
        }
        i = i + 1;
    }
    proof {
        assert(text@.skip(i as int) =~= Seq::<char>::empty());
    }
    let ghost before = words@;
    let ghost word = current@;
    if current.len() > 0 {
        words.push(current);
    }
    proof {
        assert(views_of(words@) =~= views_of(before) + flush_word(word));
    }
    words
}

/// The method and target of a request line: three words, a target of at
/// most 1024 bytes, and version `HTTP/1.1` or `HTTP/1.0`.
pub open spec fn spec_request_line(line: Seq<char>) -> Option<(Seq<char>, Seq<char>)> {
    let words = spec_ascii_words(line);
    if words.len() == 3 && byte_len(words[1]) <= MAX_TARGET_BYTES && (words[2] == "HTTP/1.1"@
        || words[2] == "HTTP/1.0"@) {
        Some((words[0], words[1]))
    } else {
        None
    }
}

/// Reads a request line.
pub fn request_line(line: &[char]) -> (result: Option<(String, String)>)
    ensures
        match spec_request_line(line@) {
            Some((method, target)) => result matches Some(r) && r.0@ == method && r.1@ == target,
            None => result is None,
        },
{
    let words = ascii_words(line);
    if words.len() != 3 {
        return None;
    }
    proof {
        assert(views_of(words@)[0] == words@[0]@);
        assert(views_of(words@)[1] == words@[1]@);
        assert(views_of(words@)[2] == words@[2]@);
    }
    let method = string_from_chars(words[0].as_slice());
    let target = string_from_chars(words[1].as_slice());
    let version = string_from_chars(words[2].as_slice());
    if byte_len_of(target.as_str()) > MAX_TARGET_BYTES {
        return None;
    }
    if !(str_eq(version.as_str(), "HTTP/1.1") || str_eq(version.as_str(), "HTTP/1.0")) {
        return None;
    }
    Some((method, target))
}

/// The header fields the server reads, as far as they have been read.
pub struct HeadFields {
    pub host: Option<Seq<char>>,
    pub range: Option<Seq<char>>,
    pub origin: Option<Seq<char>>,
    pub content_length: Option<Seq<char>>,
    pub transfer_encoding: bool,
}

/// No field read yet.
pub open spec fn no_fields() -> HeadFields {
    HeadFields { host: None, range: None, origin: None, content_length: None, transfer_encoding: false }
}

/// A field that may be given once, with a value that is not empty and at
/// most `maximum` bytes: its new content, or `None` when refused.
pub open spec fn spec_set_field(slot: Option<Seq<char>>, value: Seq<char>, maximum: usize) -> Option<
    Option<Seq<char>>,
> {
    if slot is Some || value.len() == 0 || byte_len(value) > maximum {
        None
    } else {
        Some(Some(value))
    }
}

/// A character a header name may hold: an ASCII letter or digit, or `-`.
pub open spec fn is_name_char(c: char) -> bool {
    ('a' <= c <= 'z') || ('A' <= c <= 'Z') || ('0' <= c <= '9') || c == '-'
}

/// A header name: not empty, of name characters only.
pub open spec fn spec_header_name_ok(name: Seq<char>) -> bool {
    name.len() > 0 && forall|k: int| 0 <= k < name.len() ==> is_name_char(#[trigger] name[k])
}

/// The fields after one header line, or `None` when the line is refused:
/// an empty or folded line, one without `:`, a bad name, or a field the
/// server reads given twice, empty or too long. Names are compared without
/// regard to ASCII case; other fields are passed over.
pub open spec fn spec_apply_header(fields: HeadFields, line: Seq<char>) -> Option<HeadFields> {
    if line.len() == 0 || line[0] == ' ' || line[0] == '\t' {
        None
    } else {
        match first_index_of(line, ':') {
            None => None,
            Some(i) => {
                let name = line.take(i);
                let value = spec_trim(line.skip(i + 1));
                let lower = spec_ascii_lowercase(name);
                if !spec_header_name_ok(name) {
                    None
                } else if lower == "host"@ {
                    match spec_set_field(fields.host, value, MAX_ORIGIN_BYTES) {
                        Some(slot) => Some(
                            HeadFields {
                                host: slot,
                                range: fields.range,
                                origin: fields.origin,
                                content_length: fields.content_length,
                                transfer_encoding: fields.transfer_encoding,
                            },
                        ),
                        None => None,
                    }
                } else if lower == "range"@ {
                    match spec_set_field(fields.range, value, MAX_RANGE_HEADER_BYTES) {
                        Some(slot) => Some(
                            HeadFields {
                                host: fields.host,
                                range: slot,
                                origin: fields.origin,
                                content_length: fields.content_length,
                                transfer_encoding: fields.transfer_encoding,
                            },
                        ),
                        None => None,
                    }
                } else if lower == "origin"@ {
                    match spec_set_field(fields.origin, value, MAX_ORIGIN_BYTES) {
                        Some(slot) => Some(
                            HeadFields {
                                host: fields.host,
                                range: fields.range,
                                origin: slot,
                                content_length: fields.content_length,
                                transfer_encoding: fields.transfer_encoding,
                            },
                        ),
                        None => None,
                    }
                } else if lower == "content-length"@ {
                    match spec_set_field(fields.content_length, value, MAX_CONTENT_LENGTH_BYTES) {
                        Some(slot) => Some(
                            HeadFields {
                                host: fields.host,
                                range: fields.range,
                                origin: fields.origin,
                                content_length: slot,
                                transfer_encoding: fields.transfer_encoding,
                            },
                        ),
                        None => None,
                    }
                } else if lower == "transfer-encoding"@ {
                    Some(
                        HeadFields {
                            host: fields.host,
                            range: fields.range,
                            origin: fields.origin,
                            content_length: fields.content_length,
                            transfer_encoding: true,
                        },
                    )
                } else {
                    Some(fields)
                }
            },
        }
    }
}

/// The fields after the header lines in order, or `None` at the first
/// line refused.
pub open spec fn spec_apply_headers(fields: HeadFields, lines: Seq<Seq<char>>) -> Option<HeadFields>
    decreases lines.len(),
{
    if lines.len() == 0 {
        Some(fields)
    } else {
        match spec_apply_header(fields, lines[0]) {
            None => None,
            Some(next) => spec_apply_headers(next, lines.skip(1)),
        }
    }
}

/// The view of an optional text.
pub open spec fn opt_text(text: Option<String>) -> Option<Seq<char>> {
    match text {
        Some(t) => Some(t@),
        None => None,
    }
}

/// The header fields read so far.
pub struct HeaderValues {
    pub host: Option<String>,
    pub range: Option<String>,
    pub origin: Option<String>,
    pub content_length: Option<String>,
    pub transfer_encoding: bool,
}

impl View for HeaderValues {
    type V = HeadFields;

    open spec fn view(&self) -> HeadFields {
        HeadFields {
            host: opt_text(self.host),
            range: opt_text(self.range),
            origin: opt_text(self.origin),
            content_length: opt_text(self.content_length),
            transfer_encoding: self.transfer_encoding,
        }
    }
}

/// Whether `c` may stand in a header name.
fn is_header_name_char(c: char) -> (result: bool)
    ensures
        result == is_name_char(c),
{
    ('a' <= c && c <= 'z') || ('A' <= c && c <= 'Z') || ('0' <= c && c <= '9') || c == '-'
}

/// Whether `name` is a header name.
fn header_name_ok(name: &[char]) -> (result: bool)
    ensures
        result == spec_header_name_ok(name@),
{
    if name.len() == 0 {
        return false;
    }
    let mut k: usize = 0;
    while k < name.len()
        invariant
            k <= name@.len(),
            forall|j: int| 0 <= j < k ==> is_name_char(#[trigger] name@[j]),
        decreases name@.len() - k,
    {
        if !is_header_name_char(name[k]) {
            return false;
        }
        k = k + 1;
    }
    true
}

/// Reads one header line into `fields`; `false` when the line is refused.
pub fn apply_header(fields: &mut HeaderValues, line: &[char]) -> (ok: bool)
    ensures
        match spec_apply_header(old(fields)@, line@) {
            Some(next) => ok && final(fields)@ == next,
            None => !ok,
        },
{
    if line.len() == 0 || line[0] == ' ' || line[0] == '\t' {
        return false;
    }
    let colon = match find_char(line, ':') {
        None => {
            return false;
        },
        Some(i) => i,
    };
    proof {
        assert(is_first_index(line@, ':', colon as int));
    }
    let name = chars_between(line, 0, colon);
    let raw = chars_between(line, colon + 1, line.len());
    let value_chars = trim(raw.as_slice());
    proof {
        assert(name@ =~= line@.take(colon as int));
        assert(raw@ =~= line@.skip(colon + 1));
    }
    if !header_name_ok(name.as_slice()) {
        return false;
    }
    let name_text = string_from_chars(name.as_slice());
    let lower = ascii_lowercase(name_text.as_str());
    let value = string_from_chars(value_chars.as_slice());
    if str_eq(lower.as_str(), "host") {
        set_once(&mut fields.host, value.as_str(), MAX_ORIGIN_BYTES).is_ok()
    } else if str_eq(lower.as_str(), "range") {
        set_once(&mut fields.range, value.as_str(), MAX_RANGE_HEADER_BYTES).is_ok()
    } else if str_eq(lower.as_str(), "origin") {
        set_once(&mut fields.origin, value.as_str(), MAX_ORIGIN_BYTES).is_ok()
    } else if str_eq(lower.as_str(), "content-length") {
        set_once(&mut fields.content_length, value.as_str(), MAX_CONTENT_LENGTH_BYTES).is_ok()
    } else if str_eq(lower.as_str(), "transfer-encoding") {
        fields.transfer_encoding = true;
        true
    } else {
        true
    }
}

/// What the server reads of a well-formed request head.
pub struct RequestHead {
    pub method: Seq<char>,
    pub target: Seq<char>,
    pub host: Seq<char>,
    pub range: Option<Seq<char>>,
    pub origin: Option<Seq<char>>,
}

/// The request a head asks for, or `None` when it is refused: a bad
/// request line or header line, a body (any transfer encoding, or a
/// content length other than `0`), or no `Host`.
pub open spec fn spec_parse_head(head: Seq<char>) -> Option<RequestHead> {
    let lines = spec_head_lines(head);
    match spec_request_line(lines[0]) {
        None => None,
        Some((method, target)) => match spec_apply_headers(no_fields(), lines.skip(1)) {
            None => None,
            Some(fields) => if fields.transfer_encoding {
                None
            } else if fields.content_length matches Some(v) && v != "0"@ {
                None
            } else {
                match fields.host {
                    None => None,
                    Some(host) => Some(
                        RequestHead { method, target, host, range: fields.range, origin: fields.origin },
                    ),
                }
            },
        },
    }
}

/// Whether `request` carries what `head` asks for.
pub open spec fn carries(request: ParsedRequest, head: RequestHead) -> bool {
    &&& request.method@ == head.method
    &&& request.target@ == head.target
    &&& request.host@ == head.host
    &&& opt_text(request.range) == head.range
    &&& opt_text(request.origin) == head.origin
}

/// Reads a request head given as text.
pub fn parse_request_text(head: &str) -> (result: Option<ParsedRequest>)
    ensures
        match spec_parse_head(head@) {
            Some(h) => result matches Some(r) && carries(r, h),
            None => result is None,
        },
{
    let chars = chars_of(head);
    let lines = head_lines(chars.as_slice());
    proof {
        assert(views_of(lines@).len() >= 1);
        assert(views_of(lines@)[0] == lines@[0]@);
    }
    let (method, target) = match request_line(lines[0].as_slice()) {
        None => {
            return None;
        },
        Some(pair) => pair,
    };
    let mut fields = HeaderValues {
        host: None,
        range: None,
        origin: None,
        content_length: None,
        transfer_encoding: false,
    };
    let ghost all = views_of(lines@);
    proof {
        assert(chars@ == head@);
    }
    let mut i: usize = 1;
    proof {
        assert(fields@ == no_fields());
    }
    while i < lines.len()
        invariant
            1 <= i <= lines@.len(),
            all == views_of(lines@),
            all == spec_head_lines(head@),
            spec_request_line(all[0]) == Some((method@, target@)),
            spec_apply_headers(no_fields(), all.skip(1)) == spec_apply_headers(fields@, all.skip(i as int)),
        decreases lines@.len() - i,
    {
        let ghost before = fields@;
        let ok = apply_header(&mut fields, lines[i].as_slice());
        proof {
            let rest = all.skip(i as int);
            assert(rest[0] == lines@[i as int]@);
            assert(rest.skip(1) =~= all.skip(i + 1));
        }
        if !ok {
            return None;
        }
        i = i + 1;
    }
    proof {
        assert(all.skip(i as int) =~= Seq::<Seq<char>>::empty());
    }
    if fields.transfer_encoding {
        return None;
    }
    let body_declared = match &fields.content_length {
        Some(v) => !str_eq(v.as_str(), "0"),
        None => false,
    };
    if body_declared {
        return None;
    }
    match fields.host {
        None => None,
        Some(host) => Some(ParsedRequest { method, target, host, range: fields.range, origin: fields.origin }),
    }
}

/// The text of `bytes` when they are valid UTF-8 (`std::str::from_utf8`,
/// whose documentation promises `Ok` exactly for valid UTF-8).
#[verifier::external_body]
fn utf8_text(bytes: &[u8]) -> (result: Option<String>)
    ensures
        match result {
            Some(text) => valid_utf8(bytes@) && text@ == decode_utf8(bytes@),
            None => !valid_utf8(bytes@),
        },
{
    match std::str::from_utf8(bytes) {
        Ok(text) => Some(text.to_string()),
        Err(_) => None,
    }
}

/// Reads a request head given as the bytes before its blank line; a head
/// that is not UTF-8 is refused.
pub fn parse_request_head(head: &[u8]) -> (result: Option<ParsedRequest>)
    ensures
        !valid_utf8(head@) ==> result is None,
        valid_utf8(head@) ==> match spec_parse_head(decode_utf8(head@)) {
            Some(h) => result matches Some(r) && carries(r, h),
            None => result is None,
        },
{
    match utf8_text(head) {
        None => None,
        Some(text) => parse_request_text(text.as_str()),
    }
}

} // verus!
