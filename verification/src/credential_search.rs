//! Finding records: the search text, the project and environment filters,
//! and the page of summaries, newest first, that a listing shows.
use vstd::prelude::*;
use crate::credentials::{CredentialDetail, CredentialField, CredentialScope, CredentialSummary, summary_from_detail};
use crate::ids::{ascii_lowercase, spec_ascii_lowercase};
use crate::ordered::{lemma_lex_transitive, lemma_lex_trichotomy, lex_lt, text_less};
use crate::text::{chars_of, find_str, spec_find, spec_trim, str_eq, string_from_chars, trim};

verus! {

/// A page holds at most this many records.
pub const MAX_PAGE_LIMIT: u32 = 500;

/// What `str::to_lowercase` gives for a text: its Unicode lowercase
/// mapping.
pub uninterp spec fn unicode_lowercase(text: Seq<char>) -> Seq<char>;

/// Lowercases a text with `str::to_lowercase`; the result is named
/// `unicode_lowercase` of the text, and nothing more is claimed of it.
#[verifier::external_body]
fn to_lowercase(text: &str) -> (result: String)
    ensures
        result@ == unicode_lowercase(text@),
{
    text.to_lowercase()
}

/// The number of records a page holds: the request, at least 1 and at
/// most 500.
pub fn clamp_limit(limit: u32) -> (result: usize)
    ensures
        result == (if limit < 1 {
            1
        } else if limit > MAX_PAGE_LIMIT {
            MAX_PAGE_LIMIT
        } else {
            limit
        }),
{
    if limit < 1 {
        1
    } else if limit > MAX_PAGE_LIMIT {
        500
    } else {
        limit as usize
    }
}

/// The search query of a search text: trimmed, then lowercased.
pub open spec fn spec_query(search: Seq<char>) -> Seq<char> {
    unicode_lowercase(spec_trim(search))
}

/// The query a search text asks for.
pub fn search_query(search: &str) -> (result: String)
    ensures
        result@ == spec_query(search@),
{
    let chars = chars_of(search);
    let trimmed = string_from_chars(trim(chars.as_slice()).as_slice());
    to_lowercase(trimmed.as_str())
}

/// A filter as given: trimmed, and absent when blank.
pub open spec fn spec_filter(filter: Option<Seq<char>>) -> Option<Seq<char>> {
    match filter {
        Some(f) => if spec_trim(f).len() > 0 {
            Some(spec_trim(f))
        } else {
            None
        },
        None => None,
    }
}

/// The view of an optional text.
pub open spec fn opt_str(text: Option<&str>) -> Option<Seq<char>> {
    match text {
        Some(t) => Some(t@),
        None => None,
    }
}

/// The view of an optional string.
pub open spec fn opt_string(text: Option<String>) -> Option<Seq<char>> {
    match text {
        Some(t) => Some(t@),
        None => None,
    }
}

/// Trims a filter, dropping it when it is blank.
pub fn normalize_filter(filter: Option<&str>) -> (result: Option<String>)
    ensures
        opt_string(result) == spec_filter(opt_str(filter)),
{
    match filter {
        None => None,
        Some(f) => {
            let chars = chars_of(f);
            let trimmed = trim(chars.as_slice());
            if trimmed.len() > 0 {
                Some(string_from_chars(trimmed.as_slice()))
            } else {
                None
            }
        },
    }
}

/// Whether a text, lowercased, contains the query.
pub open spec fn hit(value: Seq<char>, query: Seq<char>) -> bool {
    spec_find(unicode_lowercase(value), query) is Some
}

/// Whether an optional text, lowercased, contains the query.
pub open spec fn opt_hit(value: Option<String>, query: Seq<char>) -> bool {
    match value {
        Some(v) => hit(v@, query),
        None => false,
    }
}

/// Whether a custom field's name, or its value when it is not hidden,
/// contains the query.
pub open spec fn field_hit(field: CredentialField, query: Seq<char>) -> bool {
    hit(field.name@, query) || (!field.hidden && hit(field.value@, query))
}

/// Whether a record answers the query: an empty query matches every
/// record; otherwise its title, folder, project, environment, username,
/// a website, or a custom field must contain the query, compared
/// lowercased.
pub open spec fn spec_matches_search(d: CredentialDetail, query: Seq<char>) -> bool {
    ||| query.len() == 0
    ||| hit(d.title@, query)
    ||| opt_hit(d.folder, query)
    ||| opt_hit(d.project, query)
    ||| opt_hit(d.environment, query)
    ||| opt_hit(d.username, query)
    ||| exists|i: int| 0 <= i < d.websites@.len() && hit(#[trigger] d.websites@[i]@, query)
    ||| exists|i: int| 0 <= i < d.custom_fields@.len() && field_hit(#[trigger] d.custom_fields@[i], query)
}

/// Whether the lowercased text contains the query.
fn text_hit(value: &str, query: &str) -> (result: bool)
    ensures
        result == hit(value@, query@),
{
    let lower = to_lowercase(value);
    let chars = chars_of(lower.as_str());
    find_str(chars.as_slice(), query).is_some()
}

/// Whether the optional text, lowercased, contains the query.
fn opt_text_hit(value: &Option<String>, query: &str) -> (result: bool)
    ensures
        result == opt_hit(*value, query@),
{
    match value {
        Some(v) => text_hit(v.as_str(), query),
        None => false,
    }
}

/// Whether a record answers the query.
pub fn matches_search(d: &CredentialDetail, query: &str) -> (result: bool)
    ensures
        result == spec_matches_search(*d, query@),
{
    let query_chars = chars_of(query);
    if query_chars.len() == 0 {
        return true;
    }
    if text_hit(d.title.as_str(), query) || opt_text_hit(&d.folder, query) || opt_text_hit(
        &d.project,
        query,
    ) || opt_text_hit(&d.environment, query) || opt_text_hit(&d.username, query) {
        return true;
    }
    let mut i: usize = 0;
    while i < d.websites.len()
        invariant
            i <= d.websites@.len(),
            forall|j: int| 0 <= j < i ==> !hit(#[trigger] d.websites@[j]@, query@),
        decreases d.websites@.len() - i,
    {
        if text_hit(d.websites[i].as_str(), query) {
            return true;
        }
        i = i + 1;
    }
    let mut k: usize = 0;
    while k < d.custom_fields.len()
        invariant
            k <= d.custom_fields@.len(),
            forall|j: int| 0 <= j < k ==> !field_hit(#[trigger] d.custom_fields@[j], query@),
        decreases d.custom_fields@.len() - k,
    {
        let field = &d.custom_fields[k];
        if text_hit(field.name.as_str(), query) || (!field.hidden && text_hit(field.value.as_str(), query)) {
            return true;
        }
        k = k + 1;
    }
    false
}

/// Whether two texts are equal but for ASCII case, as
/// `str::eq_ignore_ascii_case` compares them.
pub open spec fn same_ignoring_case(a: Seq<char>, b: Seq<char>) -> bool {
    spec_ascii_lowercase(a) == spec_ascii_lowercase(b)
}

/// Compares two texts without regard to ASCII case.
pub fn eq_ignoring_case(a: &str, b: &str) -> (result: bool)
    ensures
        result == same_ignoring_case(a@, b@),
{
    let x = ascii_lowercase(a);
    let y = ascii_lowercase(b);
    str_eq(x.as_str(), y.as_str())
}

/// Whether a record passes the project filter: `__central__` keeps the
/// vault-wide records, `__project__` every project's records, and any other
/// name the records of that project, compared without regard to ASCII case.
pub open spec fn spec_matches_project(d: CredentialDetail, filter: Option<Seq<char>>) -> bool {
    match filter {
        None => true,
        Some(f) => if f == "__central__"@ {
            d.scope == CredentialScope::Central
        } else if f == "__project__"@ {
            d.scope == CredentialScope::Project
        } else {
            d.scope == CredentialScope::Project && (d.project matches Some(p) && same_ignoring_case(
                p@,
                f,
            ))
        },
    }
}

/// Whether a record passes the project filter.
pub fn matches_project(d: &CredentialDetail, filter: Option<&str>) -> (result: bool)
    ensures
        result == spec_matches_project(*d, opt_str(filter)),
{
    match filter {
        None => true,
        Some(f) => {
            if str_eq(f, "__central__") {
                d.scope == CredentialScope::Central
            } else if str_eq(f, "__project__") {
                d.scope == CredentialScope::Project
            } else {
                d.scope == CredentialScope::Project && match &d.project {
                    Some(p) => eq_ignoring_case(p.as_str(), f),
                    None => false,
                }
            }
        },
    }
}

/// Whether a record passes the environment filter, compared without
/// regard to ASCII case.
pub open spec fn spec_matches_environment(d: CredentialDetail, filter: Option<Seq<char>>) -> bool {
    match filter {
        None => true,
        Some(f) => d.environment matches Some(e) && same_ignoring_case(e@, f),
    }
}

/// Whether a record passes the environment filter.
pub fn matches_environment(d: &CredentialDetail, filter: Option<&str>) -> (result: bool)
    ensures
        result == spec_matches_environment(*d, opt_str(filter)),
{
    match filter {
        None => true,
        Some(f) => match &d.environment {
            Some(e) => eq_ignoring_case(e.as_str(), f),
            None => false,
        },
    }
}

/// Where a listing page starts: after the record with this key.
pub struct PageCursor {
    pub updated_at: i64,
    pub id: String,
}

/// Whether the record keyed `(t1, id1)` is listed before the one keyed
/// `(t2, id2)`: newer first, and by id, descending, between records changed
/// at the same time.
pub open spec fn comes_before(t1: i64, id1: Seq<char>, t2: i64, id2: Seq<char>) -> bool {
    t2 < t1 || (t1 == t2 && lex_lt(id2, id1))
}

/// Whether summary `a` is listed before summary `b`.
pub open spec fn summary_before(a: CredentialSummary, b: CredentialSummary) -> bool {
    comes_before(a.updated_at, a.id@, b.updated_at, b.id@)
}

/// Summaries listed newest first, each strictly before the next.
pub open spec fn newest_first(items: Seq<CredentialSummary>) -> bool {
    forall|i: int, j: int| 0 <= i < j < items.len() ==> summary_before(#[trigger] items[i], #[trigger] items[j])
}

/// Whether a record comes after the cursor, if there is one.
pub open spec fn after_cursor(d: CredentialDetail, cursor: Option<PageCursor>) -> bool {
    match cursor {
        None => true,
        Some(c) => comes_before(c.updated_at, c.id@, d.updated_at, d.id@),
    }
}

/// Whether a record is listed: it answers the query, passes both filters
/// and comes after the cursor.
pub open spec fn spec_listed(
    d: CredentialDetail,
    query: Seq<char>,
    project: Option<Seq<char>>,
    environment: Option<Seq<char>>,
    cursor: Option<PageCursor>,
) -> bool {
    &&& spec_matches_search(d, query)
    &&& spec_matches_project(d, project)
    &&& spec_matches_environment(d, environment)
    &&& after_cursor(d, cursor)
}

/// Whether `s` is the summary of `d`.
pub open spec fn summarizes(s: CredentialSummary, d: CredentialDetail) -> bool {
    &&& s.id == d.id
    &&& s.record_type == d.record_type
    &&& s.title == d.title
    &&& s.scope == d.scope
    &&& s.project == d.project
    &&& s.environment == d.environment
    &&& s.folder == d.folder
    &&& s.username == d.username
    &&& s.favorite == d.favorite
    &&& s.updated_at == d.updated_at
}

/// Whether some summary has this id.
pub open spec fn holds_id(items: Seq<CredentialSummary>, id: Seq<char>) -> bool {
    exists|k: int| 0 <= k < items.len() && (#[trigger] items[k]).id@ == id
}

/// No two records share an id.
pub open spec fn distinct_ids(details: Seq<CredentialDetail>) -> bool {
    forall|i: int, j: int| 0 <= i < j < details.len() ==> (#[trigger] details[i]).id@ != (#[trigger] details[j]).id@
}

/// Between records with different ids, one is listed before the other.
proof fn lemma_order_total(t1: i64, id1: Seq<char>, t2: i64, id2: Seq<char>)
    requires
        id1 != id2,
    ensures
        comes_before(t1, id1, t2, id2) || comes_before(t2, id2, t1, id1),
        !(comes_before(t1, id1, t2, id2) && comes_before(t2, id2, t1, id1)),
{
    lemma_lex_trichotomy(id1, id2);
}

/// The listing order is transitive.
proof fn lemma_order_transitive(t1: i64, id1: Seq<char>, t2: i64, id2: Seq<char>, t3: i64, id3: Seq<char>)
    requires
        comes_before(t1, id1, t2, id2),
        comes_before(t2, id2, t3, id3),
    ensures
        comes_before(t1, id1, t3, id3),
{
    if t1 == t2 && t2 == t3 {
        lemma_lex_transitive(id3, id2, id1);
    }
}

/// No record is listed before itself.
proof fn lemma_order_irreflexive(t: i64, id: Seq<char>)
    ensures
        !comes_before(t, id, t, id),
{
    lemma_lex_trichotomy(id, id);
}

/// Whether summary `a` is listed before summary `b`.
fn is_before(a: &CredentialSummary, b: &CredentialSummary) -> (result: bool)
    ensures
        result == summary_before(*a, *b),
{
    a.updated_at > b.updated_at || (a.updated_at == b.updated_at && text_less(b.id.as_str(), a.id.as_str()))
}

/// Whether a record is listed.
pub fn listed(
    d: &CredentialDetail,
    query: &str,
    project: Option<&str>,
    environment: Option<&str>,
    cursor: &Option<PageCursor>,
) -> (result: bool)
    ensures
        result == spec_listed(*d, query@, opt_str(project), opt_str(environment), *cursor),
{
    let after = match cursor {
        None => true,
        Some(c) => d.updated_at < c.updated_at || (d.updated_at == c.updated_at && text_less(
            d.id.as_str(),
            c.id.as_str(),
        )),
    };
    after && matches_search(d, query) && matches_project(d, project) && matches_environment(d, environment)
}

/// Puts `s` into a newest-first list where no summary has its id, at the
/// place that keeps the list newest first; returns that place.
fn insert_newest_first(items: &mut Vec<CredentialSummary>, s: CredentialSummary) -> (p: usize)
    requires
        newest_first(old(items)@),
        forall|k: int| 0 <= k < old(items)@.len() ==> (#[trigger] old(items)@[k]).id@ != s.id@,
    ensures
        p <= old(items)@.len(),
        final(items)@ == old(items)@.insert(p as int, s),
        newest_first(final(items)@),
{
    let ghost start = items@;
    let mut p: usize = 0;
    while p < items.len() && !is_before(&s, &items[p])
        invariant
            items@ == start,
            p <= items@.len(),
            newest_first(start),
            forall|k: int| 0 <= k < start.len() ==> (#[trigger] start[k]).id@ != s.id@,
            forall|k: int| 0 <= k < p ==> summary_before(#[trigger] start[k], s),
        decreases items@.len() - p,
    {
        proof {
            lemma_order_total(s.updated_at, s.id@, start[p as int].updated_at, start[p as int].id@);
        }
        p = p + 1;
    }
    proof {
        if p < start.len() {
            assert forall|k: int| p <= k < start.len() implies summary_before(s, #[trigger] start[k]) by {
                if k > p {
                    assert(summary_before(start[p as int], start[k]));
                    lemma_order_transitive(
                        s.updated_at,
                        s.id@,
                        start[p as int].updated_at,
                        start[p as int].id@,
                        start[k].updated_at,
                        start[k].id@,
                    );
                }
            }
        }
    }
    items.insert(p, s);
    proof {
        let next = items@;
        start.insert_ensures(p as int, s);
        assert forall|i: int, j: int| 0 <= i < j < next.len() implies summary_before(
            #[trigger] next[i],
            #[trigger] next[j],
        ) by {
            if j < p {
                assert(next[i] == start[i] && next[j] == start[j]);
            } else if j == p {
                assert(next[i] == start[i]);
            } else if i < p {
                assert(next[i] == start[i] && next[j] == start[j - 1]);
            } else if i == p {
                assert(next[j] == start[j - 1]);
            } else {
                assert(next[i] == start[i - 1] && next[j] == start[j - 1]);
            }
        }
    }
    p
}

/// Whether `items` and `has_more` are the page of `limit` records out of
/// `details`, where `listed_at(i)` tells whether record `i` is listed: the
/// page holds summaries of listed records only, newest first; a listed
/// record left out comes after the page's last record, on a full page; and
/// `has_more` tells whether one was left out.
pub open spec fn is_page(
    details: Seq<CredentialDetail>,
    listed_at: spec_fn(int) -> bool,
    limit: int,
    items: Seq<CredentialSummary>,
    has_more: bool,
) -> bool {
    &&& items.len() <= limit
    &&& newest_first(items)
    &&& forall|k: int|
        0 <= k < items.len() ==> exists|i: int|
            0 <= i < details.len() && listed_at(i) && summarizes(#[trigger] items[k], details[i])
    &&& forall|i: int|
        0 <= i < details.len() && listed_at(i) && !holds_id(items, #[trigger] details[i].id@) ==> {
            &&& items.len() == limit
            &&& comes_before(items.last().updated_at, items.last().id@, details[i].updated_at, details[i].id@)
        }
    &&& has_more <==> exists|i: int|
        0 <= i < details.len() && listed_at(i) && !holds_id(items, #[trigger] details[i].id@)
}

/// The records of a listing page, newest first: the first `limit` listed
/// records, and whether more are listed after them. `details` holds each
/// record once.
pub fn select_page(
    details: Vec<CredentialDetail>,
    query: &str,
    project: Option<&str>,
    environment: Option<&str>,
    cursor: &Option<PageCursor>,
    limit: usize,
) -> (result: (Vec<CredentialSummary>, bool))
    requires
        distinct_ids(details@),
        limit > 0,
    ensures
        is_page(
            details@,
            |i: int| spec_listed(details@[i], query@, opt_str(project), opt_str(environment), *cursor),
            limit as int,
            result.0@,
            result.1,
        ),
{
    let ghost orig = details@;
    let ghost listed_at = |i: int| spec_listed(orig[i], query@, opt_str(project), opt_str(environment), *cursor);
    let ghost mut source: Seq<int> = Seq::empty();
    let mut rest = details;
    let mut sorted: Vec<CredentialSummary> = Vec::new();
    while rest.len() > 0
        invariant
            rest@.len() <= orig.len(),
            rest@ == orig.take(rest@.len() as int),
            distinct_ids(orig),
            listed_at == (|i: int| spec_listed(orig[i], query@, opt_str(project), opt_str(environment), *cursor)),
            newest_first(sorted@),
            source.len() == sorted@.len(),
            forall|k: int|
                0 <= k < sorted@.len() ==> {
                    &&& rest@.len() <= #[trigger] source[k] < orig.len()
                    &&& listed_at(source[k])
                    &&& summarizes(sorted@[k], orig[source[k]])
                },
            forall|i: int|
                rest@.len() <= i < orig.len() && listed_at(i) ==> holds_id(sorted@, #[trigger] orig[i].id@),
        decreases rest@.len(),
    {
        let ghost before = sorted@;
        let ghost before_source = source;
        let d = rest.pop().unwrap();
        let ghost n = rest@.len() as int;
        proof {
            assert(orig.take(n + 1)[n] == orig[n]);
            assert(rest@ =~= orig.take(n));
        }
        if listed(&d, query, project, environment, cursor) {
            let s = summary_from_detail(d);
            proof {
                assert forall|k: int| 0 <= k < before.len() implies (#[trigger] before[k]).id@ != s.id@ by {
                    let i = before_source[k];
                    assert(summarizes(before[k], orig[i]));
                    assert(orig[n].id@ != orig[i].id@);
                }
            }
            let p = insert_newest_first(&mut sorted, s);
            proof {
                before.insert_ensures(p as int, s);
                source = before_source.insert(p as int, n);
                before_source.insert_ensures(p as int, n);
                assert forall|k: int| 0 <= k < sorted@.len() implies {
                    &&& rest@.len() <= #[trigger] source[k] < orig.len()
                    &&& listed_at(source[k])
                    &&& summarizes(sorted@[k], orig[source[k]])
                } by {
                    if k < p {
                        assert(sorted@[k] == before[k] && source[k] == before_source[k]);
                    } else if k == p {
                        assert(sorted@[k] == s && source[k] == n);
                    } else {
                        assert(sorted@[k] == before[k - 1] && source[k] == before_source[k - 1]);
                    }
                }
                assert forall|i: int| n <= i < orig.len() && listed_at(i) implies holds_id(
                    sorted@,
                    #[trigger] orig[i].id@,
                ) by {
                    if i == n {
                        assert(sorted@[p as int].id@ == orig[n].id@);
                    } else {
                        assert(holds_id(before, orig[i].id@));
                        let k = choose|k: int| 0 <= k < before.len() && (#[trigger] before[k]).id@ == orig[i].id@;
                        if k < p {
                            assert(sorted@[k] == before[k]);
                        } else {
                            assert(sorted@[k + 1] == before[k]);
                        }
                    }
                }
            }
        } else {
            proof {
                assert forall|i: int| n <= i < orig.len() && listed_at(i) implies holds_id(
                    sorted@,
                    #[trigger] orig[i].id@,
                ) by {
                    if i == n {
                        assert(!listed_at(n));
                    }
                }
            }
        }
    }
    let has_more = sorted.len() > limit;
    let ghost full = sorted@;
    sorted.truncate(limit);
    proof {
        let items = sorted@;
        assert(items.len() <= limit);
        assert forall|k: int| 0 <= k < items.len() implies exists|i: int|
            0 <= i < orig.len() && listed_at(i) && summarizes(#[trigger] items[k], orig[i]) by {
            assert(items[k] == full[k]);
            let i = source[k];
            assert(0 <= i < orig.len() && listed_at(i) && summarizes(items[k], orig[i]));
        }
        assert forall|i: int|
            0 <= i < orig.len() && listed_at(i) && !holds_id(items, #[trigger] orig[i].id@) implies {
            &&& items.len() == limit
            &&& comes_before(items.last().updated_at, items.last().id@, orig[i].updated_at, orig[i].id@)
        } by {
            assert(holds_id(full, orig[i].id@));
            let k = choose|k: int| 0 <= k < full.len() && (#[trigger] full[k]).id@ == orig[i].id@;
            if k < limit {
                assert(items[k] == full[k]);
                assert(holds_id(items, orig[i].id@));
            }
            assert(full.len() > limit);
            assert(items.len() == limit);
            assert(items.last() == full[limit - 1]);
            if k > limit - 1 {
                assert(summary_before(full[limit - 1], full[k]));
            }
            let j = source[k];
            assert(summarizes(full[k], orig[j]));
            if j != i {
                if i < j {
                    assert(orig[i].id@ != orig[j].id@);
                } else {
                    assert(orig[j].id@ != orig[i].id@);
                }
            }
        }
        if has_more {
            let j = source[limit as int];
            assert(summarizes(full[limit as int], orig[j]));
            assert(listed_at(j));
            assert forall|k: int| 0 <= k < items.len() implies (#[trigger] items[k]).id@ != orig[j].id@ by {
                assert(items[k] == full[k]);
                assert(summary_before(full[k], full[limit as int]));
                lemma_order_irreflexive(full[k].updated_at, full[k].id@);
            }
            assert(!holds_id(items, orig[j].id@));
        } else {
            assert(items =~= full);
        }
    }
    (sorted, has_more)
}

/// The cursor after a page: the key of its last record, when more records
/// follow it.
pub open spec fn spec_next_cursor(items: Seq<CredentialSummary>, has_more: bool) -> Option<(i64, Seq<char>)> {
    if has_more && items.len() > 0 {
        Some((items.last().updated_at, items.last().id@))
    } else {
        None
    }
}

/// The key a cursor holds.
pub open spec fn cursor_key(cursor: Option<PageCursor>) -> Option<(i64, Seq<char>)> {
    match cursor {
        Some(c) => Some((c.updated_at, c.id@)),
        None => None,
    }
}

/// The cursor that continues after a page.
pub fn next_cursor(items: &Vec<CredentialSummary>, has_more: bool) -> (result: Option<PageCursor>)
    ensures
        cursor_key(result) == spec_next_cursor(items@, has_more),
{
    if has_more && items.len() > 0 {
        let last = &items[items.len() - 1];
        Some(PageCursor { updated_at: last.updated_at, id: last.id.clone() })
    } else {
        None
    }
}

/// A page of search results: the summaries, whether more records follow,
/// and the cursor to continue after them when they do.
pub struct SearchPage {
    pub items: Vec<CredentialSummary>,
    pub has_more: bool,
    pub next_cursor: Option<PageCursor>,
}

/// The page a search asks for out of the live records `details`, each of
/// which appears once: the search text is trimmed and lowercased, blank
/// filters are dropped, and the page holds 1 to 500 records.
pub fn search_page(
    details: Vec<CredentialDetail>,
    cursor: Option<PageCursor>,
    limit: u32,
    search: &str,
    project_filter: Option<&str>,
    environment_filter: Option<&str>,
) -> (result: SearchPage)
    requires
        distinct_ids(details@),
    ensures
        is_page(
            details@,
            |i: int|
                spec_listed(
                    details@[i],
                    spec_query(search@),
                    spec_filter(opt_str(project_filter)),
                    spec_filter(opt_str(environment_filter)),
                    cursor,
                ),
            if limit < 1 {
                1
            } else if limit > MAX_PAGE_LIMIT {
                MAX_PAGE_LIMIT as int
            } else {
                limit as int
            },
            result.items@,
            result.has_more,
        ),
        cursor_key(result.next_cursor) == spec_next_cursor(result.items@, result.has_more),
{
    let page_limit = clamp_limit(limit);
    let query = search_query(search);
    let project = normalize_filter(project_filter);
    let environment = normalize_filter(environment_filter);
    let project_ref: Option<&str> = match &project {
        Some(p) => Some(p.as_str()),
        None => None,
    };
    let environment_ref: Option<&str> = match &environment {
        Some(e) => Some(e.as_str()),
        None => None,
    };
    proof {
        assert(opt_str(project_ref) == spec_filter(opt_str(project_filter)));
        assert(opt_str(environment_ref) == spec_filter(opt_str(environment_filter)));
    }
    let ghost orig = details@;
    let (items, has_more) = select_page(details, query.as_str(), project_ref, environment_ref, &cursor, page_limit);
    proof {
        let used = |i: int| spec_listed(orig[i], query@, opt_str(project_ref), opt_str(environment_ref), cursor);
        let asked = |i: int|
            spec_listed(
                orig[i],
                spec_query(search@),
                spec_filter(opt_str(project_filter)),
                spec_filter(opt_str(environment_filter)),
                cursor,
            );
        assert(used =~= asked);
        assert(is_page(orig, asked, page_limit as int, items@, has_more));
    }
    let next = next_cursor(&items, has_more);
    SearchPage { items, has_more, next_cursor: next }
}

/// Paging never goes back: a record listed after the cursor that ends a
/// newest-first page (the key of its last record, `next_cursor`) comes
/// after every record on that page.
pub proof fn lemma_next_page_follows(items: Seq<CredentialSummary>, d: CredentialDetail)
    requires
        newest_first(items),
        items.len() > 0,
        comes_before(items.last().updated_at, items.last().id@, d.updated_at, d.id@),
    ensures
        forall|k: int|
            0 <= k < items.len() ==> comes_before(
                (#[trigger] items[k]).updated_at,
                items[k].id@,
                d.updated_at,
                d.id@,
            ),
{
    let last = items.len() - 1;
    assert forall|k: int| 0 <= k < items.len() implies comes_before(
        (#[trigger] items[k]).updated_at,
        items[k].id@,
        d.updated_at,
        d.id@,
    ) by {
        if k < last {
            assert(summary_before(items[k], items[last]));
            lemma_order_transitive(
                items[k].updated_at,
                items[k].id@,
                items[last].updated_at,
                items[last].id@,
                d.updated_at,
                d.id@,
            );
        }
    }
}

/// The two records agree on everything search reads: title, folder,
/// project, environment, username, websites, and each custom field's name,
/// whether it is hidden, and its value when it is not.
pub open spec fn same_searchable(a: CredentialDetail, b: CredentialDetail) -> bool {
    &&& a.title@ == b.title@
    &&& opt_string(a.folder) == opt_string(b.folder)
    &&& opt_string(a.project) == opt_string(b.project)
    &&& opt_string(a.environment) == opt_string(b.environment)
    &&& opt_string(a.username) == opt_string(b.username)
    &&& a.websites@.len() == b.websites@.len()
    &&& forall|i: int| 0 <= i < a.websites@.len() ==> (#[trigger] a.websites@[i])@ == b.websites@[i]@
    &&& a.custom_fields@.len() == b.custom_fields@.len()
    &&& forall|i: int|
        0 <= i < a.custom_fields@.len() ==> {
            let fa = #[trigger] a.custom_fields@[i];
            let fb = b.custom_fields@[i];
            &&& fa.name@ == fb.name@
            &&& fa.hidden == fb.hidden
            &&& !fa.hidden ==> fa.value@ == fb.value@
        }
}

/// Search never reads a secret: records that differ only in their
/// password, secret value, notes, TOTP secret, password history or the
/// values of hidden custom fields answer every query alike, so no query
/// finds a record by a hidden value.
pub proof fn lemma_search_ignores_secrets(a: CredentialDetail, b: CredentialDetail, query: Seq<char>)
    requires
        same_searchable(a, b),
    ensures
        spec_matches_search(a, query) == spec_matches_search(b, query),
{
    assert(opt_hit(a.folder, query) == opt_hit(b.folder, query));
    assert(opt_hit(a.project, query) == opt_hit(b.project, query));
    assert(opt_hit(a.environment, query) == opt_hit(b.environment, query));
    assert(opt_hit(a.username, query) == opt_hit(b.username, query));
    if exists|i: int| 0 <= i < a.websites@.len() && hit(#[trigger] a.websites@[i]@, query) {
        let i = choose|i: int| 0 <= i < a.websites@.len() && hit(#[trigger] a.websites@[i]@, query);
        assert(hit(b.websites@[i]@, query));
    }
    if exists|i: int| 0 <= i < b.websites@.len() && hit(#[trigger] b.websites@[i]@, query) {
        let i = choose|i: int| 0 <= i < b.websites@.len() && hit(#[trigger] b.websites@[i]@, query);
        assert(a.websites@[i]@ == b.websites@[i]@);
        assert(hit(a.websites@[i]@, query));
    }
    if exists|i: int| 0 <= i < a.custom_fields@.len() && field_hit(#[trigger] a.custom_fields@[i], query) {
        let i = choose|i: int| 0 <= i < a.custom_fields@.len() && field_hit(#[trigger] a.custom_fields@[i], query);
        assert(field_hit(b.custom_fields@[i], query));
    }
    if exists|i: int| 0 <= i < b.custom_fields@.len() && field_hit(#[trigger] b.custom_fields@[i], query) {
        let i = choose|i: int| 0 <= i < b.custom_fields@.len() && field_hit(#[trigger] b.custom_fields@[i], query);
        assert(field_hit(a.custom_fields@[i], query) == field_hit(b.custom_fields@[i], query));
        assert(field_hit(a.custom_fields@[i], query));
    }
}

/// Paging neither repeats nor skips a record: with the cursor a page hands
/// on (the key of its last record, when more follow), the next page's
/// search lists exactly the records this search listed that this page
/// left out.
pub proof fn lemma_pages_neither_repeat_nor_skip(
    details: Seq<CredentialDetail>,
    query: Seq<char>,
    project: Option<Seq<char>>,
    environment: Option<Seq<char>>,
    cursor: Option<PageCursor>,
    limit: int,
    items: Seq<CredentialSummary>,
    has_more: bool,
    next: PageCursor,
)
    requires
        distinct_ids(details),
        is_page(details, |i: int| spec_listed(details[i], query, project, environment, cursor), limit, items, has_more),
        cursor_key(Some(next)) == spec_next_cursor(items, has_more),
    ensures
        forall|i: int|
            0 <= i < details.len() ==> (spec_listed(#[trigger] details[i], query, project, environment, Some(next))
                <==> (spec_listed(details[i], query, project, environment, cursor) && !holds_id(
                items,
                details[i].id@,
            ))),
{
    let listed_at = |i: int| spec_listed(details[i], query, project, environment, cursor);
    let n = items.len() - 1;
    let last = items[n];
    assert(has_more && items.len() > 0);
    assert(next.updated_at == last.updated_at && next.id@ == last.id@);
    let j_last = choose|j: int| 0 <= j < details.len() && listed_at(j) && summarizes(items[n], details[j]);
    assert forall|i: int| 0 <= i < details.len() implies (spec_listed(
        #[trigger] details[i],
        query,
        project,
        environment,
        Some(next),
    ) <==> (spec_listed(details[i], query, project, environment, cursor) && !holds_id(items, details[i].id@))) by {
        let d = details[i];
        if spec_listed(d, query, project, environment, Some(next)) {
            assert(comes_before(last.updated_at, last.id@, d.updated_at, d.id@));
            assert(listed_at(j_last));
            match cursor {
                Some(c) => {
                    assert(after_cursor(details[j_last], cursor));
                    lemma_order_transitive(
                        c.updated_at,
                        c.id@,
                        last.updated_at,
                        last.id@,
                        d.updated_at,
                        d.id@,
                    );
                },
                None => {},
            }
            if holds_id(items, d.id@) {
                let k = choose|k: int| 0 <= k < items.len() && (#[trigger] items[k]).id@ == d.id@;
                let j = choose|j: int| 0 <= j < details.len() && listed_at(j) && summarizes(items[k], details[j]);
                if j != i {
                    assert(details[j].id@ != details[i].id@) by {
                        if j < i {
                            assert(details[j].id@ != details[i].id@);
                        } else {
                            assert(details[i].id@ != details[j].id@);
                        }
                    }
                }
                assert(items[k].updated_at == d.updated_at);
                if k < n {
                    assert(summary_before(items[k], items[n]));
                    lemma_order_transitive(
                        items[k].updated_at,
                        items[k].id@,
                        last.updated_at,
                        last.id@,
                        d.updated_at,
                        d.id@,
                    );
                }
                lemma_order_irreflexive(d.updated_at, d.id@);
                assert(false);
            }
        }
        if listed_at(i) && !holds_id(items, d.id@) {
            assert(comes_before(last.updated_at, last.id@, d.updated_at, d.id@));
        }
    }
}

/// The two records agree on everything a listing reads and shows: what
/// search reads, and every field of their summaries.
pub open spec fn same_listing(a: CredentialDetail, b: CredentialDetail) -> bool {
    &&& same_searchable(a, b)
    &&& a.id == b.id && a.record_type == b.record_type && a.title == b.title && a.scope == b.scope
    &&& a.project == b.project && a.environment == b.environment && a.folder == b.folder
    &&& a.username == b.username && a.favorite == b.favorite && a.updated_at == b.updated_at
}

proof fn lemma_page_carries_over(
    da: Seq<CredentialDetail>,
    db: Seq<CredentialDetail>,
    query: Seq<char>,
    project: Option<Seq<char>>,
    environment: Option<Seq<char>>,
    cursor: Option<PageCursor>,
    limit: int,
    items: Seq<CredentialSummary>,
    has_more: bool,
)
    requires
        da.len() == db.len(),
        forall|i: int| 0 <= i < da.len() ==> same_listing(#[trigger] da[i], db[i]),
        is_page(da, |i: int| spec_listed(da[i], query, project, environment, cursor), limit, items, has_more),
    ensures
        is_page(db, |i: int| spec_listed(db[i], query, project, environment, cursor), limit, items, has_more),
{
    let la = |i: int| spec_listed(da[i], query, project, environment, cursor);
    let lb = |i: int| spec_listed(db[i], query, project, environment, cursor);
    assert forall|i: int| 0 <= i < da.len() implies la(i) == lb(i) && da[i].id@ == db[i].id@ by {
        assert(same_listing(da[i], db[i]));
        lemma_search_ignores_secrets(da[i], db[i], query);
    }
    assert forall|k: int| 0 <= k < items.len() implies exists|i: int|
        0 <= i < db.len() && lb(i) && summarizes(#[trigger] items[k], db[i]) by {
        let i = choose|i: int| 0 <= i < da.len() && la(i) && summarizes(items[k], da[i]);
        assert(same_listing(da[i], db[i]));
        assert(lb(i) && summarizes(items[k], db[i]));
    }
    assert forall|i: int| 0 <= i < db.len() && lb(i) && !holds_id(items, #[trigger] db[i].id@) implies {
        &&& items.len() == limit
        &&& comes_before(items.last().updated_at, items.last().id@, db[i].updated_at, db[i].id@)
    } by {
        assert(la(i) && da[i].id@ == db[i].id@);
        assert(!holds_id(items, da[i].id@));
    }
    if has_more {
        let i = choose|i: int| 0 <= i < da.len() && la(i) && !holds_id(items, #[trigger] da[i].id@);
        assert(lb(i) && da[i].id@ == db[i].id@);
        assert(!holds_id(items, db[i].id@));
    } else {
        assert forall|i: int| 0 <= i < db.len() && lb(i) implies holds_id(items, #[trigger] db[i].id@) by {
            assert(la(i) && da[i].id@ == db[i].id@);
            assert(holds_id(items, da[i].id@));
        }
    }
}

/// A listing never depends on secrets: two record sets that differ only
/// in passwords, secret values, notes, TOTP secrets, password histories
/// or the values of hidden custom fields have the same pages for every
/// search, filter, cursor and limit.
pub proof fn lemma_pages_ignore_secrets(
    da: Seq<CredentialDetail>,
    db: Seq<CredentialDetail>,
    query: Seq<char>,
    project: Option<Seq<char>>,
    environment: Option<Seq<char>>,
    cursor: Option<PageCursor>,
    limit: int,
    items: Seq<CredentialSummary>,
    has_more: bool,
)
    requires
        da.len() == db.len(),
        forall|i: int| 0 <= i < da.len() ==> same_listing(#[trigger] da[i], db[i]),
    ensures
        is_page(da, |i: int| spec_listed(da[i], query, project, environment, cursor), limit, items, has_more)
            <==> is_page(db, |i: int| spec_listed(db[i], query, project, environment, cursor), limit, items, has_more),
{
    assert forall|i: int| 0 <= i < db.len() implies same_listing(#[trigger] db[i], da[i]) by {
        assert(same_listing(da[i], db[i]));
    }
    if is_page(da, |i: int| spec_listed(da[i], query, project, environment, cursor), limit, items, has_more) {
        lemma_page_carries_over(da, db, query, project, environment, cursor, limit, items, has_more);
    }
    if is_page(db, |i: int| spec_listed(db[i], query, project, environment, cursor), limit, items, has_more) {
        lemma_page_carries_over(db, da, query, project, environment, cursor, limit, items, has_more);
    }
}

/// The query occurs in the lowercased text.
pub open spec fn text_contains(value: Seq<char>, query: Seq<char>) -> bool {
    crate::text::contains_seq(unicode_lowercase(value), query)
}

proof fn lemma_hit_is_contains(value: Seq<char>, query: Seq<char>)
    ensures
        hit(value, query) == text_contains(value, query),
{
    crate::text::lemma_find_iff_contains(unicode_lowercase(value), query);
}

/// Search finds a record by any text it shows: an empty query finds every
/// record, and a query found in the lowercased title, folder, project,
/// environment, username, any website, any custom field's name, or a
/// custom field's value when it is not hidden, finds the record.
pub proof fn lemma_search_finds_by_any_field(d: CredentialDetail, query: Seq<char>)
    ensures
        query.len() == 0 ==> spec_matches_search(d, query),
        text_contains(d.title@, query) ==> spec_matches_search(d, query),
        d.folder matches Some(f) ==> (text_contains(f@, query) ==> spec_matches_search(d, query)),
        d.project matches Some(f) ==> (text_contains(f@, query) ==> spec_matches_search(d, query)),
        d.environment matches Some(f) ==> (text_contains(f@, query) ==> spec_matches_search(d, query)),
        d.username matches Some(f) ==> (text_contains(f@, query) ==> spec_matches_search(d, query)),
        forall|i: int|
            0 <= i < d.websites@.len() && text_contains((#[trigger] d.websites@[i])@, query)
                ==> spec_matches_search(d, query),
        forall|i: int|
            0 <= i < d.custom_fields@.len() && (text_contains((#[trigger] d.custom_fields@[i]).name@, query)
                || (!d.custom_fields@[i].hidden && text_contains(d.custom_fields@[i].value@, query)))
                ==> spec_matches_search(d, query),
{
    lemma_hit_is_contains(d.title@, query);
    if let Some(f) = d.folder {
        lemma_hit_is_contains(f@, query);
    }
    if let Some(f) = d.project {
        lemma_hit_is_contains(f@, query);
    }
    if let Some(f) = d.environment {
        lemma_hit_is_contains(f@, query);
    }
    if let Some(f) = d.username {
        lemma_hit_is_contains(f@, query);
    }
    assert forall|i: int|
        0 <= i < d.websites@.len() && text_contains((#[trigger] d.websites@[i])@, query) implies spec_matches_search(
        d,
        query,
    ) by {
        lemma_hit_is_contains(d.websites@[i]@, query);
    }
    assert forall|i: int|
        0 <= i < d.custom_fields@.len() && (text_contains((#[trigger] d.custom_fields@[i]).name@, query) || (
        !d.custom_fields@[i].hidden && text_contains(d.custom_fields@[i].value@, query))) implies spec_matches_search(
        d,
        query,
    ) by {
        lemma_hit_is_contains(d.custom_fields@[i].name@, query);
        lemma_hit_is_contains(d.custom_fields@[i].value@, query);
    }
}

/// Search finds a record only by the texts it shows: a non-empty query
/// found in none of them leaves the record out.
pub proof fn lemma_search_finds_only_by_fields(d: CredentialDetail, query: Seq<char>)
    requires
        query.len() > 0,
        !text_contains(d.title@, query),
        d.folder matches Some(f) ==> !text_contains(f@, query),
        d.project matches Some(f) ==> !text_contains(f@, query),
        d.environment matches Some(f) ==> !text_contains(f@, query),
        d.username matches Some(f) ==> !text_contains(f@, query),
        forall|i: int| 0 <= i < d.websites@.len() ==> !text_contains((#[trigger] d.websites@[i])@, query),
        forall|i: int|
            0 <= i < d.custom_fields@.len() ==> !text_contains((#[trigger] d.custom_fields@[i]).name@, query)
                && (d.custom_fields@[i].hidden || !text_contains(d.custom_fields@[i].value@, query)),
    ensures
        !spec_matches_search(d, query),
{
    lemma_hit_is_contains(d.title@, query);
    if let Some(f) = d.folder {
        lemma_hit_is_contains(f@, query);
    }
    if let Some(f) = d.project {
        lemma_hit_is_contains(f@, query);
    }
    if let Some(f) = d.environment {
        lemma_hit_is_contains(f@, query);
    }
    if let Some(f) = d.username {
        lemma_hit_is_contains(f@, query);
    }
    assert forall|i: int| 0 <= i < d.websites@.len() implies !hit(#[trigger] d.websites@[i]@, query) by {
        lemma_hit_is_contains(d.websites@[i]@, query);
    }
    assert forall|i: int| 0 <= i < d.custom_fields@.len() implies !field_hit(#[trigger] d.custom_fields@[i], query) by {
        lemma_hit_is_contains(d.custom_fields@[i].name@, query);
        lemma_hit_is_contains(d.custom_fields@[i].value@, query);
    }
}

} // verus!
