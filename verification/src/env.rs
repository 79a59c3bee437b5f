//! Dotenv files of registered projects: the line grammar, key and
//! environment names, and the value-free `.env.example` the vault writes.
use vstd::prelude::*;
use crate::error::{VaultError, invalid_input};
use crate::text::{
    chars_of, chars_between, string_from_chars, is_unicode_whitespace, is_whitespace, spec_trim,
    spec_trim_end, trim, trim_end, str_eq,
};

verus! {

/// The text an escaped character stands for inside double quotes.
pub open spec fn spec_escape(c: char) -> Seq<char> {
    if c == 'n' {
        seq!['\n']
    } else if c == 'r' {
        seq!['\r']
    } else if c == 't' {
        seq!['\t']
    } else if c == '\\' {
        seq!['\\']
    } else if c == '"' {
        seq!['"']
    } else {
        seq!['\\', c]
    }
}

/// The inside of a double-quoted value with its escapes resolved; a
/// trailing lone backslash stays.
pub open spec fn spec_unescape(s: Seq<char>) -> Seq<char>
    decreases s.len(),
{
    if s.len() == 0 {
        Seq::empty()
    } else if s[0] == '\\' {
        if s.len() == 1 {
            seq!['\\']
        } else {
            spec_escape(s[1]) + spec_unescape(s.skip(2))
        }
    } else {
        seq![s[0]] + spec_unescape(s.skip(1))
    }
}

/// How a character is written inside double quotes: a backslash or a
/// double quote behind a backslash, a newline, carriage return or tab as
/// `\n`, `\r`, `\t`, anything else as itself.
pub open spec fn quoted_char(c: char) -> Seq<char> {
    if c == '\\' {
        seq!['\\', '\\']
    } else if c == '"' {
        seq!['\\', '"']
    } else if c == '\n' {
        seq!['\\', 'n']
    } else if c == '\r' {
        seq!['\\', 'r']
    } else if c == '\t' {
        seq!['\\', 't']
    } else {
        seq![c]
    }
}

/// A text written inside double quotes, character by character.
pub open spec fn quoted_text(x: Seq<char>) -> Seq<char>
    decreases x.len(),
{
    if x.len() == 0 {
        Seq::empty()
    } else {
        quoted_char(x[0]) + quoted_text(x.skip(1))
    }
}

/// Resolving escapes undoes writing a text inside double quotes: every
/// text, with its backslashes, quotes, newlines, carriage returns and tabs
/// escaped, reads back as itself.
pub proof fn lemma_unescape_reads_quoted_text(x: Seq<char>)
    ensures
        spec_unescape(quoted_text(x)) == x,
    decreases x.len(),
{
    if x.len() > 0 {
        let c = x[0];
        let rest = quoted_text(x.skip(1));
        lemma_unescape_reads_quoted_text(x.skip(1));
        let q = quoted_char(c) + rest;
        if quoted_char(c).len() == 2 {
            assert(q[0] == '\\');
            assert(q[1] == quoted_char(c)[1]);
            assert(q.skip(2) =~= rest);
            assert(spec_escape(q[1]) =~= seq![c]);
        } else {
            assert(q[0] == c);
            assert(q.skip(1) =~= rest);
        }
        assert(spec_unescape(q) =~= seq![c] + x.skip(1));
        assert(seq![c] + x.skip(1) =~= x);
    } else {
        assert(quoted_text(x) =~= Seq::<char>::empty());
    }
}

/// A single-quoted dotenv value is kept verbatim: `'` + any text + `'`,
/// with any white space around it, parses to that text, backslashes,
/// quotes and `#` included.
pub proof fn lemma_single_quoted_value(ws1: Seq<char>, x: Seq<char>, ws2: Seq<char>)
    requires
        crate::text::all_whitespace(ws1),
        crate::text::all_whitespace(ws2),
    ensures
        spec_env_value(ws1 + (seq!['\''] + x + seq!['\'']) + ws2) == x,
{
    let v = seq!['\''] + x + seq!['\''];
    crate::text::lemma_trim_ignores_padding(ws1, v, ws2);
    assert(!is_unicode_whitespace(v[0]));
    assert(!is_unicode_whitespace(v.last()));
    assert(crate::text::spec_trim_start(v) == v);
    assert(crate::text::spec_trim_end(v) == v);
    assert(v.subrange(1, v.len() - 1) =~= x);
}

/// Resolving escapes reads a quoted text and then whatever follows it,
/// one after the other.
proof fn lemma_unescape_quoted_then(x: Seq<char>, t: Seq<char>)
    ensures
        spec_unescape(quoted_text(x) + t) == x + spec_unescape(t),
    decreases x.len(),
{
    if x.len() > 0 {
        let c = x[0];
        lemma_unescape_quoted_then(x.skip(1), t);
        let q = quoted_char(c) + (quoted_text(x.skip(1)) + t);
        assert(quoted_text(x) + t =~= q);
        if quoted_char(c).len() == 2 {
            assert(q[0] == '\\');
            assert(q.skip(2) =~= quoted_text(x.skip(1)) + t);
            assert(spec_escape(q[1]) =~= seq![c]);
        } else {
            assert(q[0] == c);
            assert(q.skip(1) =~= quoted_text(x.skip(1)) + t);
        }
        assert(spec_unescape(q) =~= seq![c] + (x.skip(1) + spec_unescape(t)));
        assert(seq![c] + (x.skip(1) + spec_unescape(t)) =~= x + spec_unescape(t));
    } else {
        assert(quoted_text(x) + t =~= t);
        assert(x + spec_unescape(t) =~= spec_unescape(t));
    }
}

/// What escapes do not stand for is kept: a backslash before a character
/// other than `n`, `r`, `t`, a backslash or a double quote stays with it,
/// and a lone backslash at the end stays.
pub proof fn lemma_unescape_keeps_the_rest(c: char, x: Seq<char>)
    requires
        c != 'n' && c != 'r' && c != 't' && c != '\\' && c != '"',
    ensures
        spec_unescape(seq!['\\', c] + quoted_text(x)) == seq!['\\', c] + x,
        spec_unescape(quoted_text(x) + seq!['\\']) == x + seq!['\\'],
{
    lemma_unescape_reads_quoted_text(x);
    assert((seq!['\\', c] + quoted_text(x)).skip(2) =~= quoted_text(x));
    lemma_unescape_quoted_then(x, seq!['\\']);
}

/// A double-quoted dotenv value reads back as the text written in it: the
/// value `"` + the text with its specials escaped + `"`, with any white
/// space around it, parses to the text.
pub proof fn lemma_double_quoted_value(ws1: Seq<char>, x: Seq<char>, ws2: Seq<char>)
    requires
        crate::text::all_whitespace(ws1),
        crate::text::all_whitespace(ws2),
    ensures
        spec_env_value(ws1 + (seq!['"'] + quoted_text(x) + seq!['"']) + ws2) == x,
{
    let v = seq!['"'] + quoted_text(x) + seq!['"'];
    crate::text::lemma_trim_ignores_padding(ws1, v, ws2);
    assert(!is_unicode_whitespace(v[0]));
    assert(!is_unicode_whitespace(v.last()));
    assert(crate::text::spec_trim_start(v) == v);
    assert(crate::text::spec_trim_end(v) == v);
    assert(spec_trim(v) == v);
    assert(v.subrange(1, v.len() - 1) =~= quoted_text(x));
    lemma_unescape_reads_quoted_text(x);
}

/// `i` is where an inline comment starts: a `#` after white space.
pub open spec fn is_comment_start(v: Seq<char>, i: int) -> bool {
    0 < i < v.len() && v[i] == '#' && is_unicode_whitespace(v[i - 1])
}

/// Where the first inline comment starts, if any.
pub open spec fn spec_comment_start(v: Seq<char>) -> Option<int> {
    if exists|i: int| is_comment_start(v, i) && forall|j: int| 0 <= j < i ==> !is_comment_start(v, j) {
        Some(
            choose|i: int|
                is_comment_start(v, i) && forall|j: int| 0 <= j < i ==> !is_comment_start(v, j),
        )
    } else {
        None
    }
}

/// The value an assignment's right-hand side stands for: single quotes
/// kept verbatim, double quotes with escapes resolved, and an unquoted
/// value cut before an inline comment.
pub open spec fn spec_env_value(raw: Seq<char>) -> Seq<char> {
    let v = spec_trim(raw);
    if v.len() >= 2 && v[0] == '\'' && v.last() == '\'' {
        v.subrange(1, v.len() - 1)
    } else if v.len() >= 2 && v[0] == '"' && v.last() == '"' {
        spec_unescape(v.subrange(1, v.len() - 1))
    } else {
        match spec_comment_start(v) {
            Some(i) => spec_trim_end(v.take(i)),
            None => v,
        }
    }
}

/// Resolves the escapes of a double-quoted value's inside.
fn unescape(inner: &[char]) -> (result: Vec<char>)
    ensures
        result@ == spec_unescape(inner@),
{
    let mut output: Vec<char> = Vec::new();
    let mut escaped = false;
    let mut i: usize = 0;
    assert(inner@.skip(0) =~= inner@);
    assert(output@ + spec_unescape(inner@) =~= spec_unescape(inner@));
    while i < inner.len()
        invariant
            i <= inner@.len(),
            escaped ==> i > 0 && inner@[i - 1] == '\\',
            spec_unescape(inner@) == output@ + (if escaped {
                spec_unescape(seq!['\\'] + inner@.skip(i as int))
            } else {
                spec_unescape(inner@.skip(i as int))
            }),
        decreases inner@.len() - i,
    {
        let c = inner[i];
        let ghost rest = inner@.skip(i as int);
        proof {
            assert(rest[0] == c);
            assert(rest.skip(1) =~= inner@.skip(i + 1));
        }
        if escaped {
            let ghost r2 = seq!['\\'] + rest;
            proof {
                assert(r2[0] == '\\');
                assert(r2[1] == c);
                assert(r2.skip(2) =~= inner@.skip(i + 1));
            }
            if c == 'n' {
                output.push('\n');
            } else if c == 'r' {
                output.push('\r');
            } else if c == 't' {
                output.push('\t');
            } else if c == '\\' {
                output.push('\\');
            } else if c == '"' {
                output.push('"');
            } else {
                output.push('\\');
                output.push(c);
            }
            escaped = false;
        } else if c == '\\' {
            escaped = true;
            proof {
                assert(seq!['\\'] + inner@.skip(i + 1) =~= rest);
            }
        } else {
            output.push(c);
        }
        i = i + 1;
    }
    proof {
        assert(inner@.skip(i as int) =~= Seq::<char>::empty());
        if escaped {
            assert(seq!['\\'] + inner@.skip(i as int) =~= seq!['\\']);
        }
    }
    if escaped {
        output.push('\\');
    }
    proof {
        if !escaped {
            assert(output@ + Seq::<char>::empty() =~= output@);
        }
    }
    output
}

/// Finds where an inline comment starts.
fn comment_start(v: &[char]) -> (result: Option<usize>)
    ensures
        match result {
            Some(i) => spec_comment_start(v@) == Some(i as int),
            None => spec_comment_start(v@) is None,
        },
{
    let mut i: usize = 1;
    while i < v.len()
        invariant
            1 <= i,
            forall|j: int| 0 <= j < i ==> !is_comment_start(v@, j),
        decreases v@.len() - i,
    {
        if v[i] == '#' && is_whitespace(v[i - 1]) {
            proof {
                let w = choose|w: int|
                    is_comment_start(v@, w) && forall|j: int| 0 <= j < w ==> !is_comment_start(v@, j);
                assert(is_comment_start(v@, i as int));
                if w < i {
                    assert(!is_comment_start(v@, w));
                }
                if i < w {
                    assert(!is_comment_start(v@, i as int));
                }
            }
            return Some(i);
        }
        i = i + 1;
    }
    proof {
        if exists|w: int|
            is_comment_start(v@, w) && forall|j: int| 0 <= j < w ==> !is_comment_start(v@, j) {
            let w = choose|w: int|
                is_comment_start(v@, w) && forall|j: int| 0 <= j < w ==> !is_comment_start(v@, j);
            assert(!is_comment_start(v@, w));
        }
    }
    None
}

/// Reads the value of a dotenv assignment.
pub fn parse_env_value(raw: &str) -> (result: Result<String, VaultError>)
    ensures
        result matches Ok(value) && value@ == spec_env_value(raw@),
{
    let all = chars_of(raw);
    let v = trim(all.as_slice());
    let n = v.len();
    if n >= 2 && v[0] == '\'' && v[n - 1] == '\'' {
        let inner = chars_between(v.as_slice(), 1, n - 1);
        return Ok(string_from_chars(inner.as_slice()));
    }
    if n >= 2 && v[0] == '"' && v[n - 1] == '"' {
        let inner = chars_between(v.as_slice(), 1, n - 1);
        let output = unescape(inner.as_slice());
        return Ok(string_from_chars(output.as_slice()));
    }
    match comment_start(v.as_slice()) {
        Some(i) => {
            let before = chars_between(v.as_slice(), 0, i);
            assert(before@ =~= v@.take(i as int));
            let kept = trim_end(before.as_slice());
            Ok(string_from_chars(kept.as_slice()))
        },
        None => Ok(string_from_chars(v.as_slice())),
    }
}

/// Longest key, in bytes.
pub const MAX_KEY_BYTES: usize = 256;

/// Longest environment name, in bytes.
pub const MAX_ENVIRONMENT_BYTES: usize = 64;

/// Longest project name, in bytes.
pub const MAX_NAME_BYTES: usize = 256;

/// Most environments a project may have.
pub const MAX_ENVIRONMENTS: usize = 32;

/// Most keys a project may have.
pub const MAX_KEYS: usize = 2048;

/// A key is `_` or a letter, then `_`, letters and digits.
pub open spec fn spec_key_chars_ok(key: Seq<char>) -> bool {
    &&& key.len() > 0
    &&& (key[0] == '_' || crate::text::is_ascii_alpha(key[0]))
    &&& forall|i: int| 1 <= i < key.len() ==> (#[trigger] key[i] == '_' || crate::text::is_ascii_alnum(key[i]))
}

/// Why a key is refused, if it is.
pub open spec fn spec_key_error(key: Seq<char>) -> Option<Seq<char>> {
    if key.len() == 0 || crate::text::byte_len(key) > MAX_KEY_BYTES {
        Some("invalid environment key"@)
    } else if !spec_key_chars_ok(key) {
        Some("invalid environment key: "@ + key)
    } else {
        None
    }
}

/// The error is `InvalidInput` with exactly this detail.
pub open spec fn invalid_with(error: VaultError, detail: Seq<char>) -> bool {
    error matches VaultError::InvalidInput(d) && d@ == detail
}

/// Checks an environment key.
pub fn validate_env_key(key: &str) -> (result: Result<(), VaultError>)
    ensures
        match spec_key_error(key@) {
            None => result is Ok,
            Some(detail) => result matches Err(e) && invalid_with(e, detail),
        },
{
    let chars = chars_of(key);
    if chars.len() == 0 || crate::text::byte_len_of(key) > MAX_KEY_BYTES {
        return Err(invalid_input("invalid environment key"));
    }
    let first = chars[0];
    let mut ok = first == '_' || crate::text::ascii_alpha(first);
    let mut i: usize = 1;
    while ok && i < chars.len()
        invariant
            chars@ == key@,
            1 <= i <= chars@.len(),
            ok == ((chars@[0] == '_' || crate::text::is_ascii_alpha(chars@[0])) && forall|j: int|
                1 <= j < i ==> (#[trigger] chars@[j] == '_' || crate::text::is_ascii_alnum(chars@[j]))),
        decreases chars@.len() - i,
    {
        let c = chars[i];
        if !(c == '_' || crate::text::ascii_alnum(c)) {
            ok = false;
        }
        i = i + 1;
    }
    if !ok {
        proof {
            reveal_strlit("invalid environment key: ");
        }
        let detail = String::from_str("invalid environment key: ").concat(key);
        return Err(VaultError::InvalidInput(detail));
    }
    Ok(())
}

/// An environment name: 1 to 64 bytes of letters, digits, `_`, `-`, `.`.
pub open spec fn spec_environment_name_ok(name: Seq<char>) -> bool {
    &&& name.len() > 0
    &&& crate::text::byte_len(name) <= MAX_ENVIRONMENT_BYTES
    &&& forall|i: int|
        0 <= i < name.len() ==> (crate::text::is_ascii_alnum(#[trigger] name[i]) || name[i] == '_'
            || name[i] == '-' || name[i] == '.')
}

/// Checks an environment name.
pub fn validate_environment_name(environment: &str) -> (result: Result<(), VaultError>)
    ensures
        result is Ok <==> spec_environment_name_ok(environment@),
        result matches Err(e) ==> invalid_with(e, "invalid project environment name"@),
{
    let chars = chars_of(environment);
    if chars.len() == 0 || crate::text::byte_len_of(environment) > MAX_ENVIRONMENT_BYTES {
        return Err(invalid_input("invalid project environment name"));
    }
    let mut i: usize = 0;
    while i < chars.len()
        invariant
            chars@ == environment@,
            i <= chars@.len(),
            forall|j: int|
                0 <= j < i ==> (crate::text::is_ascii_alnum(#[trigger] chars@[j]) || chars@[j] == '_'
                    || chars@[j] == '-' || chars@[j] == '.'),
        decreases chars@.len() - i,
    {
        let c = chars[i];
        if !(crate::text::ascii_alnum(c) || c == '_' || c == '-' || c == '.') {
            return Err(invalid_input("invalid project environment name"));
        }
        i = i + 1;
    }
    Ok(())
}

/// Unicode control characters (general category `Cc`), the class
/// `char::is_control` tests.
pub open spec fn is_control_char(c: char) -> bool {
    (c as u32) <= 0x1F || (0x7F <= (c as u32) && (c as u32) <= 0x9F)
}

/// The trimmed project name, if it is 1 to 256 bytes without control
/// characters.
pub open spec fn spec_project_name(name: Seq<char>) -> Option<Seq<char>> {
    let t = spec_trim(name);
    if t.len() == 0 || crate::text::byte_len(t) > MAX_NAME_BYTES || exists|i: int|
        0 <= i < t.len() && is_control_char(#[trigger] t[i]) {
        None
    } else {
        Some(t)
    }
}

/// Checks a project name and gives it trimmed.
pub fn validate_project_name(name: &str) -> (result: Result<String, VaultError>)
    ensures
        match spec_project_name(name@) {
            Some(t) => result matches Ok(s) && s@ == t,
            None => result matches Err(e) && invalid_with(e, "invalid project name"@),
        },
{
    let chars = chars_of(name);
    let t = trim(chars.as_slice());
    let trimmed = string_from_chars(t.as_slice());
    if t.len() == 0 || crate::text::byte_len_of(trimmed.as_str()) > MAX_NAME_BYTES {
        return Err(invalid_input("invalid project name"));
    }
    let mut i: usize = 0;
    while i < t.len()
        invariant
            i <= t@.len(),
            t@ == spec_trim(name@),
            forall|j: int| 0 <= j < i ==> !is_control_char(#[trigger] t@[j]),
        decreases t@.len() - i,
    {
        let n = t[i] as u32;
        if n <= 0x1F || (0x7F <= n && n <= 0x9F) {
            proof {
                assert(is_control_char(t@[i as int]));
            }
            return Err(invalid_input("invalid project name"));
        }
        i = i + 1;
    }
    Ok(trimmed)
}

/// A plaintext dotenv file name: `.env` or `.env.*`, but not the
/// value-free `.env.example`.
pub open spec fn spec_is_plaintext_env_name(name: Seq<char>) -> bool {
    (name == ".env"@ || crate::text::spec_starts_with(name, ".env."@)) && name != ".env.example"@
}

/// Whether a file name is one of a project's plaintext dotenv files.
pub fn is_plaintext_env_name(name: &str) -> (result: bool)
    ensures
        result == spec_is_plaintext_env_name(name@),
{
    let chars = chars_of(name);
    (str_eq(name, ".env") || crate::text::starts_with(chars.as_slice(), ".env.")) && !str_eq(
        name,
        ".env.example",
    )
}

/// A registered project as the vault keeps it.
#[derive(Debug)]
pub struct ProjectRegistration {
    pub id: String,
    pub name: String,
    pub root: String,
    pub environments: Vec<String>,
    pub required_keys: Vec<String>,
    pub created_at: i64,
    pub updated_at: i64,
}

/// The views of a list of texts.
pub open spec fn texts(v: Seq<String>) -> Seq<Seq<char>> {
    v.map_values(|s: String| s@)
}

/// Whether the list holds the text.
pub fn contains_text(list: &Vec<String>, item: &str) -> (result: bool)
    ensures
        result == texts(list@).contains(item@),
{
    let mut i: usize = 0;
    while i < list.len()
        invariant
            i <= list@.len(),
            forall|j: int| 0 <= j < i ==> list@[j]@ != item@,
        decreases list@.len() - i,
    {
        if str_eq(list[i].as_str(), item) {
            proof {
                assert(texts(list@)[i as int] == item@);
            }
            return true;
        }
        i = i + 1;
    }
    proof {
        if texts(list@).contains(item@) {
            let k = choose|k: int| 0 <= k < texts(list@).len() && texts(list@)[k] == item@;
            assert(list@[k]@ == item@);
        }
    }
    false
}

/// Checks that `environment` is a valid name registered for the project.
pub fn validate_registered_environment(registration: &ProjectRegistration, environment: &str) -> (result:
    Result<(), VaultError>)
    ensures
        result is Ok <==> (spec_environment_name_ok(environment@) && texts(
            registration.environments@,
        ).contains(environment@)),
        !spec_environment_name_ok(environment@) ==> (result matches Err(e) && invalid_with(
            e,
            "invalid project environment name"@,
        )),
        spec_environment_name_ok(environment@) && !texts(registration.environments@).contains(
            environment@,
        ) ==> (result matches Err(e) && invalid_with(
            e,
            "environment is not registered for this project"@,
        )),
{
    validate_environment_name(environment)?;
    if !contains_text(&registration.environments, environment) {
        return Err(invalid_input("environment is not registered for this project"));
    }
    Ok(())
}

/// `candidate` names the environment a file suffix belongs to: the suffix
/// is the name, or the name followed by a dot and more.
pub open spec fn suffix_matches(suffix: Seq<char>, candidate: Seq<char>) -> bool {
    suffix == candidate || crate::text::spec_starts_with(suffix, candidate + "."@)
}

/// `i` is the first registered environment a suffix belongs to.
pub open spec fn is_first_match(suffix: Seq<char>, environments: Seq<Seq<char>>, i: int) -> bool {
    &&& 0 <= i < environments.len()
    &&& suffix_matches(suffix, environments[i])
    &&& forall|j: int| 0 <= j < i ==> !suffix_matches(suffix, #[trigger] environments[j])
}

/// The first registered environment a suffix belongs to.
pub open spec fn spec_matched_environment(suffix: Seq<char>, environments: Seq<Seq<char>>) -> Option<
    int,
> {
    if exists|i: int| is_first_match(suffix, environments, i) {
        Some(choose|i: int| is_first_match(suffix, environments, i))
    } else {
        None
    }
}

/// The detail of the refusal to import `file_name` into `environment`:
/// `.env.{other}` and `.env.{other}.*` belong to a registered `other`.
pub open spec fn spec_env_file_conflict(
    file_name: Seq<char>,
    environments: Seq<Seq<char>>,
    environment: Seq<char>,
) -> Option<Seq<char>> {
    if file_name == ".env"@ || !crate::text::spec_starts_with(file_name, ".env."@) {
        None
    } else {
        match spec_matched_environment(file_name.skip(5), environments) {
            Some(i) => if environments[i] != environment {
                Some(
                    file_name + " appears to belong to environment "@ + environments[i] + ", not "@
                        + environment,
                )
            } else {
                None
            },
            None => None,
        }
    }
}

/// Whether a suffix belongs to a candidate environment.
fn suffix_belongs(suffix: &[char], candidate: &str) -> (result: bool)
    ensures
        result == suffix_matches(suffix@, candidate@),
{
    let whole = string_from_chars(suffix);
    if str_eq(whole.as_str(), candidate) {
        return true;
    }
    let dotted = String::from_str(candidate).concat(".");
    proof {
        reveal_strlit(".");
    }
    crate::text::starts_with(suffix, dotted.as_str())
}

/// Refuses importing an environment-specific file into another environment.
pub fn validate_env_file_environment(
    registration: &ProjectRegistration,
    file_name: &str,
    environment: &str,
) -> (result: Result<(), VaultError>)
    ensures
        match spec_env_file_conflict(file_name@, texts(registration.environments@), environment@) {
            None => result is Ok,
            Some(detail) => result matches Err(e) && invalid_with(e, detail),
        },
{
    proof {
        reveal_strlit(".env");
        reveal_strlit(".env.");
    }
    if str_eq(file_name, ".env") {
        return Ok(());
    }
    let chars = chars_of(file_name);
    let suffix = match crate::text::strip_prefix(chars.as_slice(), ".env.") {
        Some(rest) => rest,
        None => return Ok(()),
    };
    let envs = &registration.environments;
    let ghost es = texts(envs@);
    let mut i: usize = 0;
    while i < envs.len()
        invariant
            i <= envs@.len(),
            es == texts(envs@),
            envs@ == registration.environments@,
            suffix@ == file_name@.skip(5),
            file_name@ != ".env"@,
            crate::text::spec_starts_with(file_name@, ".env."@),
            forall|j: int| 0 <= j < i ==> !suffix_matches(suffix@, #[trigger] es[j]),
        decreases envs@.len() - i,
    {
        if suffix_belongs(suffix.as_slice(), envs[i].as_str()) {
            proof {
                assert(es[i as int] == envs@[i as int]@);
                assert(is_first_match(suffix@, es, i as int));
                let w = choose|w: int| is_first_match(suffix@, es, w);
                if w < i {
                    assert(!suffix_matches(suffix@, es[w]));
                }
                if i < w {
                    assert(!suffix_matches(suffix@, es[i as int]));
                }
                assert(spec_matched_environment(suffix@, es) == Some(i as int));
            }
            if !str_eq(envs[i].as_str(), environment) {
                proof {
                    reveal_strlit(" appears to belong to environment ");
                    reveal_strlit(", not ");
                }
                let detail = String::from_str(file_name).concat(
                    " appears to belong to environment ",
                ).concat(envs[i].as_str()).concat(", not ").concat(environment);
                return Err(VaultError::InvalidInput(detail));
            }
            return Ok(());
        }
        proof {
            assert(es[i as int] == envs@[i as int]@);
        }
        i = i + 1;
    }
    proof {
        if exists|w: int| is_first_match(suffix@, es, w) {
            let w = choose|w: int| is_first_match(suffix@, es, w);
            assert(!suffix_matches(suffix@, es[w]));
        }
    }
    Ok(())
}

/// `s` without any leading `c`.
pub open spec fn spec_strip_leading(s: Seq<char>, c: char) -> Seq<char>
    decreases s.len(),
{
    if s.len() > 0 && s[0] == c {
        spec_strip_leading(s.skip(1), c)
    } else {
        s
    }
}

/// What a dotenv line holds: nothing (blank or comment), or a key and the
/// raw text after the first `=`; `Err` carries the detail of a refusal.
pub open spec fn spec_env_assignment(line: Seq<char>) -> Result<Option<(Seq<char>, Seq<char>)>, Seq<char>> {
    let l = spec_trim(spec_strip_leading(line, '\u{feff}'));
    if l.len() == 0 || l[0] == '#' {
        Ok(None)
    } else {
        let body = crate::text::spec_trim_start(
            if crate::text::spec_starts_with(l, "export "@) {
                l.skip(7)
            } else {
                l
            },
        );
        match crate::text::first_index_of(body, '=') {
            None => Err("environment line is missing '='"@),
            Some(i) => {
                let key = spec_trim(body.take(i));
                match spec_key_error(key) {
                    Some(detail) => Err(detail),
                    None => Ok(Some((key, body.skip(i + 1)))),
                }
            },
        }
    }
}

/// Drops every leading `c`.
fn strip_leading(text: &[char], c: char) -> (result: Vec<char>)
    ensures
        result@ == spec_strip_leading(text@, c),
{
    let mut i: usize = 0;
    assert(text@.skip(0) =~= text@);
    while i < text.len() && text[i] == c
        invariant
            i <= text@.len(),
            spec_strip_leading(text@, c) == spec_strip_leading(text@.skip(i as int), c),
        decreases text@.len() - i,
    {
        proof {
            assert(text@.skip(i as int).skip(1) =~= text@.skip(i + 1));
        }
        i = i + 1;
    }
    let result = chars_between(text, i, text.len());
    assert(result@ =~= text@.skip(i as int));
    result
}

/// Reads one dotenv line: `None` for a blank or comment line, else the key
/// and the raw value text.
pub fn parse_env_assignment(line: &str) -> (result: Result<Option<(String, String)>, VaultError>)
    ensures
        match spec_env_assignment(line@) {
            Ok(None) => result matches Ok(None),
            Ok(Some((key, value))) => result matches Ok(Some((k, v))) && k@ == key && v@ == value,
            Err(detail) => result matches Err(e) && invalid_with(e, detail),
        },
{
    let chars = chars_of(line);
    let stripped = strip_leading(chars.as_slice(), '\u{feff}');
    let l = trim(stripped.as_slice());
    if l.len() == 0 || l[0] == '#' {
        return Ok(None);
    }
    proof {
        reveal_strlit("export ");
    }
    let unprefixed = match crate::text::strip_prefix(l.as_slice(), "export ") {
        Some(rest) => rest,
        None => l,
    };
    let body = crate::text::trim_start(unprefixed.as_slice());
    let eq = match crate::text::find_char(body.as_slice(), '=') {
        Some(i) => i,
        None => return Err(invalid_input("environment line is missing '='")),
    };
    proof {
        let w = choose|w: int| crate::text::is_first_index(body@, '=', w);
        assert(w == eq);
        assert(crate::text::is_first_index(body@, '=', w));
    }
    let body_len = body.len();
    let key_part = chars_between(body.as_slice(), 0, eq);
    let key_chars = trim(key_part.as_slice());
    let key = string_from_chars(key_chars.as_slice());
    proof {
        assert(key_part@ =~= body@.take(eq as int));
    }
    validate_env_key(key.as_str())?;
    let value_chars = chars_between(body.as_slice(), eq + 1, body_len);
    assert(value_chars@ =~= body@.skip(eq + 1));
    Ok(Some((key, string_from_chars(value_chars.as_slice()))))
}

/// The lines of a text as `str::lines` gives them: cut at `\n`, a `\r`
/// before the `\n` dropped, and no empty last line after a final `\n`.
pub open spec fn spec_lines(s: Seq<char>) -> Seq<Seq<char>> {
    let parts = crate::text::spec_split(s, '\n');
    let kept = if parts.last().len() == 0 {
        parts.drop_last()
    } else {
        parts
    };
    Seq::new(
        kept.len(),
        |i: int|
            if i < parts.len() - 1 && kept[i].len() > 0 && kept[i].last() == '\r' {
                kept[i].drop_last()
            } else {
                kept[i]
            },
    )
}

proof fn lemma_split_nonempty(s: Seq<char>, c: char)
    ensures
        crate::text::spec_split(s, c).len() > 0,
    decreases s.len(),
{
    if let Some(i) = crate::text::first_index_of(s, c) {
        if 0 <= i < s.len() {
            lemma_split_nonempty(s.skip(i + 1), c);
        }
    }
}

/// Cuts a text into lines.
pub fn lines(text: &[char]) -> (result: Vec<Vec<char>>)
    ensures
        crate::text::views_of(result@) == spec_lines(text@),
{
    let parts = crate::text::split_char(text, '\n');
    let ghost ps = crate::text::views_of(parts@);
    proof {
        lemma_split_nonempty(text@, '\n');
    }
    let count = if parts[parts.len() - 1].len() == 0 {
        parts.len() - 1
    } else {
        parts.len()
    };
    let mut out: Vec<Vec<char>> = Vec::new();
    let mut i: usize = 0;
    while i < count
        invariant
            i <= count <= parts@.len(),
            ps == crate::text::views_of(parts@),
            ps.len() == parts@.len(),
            count == (if ps.last().len() == 0 { ps.len() - 1 } else { ps.len() as int }),
            out@.len() == i,
            forall|k: int| 0 <= k < i ==> (#[trigger] out@[k])@ == spec_lines(text@)[k],
            ps == crate::text::spec_split(text@, '\n'),
        decreases count - i,
    {
        let part = &parts[i];
        assert(part@ == ps[i as int]);
        let n = part.len();
        let line = if i < parts.len() - 1 && n > 0 && part[n - 1] == '\r' {
            chars_between(part.as_slice(), 0, n - 1)
        } else {
            chars_between(part.as_slice(), 0, n)
        };
        proof {
            assert(part@.subrange(0, n as int) =~= part@);
            assert(part@.subrange(0, n - 1) =~= part@.drop_last());
        }
        out.push(line);
        i = i + 1;
    }
    proof {
        assert(crate::text::views_of(out@) =~= spec_lines(text@));
    }
    out
}

/// The keys named by dotenv lines, added to `acc` in order; the first
/// refused line ends the reading.
pub open spec fn spec_keys_from(lines: Seq<Seq<char>>, acc: Set<Seq<char>>) -> Result<Set<Seq<char>>, Seq<char>>
    decreases lines.len(),
{
    if lines.len() == 0 {
        Ok(acc)
    } else {
        match spec_env_assignment(lines[0]) {
            Err(detail) => Err(detail),
            Ok(None) => spec_keys_from(lines.skip(1), acc),
            Ok(Some((key, _))) => spec_keys_from(lines.skip(1), acc.insert(key)),
        }
    }
}

/// The key names of a `.env.example` text, or the detail of its refusal.
pub open spec fn spec_example_keys(content: Seq<char>) -> Result<Set<Seq<char>>, Seq<char>> {
    match spec_keys_from(spec_lines(content), Set::empty()) {
        Err(detail) => Err(detail),
        Ok(keys) => if keys.len() > MAX_KEYS {
            Err("too many environment keys"@)
        } else {
            Ok(keys)
        },
    }
}

/// Reads the key names of a `.env.example` text, sorted, each once.
pub fn parse_env_example_keys(content: &str) -> (result: Result<Vec<String>, VaultError>)
    ensures
        match spec_example_keys(content@) {
            Ok(keys) => result matches Ok(v) && crate::ordered::strictly_sorted(texts(v@)) && texts(
                v@,
            ).to_set() == keys,
            Err(detail) => result matches Err(e) && invalid_with(e, detail),
        },
{
    let chars = chars_of(content);
    let all = lines(chars.as_slice());
    let ghost ls = crate::text::views_of(all@);
    let mut keys: Vec<String> = Vec::new();
    proof {
        crate::ordered::lemma_empty_sorted();
        assert(ls.skip(0) =~= ls);
        assert(texts(keys@) =~= Seq::<Seq<char>>::empty());
    }
    let mut i: usize = 0;
    while i < all.len()
        invariant
            i <= all@.len(),
            ls == crate::text::views_of(all@),
            ls == spec_lines(content@),
            ls.len() == all@.len(),
            crate::ordered::strictly_sorted(texts(keys@)),
            spec_keys_from(ls, Set::empty()) == spec_keys_from(ls.skip(i as int), texts(keys@).to_set()),
        decreases all@.len() - i,
    {
        let line = string_from_chars(all[i].as_slice());
        proof {
            assert(ls.skip(i as int)[0] == all@[i as int]@);
            assert(ls.skip(i as int).skip(1) =~= ls.skip(i + 1));
        }
        match parse_env_assignment(line.as_str()) {
            Err(e) => {
                return Err(e);
            },
            Ok(None) => {},
            Ok(Some((key, _))) => {
                crate::ordered::insert_sorted(&mut keys, key);
            },
        }
        i = i + 1;
    }
    proof {
        crate::ordered::lemma_sorted_set_len(texts(keys@));
        assert(texts(keys@).len() == keys@.len());
    }
    if keys.len() > MAX_KEYS {
        return Err(invalid_input("too many environment keys"));
    }
    Ok(keys)
}

/// The first line of a value-free `.env.example`.
pub open spec fn example_header() -> Seq<char> {
    "# Managed by ND Secure. This file intentionally contains key names only.\n# Real values live in the encrypted vault and are injected only when authorized.\n"@
}

/// One `KEY=` line per key, in order.
pub open spec fn spec_key_lines(keys: Seq<Seq<char>>) -> Seq<char>
    decreases keys.len(),
{
    if keys.len() == 0 {
        Seq::empty()
    } else {
        spec_key_lines(keys.drop_last()) + keys.last() + "=\n"@
    }
}

/// The first refused key of a list, if any.
pub open spec fn spec_first_key_error(keys: Seq<Seq<char>>) -> Option<Seq<char>>
    decreases keys.len(),
{
    if keys.len() == 0 {
        None
    } else {
        match spec_key_error(keys[0]) {
            Some(detail) => Some(detail),
            None => spec_first_key_error(keys.skip(1)),
        }
    }
}

/// Checks each key in order and collects them sorted, each once.
fn collect_keys(keys: &Vec<String>, into: &mut Vec<String>) -> (result: Result<(), VaultError>)
    requires
        crate::ordered::strictly_sorted(texts(old(into)@)),
    ensures
        match spec_first_key_error(texts(keys@)) {
            Some(detail) => result matches Err(e) && invalid_with(e, detail),
            None => {
                &&& result is Ok
                &&& crate::ordered::strictly_sorted(texts(final(into)@))
                &&& texts(final(into)@).to_set() == texts(old(into)@).to_set() + texts(keys@).to_set()
            },
        },
{
    let ghost ks = texts(keys@);
    let ghost start = texts(into@).to_set();
    let mut i: usize = 0;
    proof {
        assert(ks.skip(0) =~= ks);
        assert(ks.take(0).to_set() =~= Set::<Seq<char>>::empty());
        assert(start + Set::<Seq<char>>::empty() =~= start);
    }
    while i < keys.len()
        invariant
            i <= keys@.len(),
            ks == texts(keys@),
            ks.len() == keys@.len(),
            crate::ordered::strictly_sorted(texts(into@)),
            spec_first_key_error(ks) == spec_first_key_error(ks.skip(i as int)),
            texts(into@).to_set() == start + ks.take(i as int).to_set(),
        decreases keys@.len() - i,
    {
        proof {
            assert(ks.skip(i as int)[0] == keys@[i as int]@);
            assert(ks.skip(i as int).skip(1) =~= ks.skip(i + 1));
        }
        validate_env_key(keys[i].as_str())?;
        crate::ordered::insert_sorted(into, keys[i].clone());
        proof {
            assert(ks.take(i + 1) =~= ks.take(i as int).push(ks[i as int]));
            assert(ks.take(i + 1).to_set() =~= ks.take(i as int).to_set().insert(ks[i as int])) by {
                broadcast use vstd::seq_lib::group_seq_properties;
            }
            assert(texts(into@).to_set() =~= start + ks.take(i + 1).to_set());
        }
        i = i + 1;
    }
    proof {
        assert(ks.take(ks.len() as int) =~= ks);
        assert(ks.skip(ks.len() as int) =~= Seq::<Seq<char>>::empty());
    }
    Ok(())
}

/// Appends `KEY=` lines for sorted keys.
fn key_lines(keys: &Vec<String>) -> (result: String)
    ensures
        result@ == spec_key_lines(texts(keys@)),
{
    let mut out = String::new();
    let mut i: usize = 0;
    proof {
        assert(texts(keys@).take(0) =~= Seq::<Seq<char>>::empty());
    }
    while i < keys.len()
        invariant
            i <= keys@.len(),
            out@ == spec_key_lines(texts(keys@).take(i as int)),
        decreases keys@.len() - i,
    {
        out = out.concat(keys[i].as_str()).concat("=\n");
        proof {
            reveal_strlit("=\n");
            let t = texts(keys@).take(i + 1);
            assert(t.drop_last() =~= texts(keys@).take(i as int));
            assert(t.last() == keys@[i as int]@);
        }
        i = i + 1;
    }
    proof {
        assert(texts(keys@).take(keys@.len() as int) =~= texts(keys@));
    }
    out
}

/// The text of a value-free `.env.example` for the given keys, or why the
/// keys are refused: more than `MAX_KEYS` of them, or a key that is not
/// valid (the first such one).
pub fn value_free_env_example(keys: &Vec<String>) -> (result: Result<String, VaultError>)
    ensures
        keys@.len() > MAX_KEYS ==> (result matches Err(e) && invalid_with(e, "too many environment keys"@)),
        keys@.len() <= MAX_KEYS ==> match spec_first_key_error(texts(keys@)) {
            Some(detail) => result matches Err(e) && invalid_with(e, detail),
            None => result matches Ok(text) && exists|sorted: Seq<Seq<char>>|
                crate::ordered::strictly_sorted(sorted) && sorted.to_set() == texts(keys@).to_set()
                    && text@ == example_header() + #[trigger] spec_key_lines(sorted),
        },
{
    if keys.len() > MAX_KEYS {
        return Err(invalid_input("too many environment keys"));
    }
    let mut unique: Vec<String> = Vec::new();
    proof {
        crate::ordered::lemma_empty_sorted();
        assert(texts(unique@) =~= Seq::<Seq<char>>::empty());
    }
    collect_keys(keys, &mut unique)?;
    proof {
        assert(Set::<Seq<char>>::empty() + texts(keys@).to_set() =~= texts(keys@).to_set());
        reveal_strlit(
            "# Managed by ND Secure. This file intentionally contains key names only.\n# Real values live in the encrypted vault and are injected only when authorized.\n",
        );
    }
    let text = String::from_str(
        "# Managed by ND Secure. This file intentionally contains key names only.\n# Real values live in the encrypted vault and are injected only when authorized.\n",
    ).concat(key_lines(&unique).as_str());
    proof {
        assert(text@ == example_header() + spec_key_lines(texts(unique@)));
    }
    Ok(text)
}

/// The keys of an existing `.env.example` together with new keys, each
/// new key checked first, sorted and each once.
pub fn merge_env_example_keys(existing: &Vec<String>, keys: &Vec<String>) -> (result: Result<
    Vec<String>,
    VaultError,
>)
    requires
        crate::ordered::strictly_sorted(texts(existing@)),
    ensures
        match spec_first_key_error(texts(keys@)) {
            Some(detail) => result matches Err(e) && invalid_with(e, detail),
            None => result matches Ok(all) && crate::ordered::strictly_sorted(texts(all@)) && texts(
                all@,
            ).to_set() == texts(existing@).to_set() + texts(keys@).to_set(),
        },
{
    let mut all = existing.clone();
    proof {
        assert(texts(all@) =~= texts(existing@)) by {
            assert forall|i: int| 0 <= i < all@.len() implies all@[i]@ == existing@[i]@ by {
                assert(vstd::pervasive::cloned(existing@[i], all@[i]));
            }
        }
    }
    collect_keys(keys, &mut all)?;
    Ok(all)
}

/// The trimmed, checked environments of a project, sorted and each once.
pub open spec fn spec_environments(environments: Seq<Seq<char>>) -> Result<Set<Seq<char>>, Seq<char>> {
    if environments.len() == 0 || environments.len() > MAX_ENVIRONMENTS {
        Err("project must define 1 to 32 environments"@)
    } else if exists|i: int|
        0 <= i < environments.len() && !spec_environment_name_ok(spec_trim(#[trigger] environments[i])) {
        Err("invalid project environment name"@)
    } else {
        Ok(environments.map_values(|e: Seq<char>| spec_trim(e)).to_set())
    }
}

/// Checks the environment names of a project.
pub fn validate_environments(environments: Vec<String>) -> (result: Result<Vec<String>, VaultError>)
    ensures
        match spec_environments(texts(environments@)) {
            Ok(set) => result matches Ok(v) && crate::ordered::strictly_sorted(texts(v@)) && texts(
                v@,
            ).to_set() == set,
            Err(detail) => result matches Err(e) && invalid_with(e, detail),
        },
{
    if environments.len() == 0 || environments.len() > MAX_ENVIRONMENTS {
        return Err(invalid_input("project must define 1 to 32 environments"));
    }
    let ghost es = texts(environments@);
    let ghost trimmed = es.map_values(|e: Seq<char>| spec_trim(e));
    let mut unique: Vec<String> = Vec::new();
    proof {
        crate::ordered::lemma_empty_sorted();
        assert(texts(unique@) =~= Seq::<Seq<char>>::empty());
        assert(trimmed.take(0).to_set() =~= Set::<Seq<char>>::empty());
    }
    let mut i: usize = 0;
    while i < environments.len()
        invariant
            i <= environments@.len(),
            0 < environments@.len() <= MAX_ENVIRONMENTS,
            es == texts(environments@),
            trimmed == es.map_values(|e: Seq<char>| spec_trim(e)),
            crate::ordered::strictly_sorted(texts(unique@)),
            texts(unique@).to_set() == trimmed.take(i as int).to_set(),
            forall|j: int| 0 <= j < i ==> spec_environment_name_ok(spec_trim(#[trigger] es[j])),
        decreases environments@.len() - i,
    {
        let chars = chars_of(environments[i].as_str());
        let t = trim(chars.as_slice());
        let name = string_from_chars(t.as_slice());
        proof {
            assert(es[i as int] == environments@[i as int]@);
        }
        if validate_environment_name(name.as_str()).is_err() {
            proof {
                assert(!spec_environment_name_ok(spec_trim(es[i as int])));
            }
            return Err(invalid_input("invalid project environment name"));
        }
        crate::ordered::insert_sorted(&mut unique, name);
        proof {
            assert(trimmed[i as int] == spec_trim(es[i as int]));
            assert(trimmed.take(i + 1) =~= trimmed.take(i as int).push(trimmed[i as int]));
            assert(trimmed.take(i + 1).to_set() =~= trimmed.take(i as int).to_set().insert(
                trimmed[i as int],
            )) by {
                broadcast use vstd::seq_lib::group_seq_properties;
            }
        }
        i = i + 1;
    }
    proof {
        assert(trimmed.take(trimmed.len() as int) =~= trimmed);
    }
    Ok(unique)
}

/// Longest secret value accepted from a dotenv file, in bytes.
pub const MAX_ENV_VALUE_BYTES: usize = 65536;

/// The values of dotenv lines, added to `acc` in order; the first refused
/// line ends the reading.
pub open spec fn spec_values_from(lines: Seq<Seq<char>>, acc: Map<Seq<char>, Seq<char>>) -> Result<
    Map<Seq<char>, Seq<char>>,
    Seq<char>,
>
    decreases lines.len(),
{
    if lines.len() == 0 {
        Ok(acc)
    } else {
        match spec_env_assignment(lines[0]) {
            Err(detail) => Err(detail),
            Ok(None) => spec_values_from(lines.skip(1), acc),
            Ok(Some((key, raw))) => if acc.dom().contains(key) {
                Err("duplicate environment key: "@ + key)
            } else {
                let value = spec_env_value(raw);
                if value.len() == 0 {
                    Err("environment key has an empty value: "@ + key)
                } else if crate::text::byte_len(value) > MAX_ENV_VALUE_BYTES {
                    Err("environment value is too large: "@ + key)
                } else {
                    spec_values_from(lines.skip(1), acc.insert(key, value))
                }
            },
        }
    }
}

/// The secrets of a plaintext dotenv text, or the detail of its refusal.
pub open spec fn spec_env_file_values(content: Seq<char>) -> Result<Map<Seq<char>, Seq<char>>, Seq<char>> {
    match spec_values_from(spec_lines(content), Map::empty()) {
        Err(detail) => Err(detail),
        Ok(values) => if values.dom().len() > MAX_KEYS {
            Err("too many environment keys"@)
        } else {
            Ok(values)
        },
    }
}

/// Reads the secrets of a plaintext dotenv file, sorted by key.
pub fn parse_env_file_values(content: &str) -> (result: Result<Vec<(String, String)>, VaultError>)
    ensures
        match spec_env_file_values(content@) {
            Ok(values) => result matches Ok(v) && crate::ordered::strictly_sorted(
                crate::ordered::entry_keys(crate::ordered::entry_views(v@)),
            ) && crate::ordered::entries_map(crate::ordered::entry_views(v@)) == values,
            Err(detail) => result matches Err(e) && invalid_with(e, detail),
        },
{
    let chars = chars_of(content);
    let all = lines(chars.as_slice());
    let ghost ls = crate::text::views_of(all@);
    let mut values: Vec<(String, String)> = Vec::new();
    proof {
        assert(crate::ordered::entry_views(values@) =~= Seq::<(Seq<char>, Seq<char>)>::empty());
        assert(crate::ordered::entry_keys(crate::ordered::entry_views(values@)) =~= Seq::<
            Seq<char>,
        >::empty());
        assert(crate::ordered::entries_map(crate::ordered::entry_views(values@)) =~= Map::<
            Seq<char>,
            Seq<char>,
        >::empty());
        assert(ls.skip(0) =~= ls);
    }
    let mut i: usize = 0;
    while i < all.len()
        invariant
            i <= all@.len(),
            ls == crate::text::views_of(all@),
            ls == spec_lines(content@),
            ls.len() == all@.len(),
            crate::ordered::strictly_sorted(
                crate::ordered::entry_keys(crate::ordered::entry_views(values@)),
            ),
            spec_values_from(ls, Map::empty()) == spec_values_from(
                ls.skip(i as int),
                crate::ordered::entries_map(crate::ordered::entry_views(values@)),
            ),
        decreases all@.len() - i,
    {
        let line = string_from_chars(all[i].as_slice());
        proof {
            assert(ls.skip(i as int)[0] == all@[i as int]@);
            assert(ls.skip(i as int).skip(1) =~= ls.skip(i + 1));
        }
        match parse_env_assignment(line.as_str()) {
            Err(e) => {
                return Err(e);
            },
            Ok(None) => {},
            Ok(Some((key, raw))) => {
                proof {
                    crate::ordered::lemma_entries_map_dom(crate::ordered::entry_views(values@));
                }
                let found = crate::ordered::find_entry(&values, key.as_str());
                if let Some(j) = found {
                    proof {
                        reveal_strlit("duplicate environment key: ");
                        let ks = crate::ordered::entry_keys(crate::ordered::entry_views(values@));
                        assert(ks[j as int] == key@);
                        assert(ks.contains(key@));
                        assert(ks.to_set().contains(key@));
                    }
                    let detail = String::from_str("duplicate environment key: ").concat(key.as_str());
                    return Err(VaultError::InvalidInput(detail));
                }
                let value = parse_env_value(raw.as_str())?;
                if value.as_str().is_empty() {
                    proof {
                        reveal_strlit("environment key has an empty value: ");
                    }
                    let detail = String::from_str("environment key has an empty value: ").concat(
                        key.as_str(),
                    );
                    return Err(VaultError::InvalidInput(detail));
                }
                if crate::text::byte_len_of(value.as_str()) > MAX_ENV_VALUE_BYTES {
                    proof {
                        reveal_strlit("environment value is too large: ");
                    }
                    let detail = String::from_str("environment value is too large: ").concat(
                        key.as_str(),
                    );
                    return Err(VaultError::InvalidInput(detail));
                }
                crate::ordered::insert_entry(&mut values, key, value);
            },
        }
        i = i + 1;
    }
    proof {
        let es = crate::ordered::entry_views(values@);
        crate::ordered::lemma_entries_map_dom(es);
        crate::ordered::lemma_sorted_set_len(crate::ordered::entry_keys(es));
        assert(ls.skip(ls.len() as int) =~= Seq::<Seq<char>>::empty());
    }
    if values.len() > MAX_KEYS {
        return Err(invalid_input("too many environment keys"));
    }
    Ok(values)
}

/// Texts joined with a separator.
pub open spec fn spec_join(items: Seq<Seq<char>>, sep: Seq<char>) -> Seq<char>
    decreases items.len(),
{
    if items.len() == 0 {
        Seq::empty()
    } else if items.len() == 1 {
        items[0]
    } else {
        spec_join(items.drop_last(), sep) + sep + items.last()
    }
}

/// Joins texts with a separator.
pub fn join(items: &Vec<String>, sep: &str) -> (result: String)
    ensures
        result@ == spec_join(texts(items@), sep@),
{
    let mut out = String::new();
    let mut i: usize = 0;
    proof {
        assert(texts(items@).take(0) =~= Seq::<Seq<char>>::empty());
    }
    while i < items.len()
        invariant
            i <= items@.len(),
            out@ == spec_join(texts(items@).take(i as int), sep@),
        decreases items@.len() - i,
    {
        proof {
            let t = texts(items@).take(i + 1);
            assert(t.drop_last() =~= texts(items@).take(i as int));
            assert(t.last() == items@[i as int]@);
        }
        if i == 0 {
            out = String::from_str(items[i].as_str());
        } else {
            out = out.concat(sep).concat(items[i].as_str());
        }
        i = i + 1;
    }
    proof {
        assert(texts(items@).take(items@.len() as int) =~= texts(items@));
    }
    out
}

/// The entries of `es`, in order, whose key `m` holds with another value.
pub open spec fn spec_conflicts(es: Seq<(Seq<char>, Seq<char>)>, m: Map<Seq<char>, Seq<char>>) -> Seq<
    Seq<char>,
>
    decreases es.len(),
{
    if es.len() == 0 {
        Seq::empty()
    } else {
        let rest = spec_conflicts(es.drop_last(), m);
        let e = es.last();
        if m.dom().contains(e.0) && m[e.0] != e.1 {
            rest.push(e.0)
        } else {
            rest
        }
    }
}

/// The keys of `es`, in order, that `m` holds with the same value.
pub open spec fn spec_already_stored(es: Seq<(Seq<char>, Seq<char>)>, m: Map<Seq<char>, Seq<char>>) -> Seq<
    Seq<char>,
>
    decreases es.len(),
{
    if es.len() == 0 {
        Seq::empty()
    } else {
        let rest = spec_already_stored(es.drop_last(), m);
        let e = es.last();
        if m.dom().contains(e.0) && m[e.0] == e.1 {
            rest.push(e.0)
        } else {
            rest
        }
    }
}

/// The entries of `es`, in order, whose key `m` does not hold.
pub open spec fn spec_to_import(es: Seq<(Seq<char>, Seq<char>)>, m: Map<Seq<char>, Seq<char>>) -> Seq<
    (Seq<char>, Seq<char>),
>
    decreases es.len(),
{
    if es.len() == 0 {
        Seq::empty()
    } else {
        let rest = spec_to_import(es.drop_last(), m);
        let e = es.last();
        if !m.dom().contains(e.0) {
            rest.push(e)
        } else {
            rest
        }
    }
}

/// What importing a dotenv file does: which entries are saved, and which
/// keys the vault already held with the same value.
pub struct ImportPlan {
    pub to_save: Vec<(String, String)>,
    pub existing_keys: Vec<String>,
}

/// Decides an import: refuses an empty file, refuses every key the vault
/// holds with a different value (all named in one error), and otherwise
/// saves the keys the vault does not hold.
pub fn plan_env_import(parsed: &Vec<(String, String)>, existing: &Vec<(String, String)>) -> (result:
    Result<ImportPlan, VaultError>)
    requires
        crate::ordered::strictly_sorted(crate::ordered::entry_keys(crate::ordered::entry_views(existing@))),
    ensures
        ({
            let ps = crate::ordered::entry_views(parsed@);
            let m = crate::ordered::entries_map(crate::ordered::entry_views(existing@));
            if ps.len() == 0 {
                result matches Err(e) && invalid_with(e, "environment file contains no values"@)
            } else if spec_conflicts(ps, m).len() > 0 {
                result matches Err(e) && invalid_with(
                    e,
                    "vault already contains different values for: "@ + spec_join(
                        spec_conflicts(ps, m),
                        ", "@,
                    ),
                )
            } else {
                result matches Ok(plan) && crate::ordered::entry_views(plan.to_save@)
                    == spec_to_import(ps, m) && texts(plan.existing_keys@) == spec_already_stored(
                    ps,
                    m,
                )
            }
        }),
{
    if parsed.len() == 0 {
        return Err(invalid_input("environment file contains no values"));
    }
    let ghost ps = crate::ordered::entry_views(parsed@);
    let ghost m = crate::ordered::entries_map(crate::ordered::entry_views(existing@));
    proof {
        crate::ordered::lemma_entries_map_dom(crate::ordered::entry_views(existing@));
    }
    let mut conflicts: Vec<String> = Vec::new();
    let mut same: Vec<String> = Vec::new();
    let mut to_save: Vec<(String, String)> = Vec::new();
    let mut i: usize = 0;
    proof {
        assert(ps.take(0) =~= Seq::<(Seq<char>, Seq<char>)>::empty());
        assert(texts(conflicts@) =~= Seq::<Seq<char>>::empty());
        assert(texts(same@) =~= Seq::<Seq<char>>::empty());
        assert(crate::ordered::entry_views(to_save@) =~= Seq::<(Seq<char>, Seq<char>)>::empty());
    }
    while i < parsed.len()
        invariant
            i <= parsed@.len(),
            ps == crate::ordered::entry_views(parsed@),
            m == crate::ordered::entries_map(crate::ordered::entry_views(existing@)),
            m.dom() == crate::ordered::entry_keys(crate::ordered::entry_views(existing@)).to_set(),
            crate::ordered::strictly_sorted(crate::ordered::entry_keys(crate::ordered::entry_views(existing@))),
            texts(conflicts@) == spec_conflicts(ps.take(i as int), m),
            texts(same@) == spec_already_stored(ps.take(i as int), m),
            crate::ordered::entry_views(to_save@) == spec_to_import(ps.take(i as int), m),
        decreases parsed@.len() - i,
    {
        let key = &parsed[i].0;
        let value = &parsed[i].1;
        proof {
            let t = ps.take(i + 1);
            assert(t.drop_last() =~= ps.take(i as int));
            assert(t.last() == (key@, value@));
        }
        let found = crate::ordered::find_entry(existing, key.as_str());
        match found {
            Some(j) => {
                proof {
                    let es = crate::ordered::entry_views(existing@);
                    let ks = crate::ordered::entry_keys(es);
                    assert(ks[j as int] == key@);
                    crate::ordered::lemma_sorted_set_len(ks);
                    assert forall|k: int| 0 <= k < es.len() && k != j implies es[k].0 != es[j as int].0 by {
                        assert(ks[k] == es[k].0);
                        assert(ks[j as int] == es[j as int].0);
                    }
                    lemma_sorted_lookup(es, j as int);
                }
                assert(crate::ordered::entry_keys(crate::ordered::entry_views(existing@)).contains(key@));
                if str_eq(existing[j].1.as_str(), value.as_str()) {
                    let ghost before = same@;
                    same.push(String::from_str(key.as_str()));
                    proof {
                        assert(texts(same@) =~= texts(before).push(key@));
                    }
                } else {
                    let ghost before = conflicts@;
                    conflicts.push(String::from_str(key.as_str()));
                    proof {
                        assert(texts(conflicts@) =~= texts(before).push(key@));
                    }
                }
            },
            None => {
                let ghost before = to_save@;
                to_save.push((String::from_str(key.as_str()), String::from_str(value.as_str())));
                proof {
                    assert(crate::ordered::entry_views(to_save@) =~= crate::ordered::entry_views(
                        before,
                    ).push((key@, value@)));
                    assert(!m.dom().contains(key@)) by {
                        if m.dom().contains(key@) {
                            let ks = crate::ordered::entry_keys(crate::ordered::entry_views(existing@));
                            assert(ks.to_set().contains(key@));
                            assert(ks.contains(key@));
                        }
                    }
                }
            },
        }
        i = i + 1;
    }
    proof {
        assert(ps.take(ps.len() as int) =~= ps);
    }
    if conflicts.len() > 0 {
        proof {
            reveal_strlit("vault already contains different values for: ");
            reveal_strlit(", ");
        }
        let detail = String::from_str("vault already contains different values for: ").concat(
            join(&conflicts, ", ").as_str(),
        );
        return Err(VaultError::InvalidInput(detail));
    }
    Ok(ImportPlan { to_save, existing_keys: same })
}

/// The value the map holds for an entry's key is the entry's value, when
/// the keys are distinct.
proof fn lemma_sorted_lookup(es: Seq<(Seq<char>, Seq<char>)>, j: int)
    requires
        0 <= j < es.len(),
    ensures
        crate::ordered::entries_map(es).dom().contains(es[j].0),
        (forall|k: int| 0 <= k < es.len() && k != j ==> es[k].0 != es[j].0) ==> crate::ordered::entries_map(
            es,
        )[es[j].0] == es[j].1,
    decreases es.len(),
{
    if j < es.len() - 1 {
        lemma_sorted_lookup(es.drop_last(), j);
        assert(es.drop_last()[j] == es[j]);
        if forall|k: int| 0 <= k < es.len() && k != j ==> es[k].0 != es[j].0 {
            assert(es[es.len() - 1].0 != es[j].0);
            assert forall|k: int| 0 <= k < es.drop_last().len() && k != j implies es.drop_last()[k].0
                != es.drop_last()[j].0 by {
                assert(es.drop_last()[k] == es[k]);
            }
        }
    }
}

/// The required keys, in order, that `held` holds or (with `want`
/// false) does not hold.
pub open spec fn spec_keys_where(required: Seq<Seq<char>>, held: Set<Seq<char>>, want: bool) -> Seq<
    Seq<char>,
>
    decreases required.len(),
{
    if required.len() == 0 {
        Seq::empty()
    } else {
        let rest = spec_keys_where(required.drop_last(), held, want);
        if held.contains(required.last()) == want {
            rest.push(required.last())
        } else {
            rest
        }
    }
}

/// Splits a project's required keys by whether the vault holds a value for
/// them: `(present, missing)`, each in the order of the required keys.
pub fn partition_required_keys(required: &Vec<String>, secrets: &Vec<(String, String)>) -> (result: (
    Vec<String>,
    Vec<String>,
))
    ensures
        texts(result.0@) == spec_keys_where(
            texts(required@),
            crate::ordered::entry_keys(crate::ordered::entry_views(secrets@)).to_set(),
            true,
        ),
        texts(result.1@) == spec_keys_where(
            texts(required@),
            crate::ordered::entry_keys(crate::ordered::entry_views(secrets@)).to_set(),
            false,
        ),
{
    let ghost held = crate::ordered::entry_keys(crate::ordered::entry_views(secrets@)).to_set();
    let ghost rs = texts(required@);
    let mut present: Vec<String> = Vec::new();
    let mut missing: Vec<String> = Vec::new();
    let mut i: usize = 0;
    proof {
        assert(rs.take(0) =~= Seq::<Seq<char>>::empty());
        assert(texts(present@) =~= Seq::<Seq<char>>::empty());
        assert(texts(missing@) =~= Seq::<Seq<char>>::empty());
    }
    while i < required.len()
        invariant
            i <= required@.len(),
            rs == texts(required@),
            held == crate::ordered::entry_keys(crate::ordered::entry_views(secrets@)).to_set(),
            texts(present@) == spec_keys_where(rs.take(i as int), held, true),
            texts(missing@) == spec_keys_where(rs.take(i as int), held, false),
        decreases required@.len() - i,
    {
        proof {
            let t = rs.take(i + 1);
            assert(t.drop_last() =~= rs.take(i as int));
            assert(t.last() == required@[i as int]@);
        }
        let found = crate::ordered::find_entry(secrets, required[i].as_str());
        proof {
            let ks = crate::ordered::entry_keys(crate::ordered::entry_views(secrets@));
            if let Some(j) = found {
                assert(ks[j as int] == required@[i as int]@);
            }
            assert(held.contains(required@[i as int]@) == ks.contains(required@[i as int]@));
        }
        if found.is_some() {
            let ghost before = present@;
            present.push(String::from_str(required[i].as_str()));
            proof {
                assert(texts(present@) =~= texts(before).push(required@[i as int]@));
            }
        } else {
            let ghost before = missing@;
            missing.push(String::from_str(required[i].as_str()));
            proof {
                assert(texts(missing@) =~= texts(before).push(required@[i as int]@));
            }
        }
        i = i + 1;
    }
    proof {
        assert(rs.take(rs.len() as int) =~= rs);
    }
    (present, missing)
}

/// Refuses to run a command while any required secret is missing, naming
/// them all.
pub fn require_all_secrets(required: &Vec<String>, secrets: &Vec<(String, String)>) -> (result: Result<
    (),
    VaultError,
>)
    ensures
        ({
            let missing = spec_keys_where(
                texts(required@),
                crate::ordered::entry_keys(crate::ordered::entry_views(secrets@)).to_set(),
                false,
            );
            if missing.len() == 0 {
                result is Ok
            } else {
                result matches Err(e) && invalid_with(
                    e,
                    "missing project secrets: "@ + spec_join(missing, ", "@),
                )
            }
        }),
{
    let (_, missing) = partition_required_keys(required, secrets);
    if missing.len() > 0 {
        proof {
            reveal_strlit("missing project secrets: ");
            reveal_strlit(", ");
        }
        let detail = String::from_str("missing project secrets: ").concat(join(&missing, ", ").as_str());
        return Err(VaultError::InvalidInput(detail));
    }
    Ok(())
}

/// Longest program path, in bytes.
pub const MAX_PROGRAM_BYTES: usize = 4096;

/// Most arguments of a command.
pub const MAX_ARGS: usize = 256;

/// Longest argument, in bytes.
pub const MAX_ARG_BYTES: usize = 16384;

/// The checks on a command before it is started: a non-blank program of at
/// most 4096 bytes without NUL, and at most 256 arguments of at most 16 KiB
/// without NUL.
pub fn validate_program(program: &str, args: &Vec<String>) -> (result: Result<(), VaultError>)
    ensures
        (spec_trim(program@).len() == 0 || crate::text::byte_len(program@) > MAX_PROGRAM_BYTES
            || program@.contains('\0')) ==> (result matches Err(e) && invalid_with(
            e,
            "invalid executable"@,
        )),
        !(spec_trim(program@).len() == 0 || crate::text::byte_len(program@) > MAX_PROGRAM_BYTES
            || program@.contains('\0')) ==> if args@.len() > MAX_ARGS || exists|i: int|
            0 <= i < args@.len() && (crate::text::byte_len((#[trigger] args@[i])@) > MAX_ARG_BYTES
                || args@[i]@.contains('\0')) {
            result matches Err(e) && invalid_with(e, "invalid command arguments"@)
        } else {
            result is Ok
        },
{
    let chars = chars_of(program);
    let trimmed = trim(chars.as_slice());
    if trimmed.len() == 0 || crate::text::byte_len_of(program) > MAX_PROGRAM_BYTES
        || crate::text::contains_char(chars.as_slice(), '\0') {
        return Err(invalid_input("invalid executable"));
    }
    if args.len() > MAX_ARGS {
        return Err(invalid_input("invalid command arguments"));
    }
    let mut i: usize = 0;
    while i < args.len()
        invariant
            i <= args@.len(),
            args@.len() <= MAX_ARGS,
            !(spec_trim(program@).len() == 0 || crate::text::byte_len(program@) > MAX_PROGRAM_BYTES
                || program@.contains('\0')),
            forall|j: int|
                0 <= j < i ==> !(crate::text::byte_len((#[trigger] args@[j])@) > MAX_ARG_BYTES
                    || args@[j]@.contains('\0')),
        decreases args@.len() - i,
    {
        let arg_chars = chars_of(args[i].as_str());
        if crate::text::byte_len_of(args[i].as_str()) > MAX_ARG_BYTES || crate::text::contains_char(
            arg_chars.as_slice(),
            '\0',
        ) {
            proof {
                assert(crate::text::byte_len(args@[i as int]@) > MAX_ARG_BYTES || args@[i as int]@.contains('\0'));
            }
            return Err(invalid_input("invalid command arguments"));
        }
        i = i + 1;
    }
    Ok(())
}

/// The parent environment variables a project command inherits.
pub fn safe_parent_variables() -> (result: Vec<&'static str>)
    ensures
        result@.len() == 18,
{
    let mut names: Vec<&'static str> = Vec::new();
    names.push("PATH");
    names.push("HOME");
    names.push("USER");
    names.push("LOGNAME");
    names.push("SHELL");
    names.push("LANG");
    names.push("LC_ALL");
    names.push("LC_CTYPE");
    names.push("TMPDIR");
    names.push("TMP");
    names.push("TEMP");
    names.push("SystemRoot");
    names.push("WINDIR");
    names.push("ComSpec");
    names.push("PATHEXT");
    names.push("APPDATA");
    names.push("LOCALAPPDATA");
    names.push("USERPROFILE");
    names
}

/// The plaintext dotenv files among a directory's file names, sorted.
pub fn plaintext_env_files(names: &Vec<String>) -> (result: Vec<String>)
    ensures
        crate::ordered::strictly_sorted(texts(result@)),
        texts(result@).to_set() == texts(names@).to_set().filter(|n: Seq<char>| spec_is_plaintext_env_name(n)),
{
    let mut files: Vec<String> = Vec::new();
    let ghost ns = texts(names@);
    let ghost pred = |n: Seq<char>| spec_is_plaintext_env_name(n);
    proof {
        crate::ordered::lemma_empty_sorted();
        assert(texts(files@) =~= Seq::<Seq<char>>::empty());
        assert(ns.take(0).to_set().filter(pred) =~= Set::<Seq<char>>::empty());
    }
    let mut i: usize = 0;
    while i < names.len()
        invariant
            i <= names@.len(),
            ns == texts(names@),
            pred == (|n: Seq<char>| spec_is_plaintext_env_name(n)),
            crate::ordered::strictly_sorted(texts(files@)),
            texts(files@).to_set() == ns.take(i as int).to_set().filter(pred),
        decreases names@.len() - i,
    {
        proof {
            assert(ns.take(i + 1) =~= ns.take(i as int).push(ns[i as int]));
            broadcast use vstd::seq_lib::group_seq_properties;
            assert(ns.take(i + 1).to_set() =~= ns.take(i as int).to_set().insert(ns[i as int]));
            assert(ns[i as int] == names@[i as int]@);
        }
        if is_plaintext_env_name(names[i].as_str()) {
            crate::ordered::insert_sorted(&mut files, String::from_str(names[i].as_str()));
            proof {
                assert(ns.take(i + 1).to_set().filter(pred) =~= ns.take(i as int).to_set().filter(
                    pred,
                ).insert(ns[i as int]));
            }
        } else {
            proof {
                assert(ns.take(i + 1).to_set().filter(pred) =~= ns.take(i as int).to_set().filter(
                    pred,
                ));
            }
        }
        i = i + 1;
    }
    proof {
        assert(ns.take(ns.len() as int) =~= ns);
    }
    files
}

/// The line that opens the vault's block in `.gitignore`.
pub open spec fn gitignore_begin() -> Seq<char> {
    "# >>> ND Secure plaintext environment files >>>"@
}

/// The line that closes the vault's block in `.gitignore`.
pub open spec fn gitignore_end() -> Seq<char> {
    "# <<< ND Secure plaintext environment files <<<"@
}

/// The vault's block: ignore every dotenv file but the value-free example.
pub open spec fn gitignore_block() -> Seq<char> {
    gitignore_begin() + "\n.env\n.env.*\n!.env.example\n"@ + gitignore_end() + "\n"@
}

/// `s` without leading line breaks.
pub open spec fn spec_trim_line_breaks(s: Seq<char>) -> Seq<char>
    decreases s.len(),
{
    if s.len() > 0 && (s[0] == '\r' || s[0] == '\n') {
        spec_trim_line_breaks(s.skip(1))
    } else {
        s
    }
}

/// `s` ending with a line break, unless it is empty.
pub open spec fn spec_end_line(s: Seq<char>) -> Seq<char> {
    if s.len() > 0 && s.last() != '\n' {
        s.push('\n')
    } else {
        s
    }
}

/// `.gitignore` with the vault's block put in: an existing block is
/// replaced and what follows it kept, else the block is appended after a
/// blank line. A begin line without its end, or after it, is refused.
pub open spec fn spec_gitignore_update(existing: Seq<char>) -> Option<Seq<char>> {
    match (crate::text::spec_find(existing, gitignore_begin()), crate::text::spec_find(existing, gitignore_end())) {
        (Some(b), Some(e)) => if b < e {
            let suffix = spec_trim_line_breaks(existing.skip(e + gitignore_end().len()));
            let head = existing.take(b) + gitignore_block();
            Some(
                if suffix.len() > 0 {
                    spec_end_line(head + suffix)
                } else {
                    head
                },
            )
        } else {
            None
        },
        (None, None) => {
            let with_break = spec_end_line(existing);
            let spaced = if with_break.len() > 0 {
                with_break.push('\n')
            } else {
                with_break
            };
            Some(spaced + gitignore_block())
        },
        _ => None,
    }
}

/// Puts the vault's block into a `.gitignore` text.
pub fn gitignore_update(existing: &str) -> (result: Result<String, VaultError>)
    ensures
        match spec_gitignore_update(existing@) {
            Some(updated) => result matches Ok(t) && t@ == updated,
            None => result matches Err(e) && invalid_with(
                e,
                "existing ND Secure .gitignore block is malformed"@,
            ),
        },
{
    proof {
        reveal_strlit("# >>> ND Secure plaintext environment files >>>");
        reveal_strlit("# <<< ND Secure plaintext environment files <<<");
        reveal_strlit("\n.env\n.env.*\n!.env.example\n");
        reveal_strlit("\n");
    }
    let chars = chars_of(existing);
    let managed = String::from_str("# >>> ND Secure plaintext environment files >>>").concat(
        "\n.env\n.env.*\n!.env.example\n",
    ).concat("# <<< ND Secure plaintext environment files <<<").concat("\n");
    let begin = crate::text::find_str(chars.as_slice(), "# >>> ND Secure plaintext environment files >>>");
    let end = crate::text::find_str(chars.as_slice(), "# <<< ND Secure plaintext environment files <<<");
    match (begin, end) {
        (Some(b), Some(e)) => {
            if b >= e {
                return Err(invalid_input("existing ND Secure .gitignore block is malformed"));
            }
            proof {
                let w = choose|w: int| crate::text::first_occurs_at(existing@, gitignore_end(), w);
                assert(w == e);
                assert(crate::text::occurs_at(existing@, gitignore_end(), w));
            }
            let n = chars.len();
            let suffix_start = e + 47;
            let head_chars = crate::text::chars_between(chars.as_slice(), 0, b);
            assert(head_chars@ =~= existing@.take(b as int));
            let rest = crate::text::chars_between(chars.as_slice(), suffix_start, n);
            assert(rest@ =~= existing@.skip(e + gitignore_end().len()));
            let suffix = trim_line_breaks(rest.as_slice());
            let mut out = string_from_chars(head_chars.as_slice()).concat(managed.as_str());
            if suffix.len() > 0 {
                out = out.concat(string_from_chars(suffix.as_slice()).as_str());
                let out_chars = chars_of(out.as_str());
                if !crate::text::ends_with_char(out_chars.as_slice(), '\n') {
                    out = out.concat("\n");
                }
            }
            Ok(out)
        },
        (None, None) => {
            let mut out = String::from_str(existing);
            let out_chars = chars_of(existing);
            if out_chars.len() > 0 && !crate::text::ends_with_char(out_chars.as_slice(), '\n') {
                out = out.concat("\n");
            }
            if out_chars.len() > 0 {
                out = out.concat("\n");
            }
            Ok(out.concat(managed.as_str()))
        },
        _ => Err(invalid_input("existing ND Secure .gitignore block is malformed")),
    }
}

/// Drops leading line breaks.
fn trim_line_breaks(text: &[char]) -> (result: Vec<char>)
    ensures
        result@ == spec_trim_line_breaks(text@),
{
    let mut i: usize = 0;
    assert(text@.skip(0) =~= text@);
    while i < text.len() && (text[i] == '\r' || text[i] == '\n')
        invariant
            i <= text@.len(),
            spec_trim_line_breaks(text@) == spec_trim_line_breaks(text@.skip(i as int)),
        decreases text@.len() - i,
    {
        proof {
            assert(text@.skip(i as int).skip(1) =~= text@.skip(i + 1));
        }
        i = i + 1;
    }
    let result = crate::text::chars_between(text, i, text.len());
    assert(result@ =~= text@.skip(i as int));
    result
}


/// What inspecting a project folder found: its canonical root, a name to
/// suggest, the keys its `.env.example` asks for and the plaintext dotenv
/// files lying in it.
pub struct ProjectInspection {
    pub root: String,
    pub suggested_name: String,
    pub example_exists: bool,
    pub required_keys: Vec<String>,
    pub plaintext_env_files: Vec<String>,
}

/// The name suggested for a project folder: the folder's own name, unless
/// it is missing or blank, then `project`.
pub open spec fn spec_suggested_name(folder_name: Option<Seq<char>>) -> Seq<char> {
    match folder_name {
        Some(name) => if spec_trim(name).len() > 0 {
            name
        } else {
            "project"@
        },
        None => "project"@,
    }
}

/// The name suggested for a project whose folder is called `folder_name`.
pub fn suggested_project_name(folder_name: Option<&str>) -> (result: String)
    ensures
        result@ == spec_suggested_name(
            match folder_name {
                Some(n) => Some(n@),
                None => None,
            },
        ),
{
    match folder_name {
        Some(name) => {
            let chars = chars_of(name);
            let trimmed = trim(chars.as_slice());
            if trimmed.len() > 0 {
                String::from_str(name)
            } else {
                String::from_str("project")
            }
        },
        None => String::from_str("project"),
    }
}

impl ProjectInspection {
    /// The inspection of the folder at `root`, whose last path component
    /// is `folder_name`.
    pub fn new(
        root: String,
        folder_name: Option<&str>,
        example_exists: bool,
        required_keys: Vec<String>,
        plaintext_env_files: Vec<String>,
    ) -> (result: Self)
        ensures
            result.root@ == root@,
            result.suggested_name@ == spec_suggested_name(
                match folder_name {
                    Some(n) => Some(n@),
                    None => None,
                },
            ),
            result.example_exists == example_exists,
            result.required_keys@ == required_keys@,
            result.plaintext_env_files@ == plaintext_env_files@,
    {
        let suggested_name = suggested_project_name(folder_name);
        ProjectInspection { root, suggested_name, example_exists, required_keys, plaintext_env_files }
    }
}

/// Which required keys of a project the vault holds for an environment.
pub struct ProjectEnvironmentStatus {
    pub project_id: String,
    pub environment: String,
    pub present_keys: Vec<String>,
    pub missing_keys: Vec<String>,
    pub plaintext_env_files: Vec<String>,
}

impl ProjectEnvironmentStatus {
    /// The status of `registration` in `environment`, given the secrets the
    /// vault holds there: the required keys split, in their order, into
    /// those held and those missing.
    pub fn new(
        registration: &ProjectRegistration,
        environment: &str,
        secrets: &Vec<(String, String)>,
        plaintext_env_files: Vec<String>,
    ) -> (result: Self)
        ensures
            result.project_id@ == registration.id@,
            result.environment@ == environment@,
            texts(result.present_keys@) == spec_keys_where(
                texts(registration.required_keys@),
                crate::ordered::entry_keys(crate::ordered::entry_views(secrets@)).to_set(),
                true,
            ),
            texts(result.missing_keys@) == spec_keys_where(
                texts(registration.required_keys@),
                crate::ordered::entry_keys(crate::ordered::entry_views(secrets@)).to_set(),
                false,
            ),
            result.plaintext_env_files@ == plaintext_env_files@,
    {
        let (present_keys, missing_keys) = partition_required_keys(&registration.required_keys, secrets);
        ProjectEnvironmentStatus {
            project_id: registration.id.clone(),
            environment: String::from_str(environment),
            present_keys,
            missing_keys,
            plaintext_env_files,
        }
    }
}

/// What importing a plaintext dotenv file did. Rotation of the imported
/// secrets is always recommended, since they lay on disk in plaintext.
pub struct ProjectEnvImportResult {
    pub imported_keys: Vec<String>,
    pub existing_keys: Vec<String>,
    pub source_removed: bool,
    pub rotation_recommended: bool,
}

impl ProjectEnvImportResult {
    /// The result of carrying out `plan`: its saved keys and the keys the
    /// vault already held, and whether the plaintext file was removed.
    pub fn from_plan(plan: &ImportPlan, source_removed: bool) -> (result: Self)
        ensures
            texts(result.imported_keys@) == crate::ordered::entry_keys(crate::ordered::entry_views(plan.to_save@)),
            texts(result.existing_keys@) == texts(plan.existing_keys@),
            result.source_removed == source_removed,
            result.rotation_recommended,
    {
        let mut imported_keys: Vec<String> = Vec::new();
        let mut i: usize = 0;
        while i < plan.to_save.len()
            invariant
                i <= plan.to_save.len(),
                texts(imported_keys@) == crate::ordered::entry_keys(crate::ordered::entry_views(plan.to_save@)).take(i as int),
            decreases plan.to_save.len() - i,
        {
            let ghost before = imported_keys@;
            let key = plan.to_save[i].0.clone();
            imported_keys.push(key);
            proof {
                assert(imported_keys@ == before.push(key));
                assert(texts(imported_keys@) =~= texts(before).push(key@));
                assert(crate::ordered::entry_views(plan.to_save@)[i as int].0 == plan.to_save@[i as int].0@);
                assert(texts(imported_keys@) =~= crate::ordered::entry_keys(crate::ordered::entry_views(plan.to_save@)).take(i + 1));
            }
            i = i + 1;
        }
        proof {
            assert(crate::ordered::entry_keys(crate::ordered::entry_views(plan.to_save@)).take(i as int)
                =~= crate::ordered::entry_keys(crate::ordered::entry_views(plan.to_save@)));
        }
        let mut existing_keys: Vec<String> = Vec::new();
        let mut j: usize = 0;
        while j < plan.existing_keys.len()
            invariant
                j <= plan.existing_keys.len(),
                texts(existing_keys@) == texts(plan.existing_keys@).take(j as int),
            decreases plan.existing_keys.len() - j,
        {
            let ghost before = existing_keys@;
            let key = plan.existing_keys[j].clone();
            existing_keys.push(key);
            proof {
                assert(texts(existing_keys@) =~= texts(before).push(key@));
                assert(texts(existing_keys@) =~= texts(plan.existing_keys@).take(j + 1));
            }
            j = j + 1;
        }
        proof {
            assert(texts(plan.existing_keys@).take(j as int) =~= texts(plan.existing_keys@));
        }
        ProjectEnvImportResult { imported_keys, existing_keys, source_removed, rotation_recommended: true }
    }
}

/// A command started with a project's secrets in its environment: its
/// process id and the keys that were injected.
pub struct ProjectCommandResult {
    pub pid: u32,
    pub injected_keys: Vec<String>,
}

impl ProjectCommandResult {
    /// The result of starting process `pid` for `registration`: every
    /// required key of the project was injected.
    pub fn started(pid: u32, registration: &ProjectRegistration) -> (result: Self)
        ensures
            result.pid == pid,
            texts(result.injected_keys@) == texts(registration.required_keys@),
    {
        let mut injected_keys: Vec<String> = Vec::new();
        let mut i: usize = 0;
        while i < registration.required_keys.len()
            invariant
                i <= registration.required_keys.len(),
                texts(injected_keys@) == texts(registration.required_keys@).take(i as int),
            decreases registration.required_keys.len() - i,
        {
            let ghost before = injected_keys@;
            let key = registration.required_keys[i].clone();
            injected_keys.push(key);
            proof {
                assert(texts(injected_keys@) =~= texts(before).push(key@));
                assert(texts(injected_keys@) =~= texts(registration.required_keys@).take(i + 1));
            }
            i = i + 1;
        }
        proof {
            assert(texts(registration.required_keys@).take(i as int) =~= texts(registration.required_keys@));
        }
        ProjectCommandResult { pid, injected_keys }
    }
}

} // verus!
