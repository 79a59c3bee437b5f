//! Credential records: their kinds, what a saved record keeps of its input,
//! the keys and associated data under which each record is sealed, and the
//! selection of the values handed out.
use vstd::prelude::*;
use crate::bytes::{be64, be64_signed, push_all, push_be64_signed};
use crate::crypto::{ascii_bytes, spec_ascii, derive_object_key, hkdf_sha256_32};
use crate::error::{VaultError, invalid_input};
use crate::ids::{uuid_parse, spec_uuid_text, spec_ascii_lowercase};
use crate::text::{byte_len, byte_len_of, chars_of, spec_trim, string_from_chars, trim, str_eq};

verus! {

/// Version of the sealed record format.
pub const FORMAT_VERSION: i64 = 1;

pub const MAX_TITLE_BYTES: usize = 512;

pub const MAX_USERNAME_BYTES: usize = 4096;

pub const MAX_PASSWORD_BYTES: usize = 16384;

pub const MAX_NOTES_BYTES: usize = 1048576;

pub const MAX_WEBSITES: usize = 64;

pub const MAX_WEBSITE_BYTES: usize = 4096;

/// Most keys a project may ask the vault for.
pub const MAX_PROJECT_SECRET_KEYS: usize = 2048;

/// The most passwords a record's history keeps.
pub const MAX_PASSWORD_HISTORY: usize = 10;

/// The kinds of credential record.
#[derive(Debug, Clone, Copy, PartialEq, Eq, Structural)]
pub enum CredentialType {
    Login,
    SecureNote,
    Totp,
    Secret,
}

/// The number a record kind is stored as.
pub open spec fn spec_type_code(t: CredentialType) -> i64 {
    match t {
        CredentialType::Login => 1,
        CredentialType::SecureNote => 2,
        CredentialType::Totp => 3,
        CredentialType::Secret => 4,
    }
}

impl CredentialType {
    /// The stored number of this kind.
    pub fn as_i64(self) -> (result: i64)
        ensures
            result == spec_type_code(self),
    {
        match self {
            CredentialType::Login => 1,
            CredentialType::SecureNote => 2,
            CredentialType::Totp => 3,
            CredentialType::Secret => 4,
        }
    }

    /// The kind stored as `value`; any other number means the row was not
    /// written by the vault.
    pub fn from_i64(value: i64) -> (result: Result<CredentialType, VaultError>)
        ensures
            match result {
                Ok(t) => spec_type_code(t) == value,
                Err(e) => e == VaultError::AuthenticationFailed && !(1 <= value <= 4),
            },
    {
        match value {
            1 => Ok(CredentialType::Login),
            2 => Ok(CredentialType::SecureNote),
            3 => Ok(CredentialType::Totp),
            4 => Ok(CredentialType::Secret),
            _ => Err(VaultError::AuthenticationFailed),
        }
    }
}

/// Reading back the stored number of a kind gives the kind; distinct kinds
/// are stored as distinct numbers.
pub proof fn lemma_type_code_round_trip(t: CredentialType, u: CredentialType)
    ensures
        1 <= spec_type_code(t) <= 4,
        spec_type_code(t) == spec_type_code(u) ==> t == u,
{
}

/// Whether a record belongs to the vault at large or to a project.
#[derive(Debug, Clone, Copy, PartialEq, Eq, Structural)]
pub enum CredentialScope {
    Central,
    Project,
}

impl Default for CredentialScope {
    fn default() -> (result: Self)
        ensures
            result == CredentialScope::Central,
    {
        CredentialScope::Central
    }
}

/// A named extra field of a record.
#[derive(Debug)]
pub struct CredentialField {
    pub name: String,
    pub value: String,
    pub hidden: bool,
}

/// A password a record held before.
#[derive(Debug)]
pub struct PasswordHistoryEntry {
    pub password: String,
    pub changed_at: i64,
}

/// What the user submits to create or update a record.
#[derive(Debug)]
pub struct CredentialInput {
    pub id: Option<String>,
    pub record_type: CredentialType,
    pub title: String,
    pub scope: CredentialScope,
    pub project: Option<String>,
    pub environment: Option<String>,
    pub folder: Option<String>,
    pub username: Option<String>,
    pub password: Option<String>,
    pub secret_value: Option<String>,
    pub websites: Vec<String>,
    pub notes: Option<String>,
    pub totp_secret: Option<String>,
    pub custom_fields: Vec<CredentialField>,
    pub favorite: bool,
}

/// A decrypted record.
#[derive(Debug)]
pub struct CredentialDetail {
    pub id: String,
    pub record_type: CredentialType,
    pub title: String,
    pub scope: CredentialScope,
    pub project: Option<String>,
    pub environment: Option<String>,
    pub folder: Option<String>,
    pub username: Option<String>,
    pub password: Option<String>,
    pub secret_value: Option<String>,
    pub websites: Vec<String>,
    pub notes: Option<String>,
    pub totp_secret: Option<String>,
    pub custom_fields: Vec<CredentialField>,
    pub password_history: Vec<PasswordHistoryEntry>,
    pub favorite: bool,
    pub created_at: i64,
    pub updated_at: i64,
}

/// What a list of records shows of each.
#[derive(Debug)]
pub struct CredentialSummary {
    pub id: String,
    pub record_type: CredentialType,
    pub title: String,
    pub scope: CredentialScope,
    pub project: Option<String>,
    pub environment: Option<String>,
    pub folder: Option<String>,
    pub username: Option<String>,
    pub favorite: bool,
    pub updated_at: i64,
}

/// One page of a record list and the cursor of the next page, if any.
#[derive(Debug)]
pub struct CredentialPage {
    pub items: Vec<CredentialSummary>,
    pub next_cursor: Option<String>,
}

/// The text of an optional string.
pub open spec fn opt_view(o: Option<String>) -> Option<Seq<char>> {
    match o {
        Some(s) => Some(s@),
        None => None,
    }
}

/// An optional text trimmed, and dropped when nothing is left.
pub open spec fn spec_clean(o: Option<Seq<char>>) -> Option<Seq<char>> {
    match o {
        Some(s) => if spec_trim(s).len() > 0 {
            Some(spec_trim(s))
        } else {
            None
        },
        None => None,
    }
}

/// An optional text dropped when empty.
pub open spec fn spec_non_empty(o: Option<Seq<char>>) -> Option<Seq<char>> {
    match o {
        Some(s) => if s.len() > 0 {
            Some(s)
        } else {
            None
        },
        None => None,
    }
}

/// Trims an optional text and drops it when nothing is left.
pub fn clean_optional(value: Option<String>) -> (result: Option<String>)
    ensures
        opt_view(result) == spec_clean(opt_view(value)),
{
    match value {
        Some(s) => {
            let chars = chars_of(s.as_str());
            let t = trim(chars.as_slice());
            if t.len() > 0 {
                Some(string_from_chars(t.as_slice()))
            } else {
                None
            }
        },
        None => None,
    }
}

/// Drops an optional text when it is empty.
fn non_empty(value: Option<String>) -> (result: Option<String>)
    ensures
        opt_view(result) == spec_non_empty(opt_view(value)),
{
    match value {
        Some(s) => if s.as_str().is_empty() {
            None
        } else {
            Some(s)
        },
        None => None,
    }
}

/// Reads a record id: `Err("invalid UUID")` when it does not parse,
/// `Err("UUID is not canonical")` when it is not the canonical text up to
/// ASCII case.
pub fn parse_uuid(value: &str) -> (result: Result<[u8; 16], VaultError>)
    ensures
        match uuid_parse(value@) {
            None => result matches Err(VaultError::InvalidInput(d)) && d@ == "invalid UUID"@,
            Some(b) => if b.len() == 16 && spec_uuid_text(b) == spec_ascii_lowercase(value@) {
                result matches Ok(id) && id@ == b
            } else {
                result matches Err(VaultError::InvalidInput(d)) && d@ == "UUID is not canonical"@
            },
        },
{
    let id = match crate::ids::uuid_parse_str(value) {
        Some(id) => id,
        None => return Err(invalid_input("invalid UUID")),
    };
    let canonical = crate::ids::uuid_text(&id);
    let lowered = crate::ids::ascii_lowercase(value);
    if !str_eq(canonical.as_str(), lowered.as_str()) {
        return Err(invalid_input("UUID is not canonical"));
    }
    Ok(id)
}

/// The label under which record keys are derived.
pub open spec fn record_label() -> Seq<u8> {
    spec_ascii("nd-secure/credential-record/v1"@)
}

/// The label that opens a record's associated data.
pub open spec fn record_aad_label() -> Seq<u8> {
    spec_ascii("nd-secure/credential-aad/v1"@)
}

/// The context of a record key: the label and the record's id.
pub open spec fn spec_record_context(id: Seq<u8>) -> Seq<u8> {
    record_label() + id
}

/// The key sealing one record, from the credentials root key and the
/// record's random salt.
pub fn record_key(root_key: &[u8; 32], salt: &[u8; 16], id: &[u8; 16]) -> (result: Result<
    [u8; 32],
    VaultError,
>)
    ensures
        result matches Ok(k) && k@ == hkdf_sha256_32(salt@, root_key@, spec_record_context(id@)),
{
    proof {
        reveal_strlit("nd-secure/credential-record/v1");
    }
    let mut context = ascii_bytes("nd-secure/credential-record/v1");
    push_all(&mut context, id);
    derive_object_key(root_key, salt, context.as_slice())
}

/// The associated data of a record: the label, the id, the kind's number
/// and the revision, both big-endian.
pub open spec fn spec_record_aad(id: Seq<u8>, record_type: CredentialType, revision: i64) -> Seq<u8> {
    record_aad_label() + id + be64_signed(spec_type_code(record_type)) + be64_signed(revision)
}

/// Builds a record's associated data.
pub fn record_aad(id: &[u8; 16], record_type: CredentialType, revision: i64) -> (result: Vec<u8>)
    ensures
        result@ == spec_record_aad(id@, record_type, revision),
{
    proof {
        reveal_strlit("nd-secure/credential-aad/v1");
    }
    let mut aad = ascii_bytes("nd-secure/credential-aad/v1");
    push_all(&mut aad, id);
    push_be64_signed(&mut aad, record_type.as_i64());
    push_be64_signed(&mut aad, revision);
    aad
}

/// The byte length of an optional text, zero when absent.
pub open spec fn opt_byte_len(o: Option<String>) -> usize {
    match o {
        Some(s) => byte_len(s@),
        None => 0,
    }
}

/// The size checks on a record's input.
pub open spec fn spec_sizes_ok(input: CredentialInput) -> bool {
    &&& opt_byte_len(input.username) <= MAX_USERNAME_BYTES
    &&& opt_byte_len(input.password) <= MAX_PASSWORD_BYTES
    &&& opt_byte_len(input.notes) <= MAX_NOTES_BYTES
    &&& input.websites@.len() <= MAX_WEBSITES
    &&& forall|i: int|
        0 <= i < input.websites@.len() ==> byte_len((#[trigger] input.websites@[i])@)
            <= MAX_WEBSITE_BYTES
}

/// The byte length of an optional text.
fn opt_len(o: &Option<String>) -> (result: usize)
    ensures
        result == opt_byte_len(*o),
{
    match o {
        Some(s) => byte_len_of(s.as_str()),
        None => 0,
    }
}

/// Checks a record's input before it is saved.
pub fn validate_input(input: &CredentialInput) -> (result: Result<(), VaultError>)
    ensures
        ({
            let title = spec_trim(input.title@);
            if title.len() == 0 || byte_len(title) > MAX_TITLE_BYTES {
                result matches Err(VaultError::InvalidInput(d)) && d@
                    == "credential title must contain 1 to 512 bytes"@
            } else if !spec_sizes_ok(*input) {
                result matches Err(VaultError::InvalidInput(d)) && d@
                    == "credential field exceeds its size limit"@
            } else if input.record_type == CredentialType::Totp {
                match input.totp_secret {
                    None => result matches Err(VaultError::InvalidInput(d)) && d@
                        == "TOTP secret is required"@,
                    Some(s) => (result is Ok <==> crate::totp::spec_secret_ok(s@)),
                }
            } else {
                result is Ok
            }
        }),
{
    let chars = chars_of(input.title.as_str());
    let t = trim(chars.as_slice());
    let title = string_from_chars(t.as_slice());
    if t.len() == 0 || byte_len_of(title.as_str()) > MAX_TITLE_BYTES {
        return Err(invalid_input("credential title must contain 1 to 512 bytes"));
    }
    let mut sizes_ok = opt_len(&input.username) <= MAX_USERNAME_BYTES && opt_len(&input.password)
        <= MAX_PASSWORD_BYTES && opt_len(&input.notes) <= MAX_NOTES_BYTES && input.websites.len()
        <= MAX_WEBSITES;
    let mut i: usize = 0;
    while sizes_ok && i < input.websites.len()
        invariant
            i <= input.websites@.len(),
            sizes_ok ==> forall|j: int|
                0 <= j < i ==> byte_len((#[trigger] input.websites@[j])@) <= MAX_WEBSITE_BYTES,
            !sizes_ok ==> !spec_sizes_ok(*input),
            sizes_ok ==> (opt_byte_len(input.username) <= MAX_USERNAME_BYTES && opt_byte_len(
                input.password,
            ) <= MAX_PASSWORD_BYTES && opt_byte_len(input.notes) <= MAX_NOTES_BYTES
                && input.websites@.len() <= MAX_WEBSITES),
        decreases input.websites@.len() - i,
    {
        if byte_len_of(input.websites[i].as_str()) > MAX_WEBSITE_BYTES {
            sizes_ok = false;
        }
        i = i + 1;
    }
    if !sizes_ok {
        return Err(invalid_input("credential field exceeds its size limit"));
    }
    if input.record_type == CredentialType::Totp {
        match &input.totp_secret {
            None => return Err(invalid_input("TOTP secret is required")),
            Some(secret) => {
                crate::totp::validate_totp_secret(secret.as_str())?;
            },
        }
    }
    Ok(())
}

/// Website texts trimmed, with empty ones dropped.
pub open spec fn spec_clean_websites(ws: Seq<Seq<char>>) -> Seq<Seq<char>>
    decreases ws.len(),
{
    if ws.len() == 0 {
        Seq::empty()
    } else if spec_trim(ws.last()).len() > 0 {
        spec_clean_websites(ws.drop_last()).push(spec_trim(ws.last()))
    } else {
        spec_clean_websites(ws.drop_last())
    }
}

/// The texts of a list of strings.
pub open spec fn texts(v: Seq<String>) -> Seq<Seq<char>> {
    v.map_values(|s: String| s@)
}

/// Trims website texts and drops empty ones.
fn clean_websites(websites: Vec<String>) -> (result: Vec<String>)
    ensures
        texts(result@) == spec_clean_websites(texts(websites@)),
{
    let mut out: Vec<String> = Vec::new();
    let mut i: usize = 0;
    while i < websites.len()
        invariant
            i <= websites@.len(),
            texts(out@) == spec_clean_websites(texts(websites@).take(i as int)),
        decreases websites@.len() - i,
    {
        let chars = chars_of(websites[i].as_str());
        let t = trim(chars.as_slice());
        proof {
            let ws = texts(websites@).take(i + 1);
            assert(ws.drop_last() =~= texts(websites@).take(i as int));
            assert(ws.last() == websites@[i as int]@);
        }
        if t.len() > 0 {
            let ghost before = out@;
            out.push(string_from_chars(t.as_slice()));
            proof {
                assert(texts(out@) =~= texts(before).push(t@));
            }
        }
        i = i + 1;
    }
    proof {
        assert(texts(websites@).take(websites@.len() as int) =~= texts(websites@));
    }
    out
}

/// What a saved record keeps of its input: the title trimmed, optional
/// texts cleaned, a project only for a project record, and only the fields
/// its kind uses.
/// A history as plain values: each replaced password with when it was
/// replaced.
pub open spec fn history_view(h: Seq<PasswordHistoryEntry>) -> Seq<(Seq<char>, i64)> {
    h.map_values(|e: PasswordHistoryEntry| (e.password@, e.changed_at))
}

/// The history before a save, with the replaced password first when it
/// changes.
pub open spec fn grown_history(
    old_password: Option<Seq<char>>,
    old_history: Seq<(Seq<char>, i64)>,
    new_password: Option<Seq<char>>,
    now: i64,
) -> Seq<(Seq<char>, i64)> {
    match old_password {
        Some(p) => if new_password == Some(p) {
            old_history
        } else {
            seq![(p, now)] + old_history
        },
        None => old_history,
    }
}

/// The password history a save keeps, newest first: a login carries the
/// history of the record it replaces, with that record's password added
/// when the password changes, and keeps at most `MAX_PASSWORD_HISTORY`
/// entries; other types, and new records, keep none.
pub open spec fn spec_next_history(
    login: bool,
    previous: Option<CredentialDetail>,
    new_password: Option<Seq<char>>,
    now: i64,
) -> Seq<(Seq<char>, i64)> {
    match previous {
        Some(prev) => if login {
            let grown = grown_history(
                opt_view(prev.password),
                history_view(prev.password_history@),
                new_password,
                now,
            );
            if grown.len() <= MAX_PASSWORD_HISTORY {
                grown
            } else {
                grown.take(MAX_PASSWORD_HISTORY as int)
            }
        } else {
            Seq::empty()
        },
        None => Seq::empty(),
    }
}

pub open spec fn spec_saved_detail(
    input: CredentialInput,
    id: Seq<char>,
    created_at: i64,
    now: i64,
    previous: Option<CredentialDetail>,
    detail: CredentialDetail,
) -> bool {
    let t = input.record_type;
    let username = spec_clean(opt_view(input.username));
    let password = spec_non_empty(opt_view(input.password));
    let secret = spec_non_empty(opt_view(input.secret_value));
    let websites = spec_clean_websites(texts(input.websites@));
    let totp = spec_clean(opt_view(input.totp_secret));
    &&& detail.id@ == id
    &&& detail.record_type == t
    &&& detail.title@ == spec_trim(input.title@)
    &&& detail.scope == input.scope
    &&& opt_view(detail.project) == (if input.scope == CredentialScope::Central {
        None
    } else {
        spec_clean(opt_view(input.project))
    })
    &&& opt_view(detail.environment) == spec_clean(opt_view(input.environment))
    &&& opt_view(detail.folder) == spec_clean(opt_view(input.folder))
    &&& opt_view(detail.username) == (if t == CredentialType::Login || t == CredentialType::Totp {
        username
    } else {
        None
    })
    &&& opt_view(detail.password) == (if t == CredentialType::Login {
        password
    } else {
        None
    })
    &&& opt_view(detail.secret_value) == (if t == CredentialType::Secret {
        secret
    } else {
        None
    })
    &&& texts(detail.websites@) == (if t == CredentialType::Login {
        websites
    } else {
        Seq::empty()
    })
    &&& opt_view(detail.notes) == spec_non_empty(opt_view(input.notes))
    &&& opt_view(detail.totp_secret) == (if t == CredentialType::Totp {
        totp
    } else {
        None
    })
    &&& detail.custom_fields@ == input.custom_fields@
    &&& history_view(detail.password_history@) == spec_next_history(
        t == CredentialType::Login,
        previous,
        opt_view(detail.password),
        now,
    )
    &&& detail.favorite == input.favorite
    &&& detail.created_at == created_at
    &&& detail.updated_at == now
}

/// The password history stays bounded and records every password change:
/// it never holds more than `MAX_PASSWORD_HISTORY` entries, and when a
/// login's password changes, the password it replaced comes first, stamped
/// with the time of the save, followed by the history it had.
pub proof fn lemma_password_history_bounded(
    login: bool,
    previous: Option<CredentialDetail>,
    new_password: Option<Seq<char>>,
    now: i64,
)
    ensures
        spec_next_history(login, previous, new_password, now).len() <= MAX_PASSWORD_HISTORY,
        login ==> (previous matches Some(prev) ==> (opt_view(prev.password) matches Some(p) ==> (
        new_password != Some(p) ==> {
            let h = spec_next_history(login, previous, new_password, now);
            &&& h[0] == (p, now)
            &&& forall|k: int|
                0 <= k < h.len() - 1 ==> h[k + 1] == history_view(prev.password_history@)[k]
        }))),
{
}

/// The password history a save keeps (see `spec_next_history`).
fn next_history(login: bool, previous: Option<CredentialDetail>, new_password: &Option<String>, now: i64) -> (result:
    Vec<PasswordHistoryEntry>)
    ensures
        history_view(result@) == spec_next_history(login, previous, opt_view(*new_password), now),
{
    if !login {
        return Vec::new();
    }
    let prev = match previous {
        Some(p) => p,
        None => return Vec::new(),
    };
    let ghost grown = grown_history(
        opt_view(prev.password),
        history_view(prev.password_history@),
        opt_view(*new_password),
        now,
    );
    let mut out: Vec<PasswordHistoryEntry> = Vec::new();
    let mut head: usize = 0;
    match &prev.password {
        Some(p) => {
            let same = match new_password {
                Some(n) => str_eq(n.as_str(), p.as_str()),
                None => false,
            };
            if !same {
                out.push(PasswordHistoryEntry { password: String::from_str(p.as_str()), changed_at: now });
                head = 1;
            }
        },
        None => {},
    }
    proof {
        assert(history_view(out@) =~= grown.take(out@.len() as int));
        assert(grown.len() == head + prev.password_history@.len());
        assert forall|k: int| 0 <= k < prev.password_history@.len() implies grown[head + k] == (
            (#[trigger] prev.password_history@[k]).password@,
            prev.password_history@[k].changed_at,
        ) by {
            assert(history_view(prev.password_history@)[k] == (
                prev.password_history@[k].password@,
                prev.password_history@[k].changed_at,
            ));
        }
    }
    let mut i: usize = 0;
    while i < prev.password_history.len() && out.len() < MAX_PASSWORD_HISTORY
        invariant
            head <= 1,
            i <= prev.password_history@.len(),
            out@.len() == head + i,
            out@.len() <= MAX_PASSWORD_HISTORY,
            grown.len() == head + prev.password_history@.len(),
            forall|k: int|
                0 <= k < prev.password_history@.len() ==> grown[head + k] == (
                    (#[trigger] prev.password_history@[k]).password@,
                    prev.password_history@[k].changed_at,
                ),
            history_view(out@) =~= grown.take(out@.len() as int),
        decreases prev.password_history@.len() - i,
    {
        let entry = &prev.password_history[i];
        out.push(PasswordHistoryEntry { password: String::from_str(entry.password.as_str()), changed_at: entry.changed_at });
        proof {
            assert(grown[head + i] == (entry.password@, entry.changed_at));
            assert(history_view(out@) =~= grown.take(out@.len() as int));
        }
        i = i + 1;
    }
    proof {
        if grown.len() <= MAX_PASSWORD_HISTORY {
            assert(out@.len() == grown.len());
            assert(grown.take(out@.len() as int) =~= grown);
        }
    }
    out
}

/// The record a save writes for `input` under `id`; `previous` is the
/// record it replaces, whose password history it carries.
pub fn saved_detail(input: CredentialInput, id: String, created_at: i64, now: i64, previous: Option<
    CredentialDetail,
>) -> (result: CredentialDetail)
    ensures
        spec_saved_detail(input, id@, created_at, now, previous, result),
{
    let ghost original = input;
    let record_type = input.record_type;
    let scope = input.scope;
    let title_chars = chars_of(input.title.as_str());
    let title = string_from_chars(trim(title_chars.as_slice()).as_slice());
    let project = match scope {
        CredentialScope::Central => None,
        CredentialScope::Project => clean_optional(input.project),
    };
    let environment = clean_optional(input.environment);
    let folder = clean_optional(input.folder);
    let username = clean_optional(input.username);
    let password = non_empty(input.password);
    let secret_value = non_empty(input.secret_value);
    let websites = clean_websites(input.websites);
    let notes = non_empty(input.notes);
    let totp_secret = clean_optional(input.totp_secret);
    let (username, password, secret_value, websites, totp_secret) = match record_type {
        CredentialType::Login => (username, password, None, websites, None),
        CredentialType::SecureNote => (None, None, None, Vec::new(), None),
        CredentialType::Totp => (username, None, None, Vec::new(), totp_secret),
        CredentialType::Secret => (None, None, secret_value, Vec::new(), None),
    };
    let result = CredentialDetail {
        id,
        record_type,
        title,
        scope,
        project,
        environment,
        folder,
        username,
        password,
        secret_value,
        websites,
        notes,
        totp_secret,
        custom_fields: input.custom_fields,
        password_history: Vec::new(),
        favorite: input.favorite,
        created_at,
        updated_at: now,
    };
    let mut result = result;
    result.password_history = next_history(record_type == CredentialType::Login, previous, &result.password, now);
    proof {
        if record_type != CredentialType::Login {
            assert(texts(result.websites@) =~= Seq::<Seq<char>>::empty());
        }
    }
    result
}

/// The list entry of a record.
pub fn summary_from_detail(detail: CredentialDetail) -> (result: CredentialSummary)
    ensures
        result.id == detail.id,
        result.record_type == detail.record_type,
        result.title == detail.title,
        result.scope == detail.scope,
        result.project == detail.project,
        result.environment == detail.environment,
        result.folder == detail.folder,
        result.username == detail.username,
        result.favorite == detail.favorite,
        result.updated_at == detail.updated_at,
{
    CredentialSummary {
        id: detail.id,
        record_type: detail.record_type,
        title: detail.title,
        scope: detail.scope,
        project: detail.project,
        environment: detail.environment,
        folder: detail.folder,
        username: detail.username,
        favorite: detail.favorite,
        updated_at: detail.updated_at,
    }
}

/// The id, creation time and revision a save writes: an update keeps the
/// stored creation time and raises the revision by one (saturating); a new
/// record starts at revision 1, created now. `stored` is the live row found
/// for the requested id, if one was requested.
pub fn save_identity(updating: bool, stored: Option<(i64, i64)>, now: i64) -> (result: Result<
    (i64, i64),
    VaultError,
>)
    ensures
        updating ==> match stored {
            None => result == Err::<(i64, i64), VaultError>(VaultError::NotFound),
            Some((created_at, revision)) => result == Ok::<(i64, i64), VaultError>(
                (created_at, if revision == i64::MAX {
                    i64::MAX
                } else {
                    (revision + 1) as i64
                }),
            ),
        },
        !updating ==> result == Ok::<(i64, i64), VaultError>((now, 1)),
{
    if updating {
        match stored {
            None => Err(VaultError::NotFound),
            Some((created_at, revision)) => Ok(
                (created_at, if revision == i64::MAX {
                    i64::MAX
                } else {
                    revision + 1
                }),
            ),
        }
    } else {
        Ok((now, 1))
    }
}

/// The record and revision a move to or from the trash writes: the record
/// as it was, updated now, at the next revision (saturating), so that it is
/// sealed afresh under the new revision.
pub fn transition_record(detail: CredentialDetail, revision: i64, now: i64) -> (result: (CredentialDetail, i64))
    ensures
        result.0 == (CredentialDetail { updated_at: now, ..detail }),
        result.1 == (if revision == i64::MAX {
            i64::MAX
        } else {
            (revision + 1) as i64
        }),
{
    let next = if revision == i64::MAX {
        i64::MAX
    } else {
        revision + 1
    };
    (CredentialDetail { updated_at: now, ..detail }, next)
}

/// A sealed record: its salt, nonce and ciphertext.
pub struct SealedRecord {
    pub salt: [u8; 16],
    pub nonce: [u8; 12],
    pub ciphertext: Vec<u8>,
}

/// Seals a record's serialized plaintext under a fresh salt and nonce.
pub fn seal_record(
    root_key: &[u8; 32],
    id: &[u8; 16],
    record_type: CredentialType,
    revision: i64,
    plaintext: &[u8],
) -> (result: Result<SealedRecord, VaultError>)
    ensures
        result is Ok <==> plaintext@.len() <= crate::crypto::AEAD_MAX_BYTES,
        result matches Ok(r) ==> r.ciphertext@ == crate::crypto::aes256gcm_seal(
            hkdf_sha256_32(r.salt@, root_key@, spec_record_context(id@)),
            r.nonce@,
            spec_record_aad(id@, record_type, revision),
            plaintext@,
        ),
        result matches Ok(r) ==> spec_open_sealed(root_key@, id@, record_type, revision, r.salt@, r.nonce@, r.ciphertext@)
            == Ok::<Seq<u8>, VaultError>(plaintext@),
        result matches Err(e) ==> e == VaultError::Crypto,
{
    let salt = crate::crypto::random_16();
    let nonce = crate::crypto::random_12();
    let key = record_key(root_key, &salt, id)?;
    let aad = record_aad(id, record_type, revision);
    proof {
        reveal_strlit("nd-secure/credential-aad/v1");
        assert(aad@.len() == 27 + 16 + 8 + 8);
    }
    let ciphertext = crate::crypto::aead_seal(&key, &nonce, aad.as_slice(), plaintext)?;
    Ok(SealedRecord { salt, nonce, ciphertext })
}

/// A stored row of a sealed record, before it is opened.
pub struct EncryptedRow {
    pub id: [u8; 16],
    pub record_type: CredentialType,
    pub salt: [u8; 16],
    pub nonce: [u8; 12],
    pub ciphertext: Vec<u8>,
    pub format_version: i64,
    pub revision: i64,
    pub created_at: i64,
    pub updated_at: i64,
}

/// Opening a row: the format and revision must be ones the vault writes,
/// and the ciphertext must authenticate under the row's own key and
/// associated data.
pub open spec fn spec_open_row(root_key: Seq<u8>, row: EncryptedRow) -> Result<Seq<u8>, VaultError> {
    if row.format_version != FORMAT_VERSION || row.revision <= 0 {
        Err(VaultError::AuthenticationFailed)
    } else {
        spec_open_sealed(root_key, row.id@, row.record_type, row.revision, row.salt@, row.nonce@, row.ciphertext@)
    }
}

/// Opening a sealed record of `id`, kind and revision: AES-GCM under the
/// record key from `salt`, with the record's associated data.
pub open spec fn spec_open_sealed(
    root_key: Seq<u8>,
    id: Seq<u8>,
    record_type: CredentialType,
    revision: i64,
    salt: Seq<u8>,
    nonce: Seq<u8>,
    ciphertext: Seq<u8>,
) -> Result<Seq<u8>, VaultError> {
    match crate::crypto::aes256gcm_open(
        hkdf_sha256_32(salt, root_key, spec_record_context(id)),
        nonce,
        spec_record_aad(id, record_type, revision),
        ciphertext,
    ) {
        Some(plain) => Ok(plain),
        None => Err(VaultError::AuthenticationFailed),
    }
}

/// Opens a stored row, giving the serialized record.
pub fn open_row(root_key: &[u8; 32], row: &EncryptedRow) -> (result: Result<Vec<u8>, VaultError>)
    ensures
        match spec_open_row(root_key@, *row) {
            Ok(plain) => result matches Ok(p) && p@ == plain,
            Err(e) => result == Err::<Vec<u8>, VaultError>(e),
        },
{
    if row.format_version != FORMAT_VERSION || row.revision <= 0 {
        return Err(VaultError::AuthenticationFailed);
    }
    let key = record_key(root_key, &row.salt, &row.id)?;
    let aad = record_aad(&row.id, row.record_type, row.revision);
    match crate::crypto::aead_open(&key, &row.nonce, aad.as_slice(), row.ciphertext.as_slice()) {
        Some(plain) => Ok(plain),
        None => Err(VaultError::AuthenticationFailed),
    }
}

/// The decoded record agrees with the row it came from: id, kind and
/// times; otherwise the record was moved or altered.
pub fn check_detail_matches_row(detail: &CredentialDetail, row: &EncryptedRow) -> (result: Result<
    (),
    VaultError,
>)
    ensures
        result is Ok <==> (detail.id@ == spec_uuid_text(row.id@) && detail.record_type == row.record_type
            && detail.created_at == row.created_at && detail.updated_at == row.updated_at),
        result matches Err(e) ==> e == VaultError::AuthenticationFailed,
{
    let text = crate::ids::uuid_text(&row.id);
    if !str_eq(detail.id.as_str(), text.as_str()) || detail.record_type != row.record_type
        || detail.created_at != row.created_at || detail.updated_at != row.updated_at {
        return Err(VaultError::AuthenticationFailed);
    }
    Ok(())
}

/// An optional text, or the empty text.
pub open spec fn or_empty(o: Option<String>) -> Seq<char> {
    match o {
        Some(s) => s@,
        None => Seq::empty(),
    }
}

/// The value a field name selects from a record: `username`, `password`,
/// `secret`, `notes`, or `custom:{index}`; empty values are refused.
pub open spec fn spec_field_value(detail: CredentialDetail, field: Seq<char>) -> Result<Seq<char>, Seq<char>> {
    let value = if field == "username"@ {
        Ok(or_empty(detail.username))
    } else if field == "password"@ {
        Ok(or_empty(detail.password))
    } else if field == "secret"@ {
        Ok(or_empty(detail.secret_value))
    } else if field == "notes"@ {
        Ok(or_empty(detail.notes))
    } else if crate::text::spec_starts_with(field, "custom:"@) {
        match crate::text::spec_parse_u64(field.skip(7)) {
            None => Err("invalid custom field index"@),
            Some(index) => if index < detail.custom_fields@.len() {
                Ok(detail.custom_fields@[index as int].value@)
            } else {
                Err("custom field not found"@)
            },
        }
    } else {
        Err("unsupported credential field"@)
    };
    match value {
        Ok(v) => if v.len() == 0 {
            Err("credential field is empty"@)
        } else {
            Ok(v)
        },
        Err(d) => Err(d),
    }
}

/// An optional text, or the empty text.
fn text_or_empty(o: &Option<String>) -> (result: String)
    ensures
        result@ == or_empty(*o),
{
    match o {
        Some(s) => String::from_str(s.as_str()),
        None => String::new(),
    }
}

/// The value of one field of a record, for copying.
pub fn field_value(detail: &CredentialDetail, field: &str) -> (result: Result<String, VaultError>)
    ensures
        match spec_field_value(*detail, field@) {
            Ok(v) => result matches Ok(s) && s@ == v,
            Err(d) => result matches Err(VaultError::InvalidInput(m)) && m@ == d,
        },
{
    proof {
        reveal_strlit("custom:");
    }
    let chars = chars_of(field);
    let value = if str_eq(field, "username") {
        text_or_empty(&detail.username)
    } else if str_eq(field, "password") {
        text_or_empty(&detail.password)
    } else if str_eq(field, "secret") {
        text_or_empty(&detail.secret_value)
    } else if str_eq(field, "notes") {
        text_or_empty(&detail.notes)
    } else if crate::text::starts_with(chars.as_slice(), "custom:") {
        let digits = crate::text::chars_between(chars.as_slice(), 7, chars.len());
        assert(digits@ =~= field@.skip(7));
        let index = match crate::text::parse_u64(digits.as_slice()) {
            Some(i) => i,
            None => return Err(invalid_input("invalid custom field index")),
        };
        if index >= detail.custom_fields.len() as u64 {
            return Err(invalid_input("custom field not found"));
        }
        String::from_str(detail.custom_fields[index as usize].value.as_str())
    } else {
        return Err(invalid_input("unsupported credential field"));
    };
    if value.as_str().is_empty() {
        return Err(invalid_input("credential field is empty"));
    }
    Ok(value)
}

/// The secret of a one-time-code record.
pub fn totp_secret_of(detail: &CredentialDetail) -> (result: Result<String, VaultError>)
    ensures
        detail.record_type != CredentialType::Totp ==> (result matches Err(VaultError::InvalidInput(d))
            && d@ == "credential is not a TOTP record"@),
        detail.record_type == CredentialType::Totp ==> match detail.totp_secret {
            Some(s) => if s@.len() > 0 {
                result matches Ok(t) && t@ == s@
            } else {
                result matches Err(VaultError::InvalidInput(d)) && d@ == "TOTP record has no secret"@
            },
            None => result matches Err(VaultError::InvalidInput(d)) && d@
                == "TOTP record has no secret"@,
        },
{
    if detail.record_type != CredentialType::Totp {
        return Err(invalid_input("credential is not a TOTP record"));
    }
    match &detail.totp_secret {
        Some(s) => if s.as_str().is_empty() {
            Err(invalid_input("TOTP record has no secret"))
        } else {
            Ok(String::from_str(s.as_str()))
        },
        None => Err(invalid_input("TOTP record has no secret")),
    }
}

/// The record is the secret `key` of `project` in exactly `environment`.
pub open spec fn spec_is_project_secret(
    detail: CredentialDetail,
    project: Seq<char>,
    environment: Seq<char>,
    required: Seq<Seq<char>>,
) -> bool {
    &&& detail.record_type == CredentialType::Secret
    &&& detail.scope == CredentialScope::Project
    &&& opt_view(detail.project) == Some(project)
    &&& opt_view(detail.environment) == Some(environment)
    &&& required.contains(detail.title@)
}

/// Whether a record is one of a project environment's required secrets;
/// there is no fall-back to another environment or to unscoped records.
pub fn is_project_secret(
    detail: &CredentialDetail,
    project: &str,
    environment: &str,
    required_keys: &Vec<String>,
) -> (result: bool)
    ensures
        result == spec_is_project_secret(*detail, project@, environment@, texts(required_keys@)),
{
    if detail.record_type != CredentialType::Secret || detail.scope != CredentialScope::Project {
        return false;
    }
    let project_ok = match &detail.project {
        Some(p) => str_eq(p.as_str(), project),
        None => false,
    };
    let environment_ok = match &detail.environment {
        Some(e) => str_eq(e.as_str(), environment),
        None => false,
    };
    if !project_ok || !environment_ok {
        return false;
    }
    let found = crate::env::contains_text(required_keys, detail.title.as_str());
    proof {
        assert(crate::env::texts(required_keys@) == texts(required_keys@));
    }
    found
}

/// Why the secrets of a project environment cannot be handed out.
pub enum SecretsIssue {
    /// A matching record has no value.
    MissingValue,
    /// Two records claim this key.
    Duplicate(Seq<char>),
}

/// The secrets of a project environment found in `details`, added to `acc`
/// in order.
pub open spec fn spec_secrets_from(
    details: Seq<CredentialDetail>,
    project: Seq<char>,
    environment: Seq<char>,
    required: Seq<Seq<char>>,
    acc: Map<Seq<char>, Seq<char>>,
) -> Result<Map<Seq<char>, Seq<char>>, SecretsIssue>
    decreases details.len(),
{
    if details.len() == 0 {
        Ok(acc)
    } else {
        let d = details[0];
        let rest = details.skip(1);
        if !spec_is_project_secret(d, project, environment, required) {
            spec_secrets_from(rest, project, environment, required, acc)
        } else {
            match spec_non_empty(opt_view(d.secret_value)) {
                None => Err(SecretsIssue::MissingValue),
                Some(v) => if acc.dom().contains(d.title@) {
                    Err(SecretsIssue::Duplicate(d.title@))
                } else {
                    spec_secrets_from(rest, project, environment, required, acc.insert(d.title@, v))
                },
            }
        }
    }
}

/// The values of a project environment's required secrets, sorted by key,
/// from the decrypted live secret records.
pub fn project_secret_values(
    details: &Vec<CredentialDetail>,
    project: &str,
    environment: &str,
    required_keys: &Vec<String>,
) -> (result: Result<Vec<(String, String)>, VaultError>)
    ensures
        required_keys@.len() > MAX_PROJECT_SECRET_KEYS ==> (result matches Err(
            VaultError::InvalidInput(d),
        ) && d@ == "too many project secret keys"@),
        required_keys@.len() <= MAX_PROJECT_SECRET_KEYS ==> match spec_secrets_from(
            details@,
            project@,
            environment@,
            texts(required_keys@),
            Map::empty(),
        ) {
            Ok(m) => result matches Ok(v) && crate::ordered::strictly_sorted(
                crate::ordered::entry_keys(crate::ordered::entry_views(v@)),
            ) && crate::ordered::entries_map(crate::ordered::entry_views(v@)) == m,
            Err(SecretsIssue::MissingValue) => result == Err::<Vec<(String, String)>, VaultError>(
                VaultError::AuthenticationFailed,
            ),
            Err(SecretsIssue::Duplicate(key)) => result matches Err(VaultError::InvalidInput(d))
                && d@ == "multiple project secrets are configured for "@ + key,
        },
{
    if required_keys.len() > MAX_PROJECT_SECRET_KEYS {
        return Err(invalid_input("too many project secret keys"));
    }
    let ghost rk = texts(required_keys@);
    let mut values: Vec<(String, String)> = Vec::new();
    proof {
        assert(crate::ordered::entry_views(values@) =~= Seq::<(Seq<char>, Seq<char>)>::empty());
        assert(crate::ordered::entry_keys(crate::ordered::entry_views(values@)) =~= Seq::<
            Seq<char>,
        >::empty());
        assert(crate::ordered::entries_map(crate::ordered::entry_views(values@)) =~= Map::<
            Seq<char>,
            Seq<char>,
        >::empty());
        assert(details@.skip(0) =~= details@);
    }
    let mut i: usize = 0;
    while i < details.len()
        invariant
            i <= details@.len(),
            rk == texts(required_keys@),
            required_keys@.len() <= MAX_PROJECT_SECRET_KEYS,
            crate::ordered::strictly_sorted(
                crate::ordered::entry_keys(crate::ordered::entry_views(values@)),
            ),
            spec_secrets_from(details@, project@, environment@, rk, Map::empty())
                == spec_secrets_from(
                details@.skip(i as int),
                project@,
                environment@,
                rk,
                crate::ordered::entries_map(crate::ordered::entry_views(values@)),
            ),
        decreases details@.len() - i,
    {
        let d = &details[i];
        proof {
            assert(details@.skip(i as int)[0] == details@[i as int]);
            assert(details@.skip(i as int).skip(1) =~= details@.skip(i + 1));
        }
        if is_project_secret(d, project, environment, required_keys) {
            let value = match &d.secret_value {
                Some(v) => if v.as_str().is_empty() {
                    return Err(VaultError::AuthenticationFailed);
                } else {
                    String::from_str(v.as_str())
                },
                None => return Err(VaultError::AuthenticationFailed),
            };
            proof {
                crate::ordered::lemma_entries_map_dom(crate::ordered::entry_views(values@));
            }
            let found = crate::ordered::find_entry(&values, d.title.as_str());
            if let Some(j) = found {
                proof {
                    reveal_strlit("multiple project secrets are configured for ");
                    let ks = crate::ordered::entry_keys(crate::ordered::entry_views(values@));
                    assert(ks[j as int] == d.title@);
                    assert(ks.contains(d.title@));
                    assert(ks.to_set().contains(d.title@));
                }
                let detail = String::from_str("multiple project secrets are configured for ").concat(
                    d.title.as_str(),
                );
                return Err(VaultError::InvalidInput(detail));
            }
            crate::ordered::insert_entry(&mut values, String::from_str(d.title.as_str()), value);
        }
        i = i + 1;
    }
    proof {
        assert(details@.skip(details@.len() as int) =~= Seq::<CredentialDetail>::empty());
    }
    Ok(values)
}

} // verus!
