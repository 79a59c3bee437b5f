//! The vault health check's bookkeeping: counts of what was checked and
//! the issues found, at most `MAX_REPORTED_ISSUES` of them kept in full.
use vstd::prelude::*;
use crate::error::VaultError;

verus! {

/// Issues kept in full in a report; the rest are only counted.
pub const MAX_REPORTED_ISSUES: usize = 50;

/// Items fetched per page while walking an index.
pub const PAGE_SIZE: u32 = 200;

/// One problem the check found.
#[derive(Debug)]
pub struct VaultHealthIssue {
    pub area: String,
    pub id: Option<String>,
    pub message: String,
}

/// The outcome of a health check.
#[derive(Debug)]
pub struct VaultHealthReport {
    pub healthy: bool,
    pub checked_at: i64,
    pub gallery_items: u64,
    pub gallery_trash_items: u64,
    pub credential_items: u64,
    pub credential_trash_items: u64,
    pub verified_media_bytes: u64,
    pub total_issues: u64,
    pub issues: Vec<VaultHealthIssue>,
}

/// The kinds of problem the check reports, each with its area and text.
#[derive(Debug, Clone, Copy, PartialEq, Eq, Structural)]
pub enum HealthProblem {
    GalleryDatabaseCorrupt,
    GalleryDatabaseUnchecked,
    CredentialDatabaseCorrupt,
    CredentialDatabaseUnchecked,
    GalleryIndexUnreadable,
    GalleryInvalidId,
    GalleryMediaFailed,
    GalleryThumbnailFailed,
    GalleryCursorRepeated,
    TrashIndexUnreadable,
    TrashInvalidId,
    TrashItemFailed,
    TrashCursorRepeated,
    CredentialsUnreadable,
    CredentialCursorRepeated,
    CredentialTrashUnreadable,
    CredentialTrashCursorRepeated,
}

/// The area and the text a problem is reported with.
pub open spec fn spec_problem_text(p: HealthProblem) -> (Seq<char>, Seq<char>) {
    match p {
        HealthProblem::GalleryDatabaseCorrupt => (
            "gallery database"@,
            "SQLite structural integrity check failed"@,
        ),
        HealthProblem::GalleryDatabaseUnchecked => (
            "gallery database"@,
            "Unable to complete SQLite structural integrity check"@,
        ),
        HealthProblem::CredentialDatabaseCorrupt => (
            "credential database"@,
            "SQLite structural integrity check failed"@,
        ),
        HealthProblem::CredentialDatabaseUnchecked => (
            "credential database"@,
            "Unable to complete SQLite structural integrity check"@,
        ),
        HealthProblem::GalleryIndexUnreadable => (
            "gallery"@,
            "Unable to enumerate the encrypted gallery index"@,
        ),
        HealthProblem::GalleryInvalidId => (
            "gallery"@,
            "Gallery index contains an invalid item identifier"@,
        ),
        HealthProblem::GalleryMediaFailed => (
            "gallery media"@,
            "Encrypted media container failed authentication or could not be read"@,
        ),
        HealthProblem::GalleryThumbnailFailed => (
            "gallery thumbnail"@,
            "Encrypted thumbnail failed authentication or could not be read"@,
        ),
        HealthProblem::GalleryCursorRepeated => (
            "gallery"@,
            "Gallery pagination cursor repeated unexpectedly"@,
        ),
        HealthProblem::TrashIndexUnreadable => (
            "gallery trash"@,
            "Unable to authenticate the encrypted media Trash index"@,
        ),
        HealthProblem::TrashInvalidId => (
            "gallery trash"@,
            "Media Trash contains an invalid item identifier"@,
        ),
        HealthProblem::TrashItemFailed => (
            "gallery trash"@,
            "Trashed encrypted media failed authentication or could not be read"@,
        ),
        HealthProblem::TrashCursorRepeated => (
            "gallery trash"@,
            "Media Trash pagination cursor repeated unexpectedly"@,
        ),
        HealthProblem::CredentialsUnreadable => (
            "credentials"@,
            "Encrypted credential records failed authentication or could not be read"@,
        ),
        HealthProblem::CredentialCursorRepeated => (
            "credentials"@,
            "Credential pagination cursor repeated unexpectedly"@,
        ),
        HealthProblem::CredentialTrashUnreadable => (
            "credential trash"@,
            "Encrypted credential records failed authentication or could not be read"@,
        ),
        HealthProblem::CredentialTrashCursorRepeated => (
            "credential trash"@,
            "Credential pagination cursor repeated unexpectedly"@,
        ),
    }
}

/// The area and text of a problem.
pub fn problem_text(p: HealthProblem) -> (result: (&'static str, &'static str))
    ensures
        (result.0@, result.1@) == spec_problem_text(p),
{
    match p {
        HealthProblem::GalleryDatabaseCorrupt => (
            "gallery database",
            "SQLite structural integrity check failed",
        ),
        HealthProblem::GalleryDatabaseUnchecked => (
            "gallery database",
            "Unable to complete SQLite structural integrity check",
        ),
        HealthProblem::CredentialDatabaseCorrupt => (
            "credential database",
            "SQLite structural integrity check failed",
        ),
        HealthProblem::CredentialDatabaseUnchecked => (
            "credential database",
            "Unable to complete SQLite structural integrity check",
        ),
        HealthProblem::GalleryIndexUnreadable => (
            "gallery",
            "Unable to enumerate the encrypted gallery index",
        ),
        HealthProblem::GalleryInvalidId => (
            "gallery",
            "Gallery index contains an invalid item identifier",
        ),
        HealthProblem::GalleryMediaFailed => (
            "gallery media",
            "Encrypted media container failed authentication or could not be read",
        ),
        HealthProblem::GalleryThumbnailFailed => (
            "gallery thumbnail",
            "Encrypted thumbnail failed authentication or could not be read",
        ),
        HealthProblem::GalleryCursorRepeated => (
            "gallery",
            "Gallery pagination cursor repeated unexpectedly",
        ),
        HealthProblem::TrashIndexUnreadable => (
            "gallery trash",
            "Unable to authenticate the encrypted media Trash index",
        ),
        HealthProblem::TrashInvalidId => (
            "gallery trash",
            "Media Trash contains an invalid item identifier",
        ),
        HealthProblem::TrashItemFailed => (
            "gallery trash",
            "Trashed encrypted media failed authentication or could not be read",
        ),
        HealthProblem::TrashCursorRepeated => (
            "gallery trash",
            "Media Trash pagination cursor repeated unexpectedly",
        ),
        HealthProblem::CredentialsUnreadable => (
            "credentials",
            "Encrypted credential records failed authentication or could not be read",
        ),
        HealthProblem::CredentialCursorRepeated => (
            "credentials",
            "Credential pagination cursor repeated unexpectedly",
        ),
        HealthProblem::CredentialTrashUnreadable => (
            "credential trash",
            "Encrypted credential records failed authentication or could not be read",
        ),
        HealthProblem::CredentialTrashCursorRepeated => (
            "credential trash",
            "Credential pagination cursor repeated unexpectedly",
        ),
    }
}

/// What a health check has counted and found so far.
pub struct HealthAccumulator {
    pub gallery_items: u64,
    pub gallery_trash_items: u64,
    pub credential_items: u64,
    pub credential_trash_items: u64,
    pub verified_media_bytes: u64,
    pub total_issues: u64,
    pub issues: Vec<VaultHealthIssue>,
}

/// `a + b`, or `u64::MAX` where that overflows.
pub open spec fn saturating(a: u64, b: u64) -> u64 {
    if a + b > u64::MAX {
        u64::MAX
    } else {
        (a + b) as u64
    }
}

impl HealthAccumulator {
    /// Nothing counted, nothing found.
    pub fn new() -> (result: Self)
        ensures
            result.gallery_items == 0 && result.gallery_trash_items == 0
                && result.credential_items == 0 && result.credential_trash_items == 0
                && result.verified_media_bytes == 0 && result.total_issues == 0
                && result.issues@.len() == 0,
    {
        HealthAccumulator {
            gallery_items: 0,
            gallery_trash_items: 0,
            credential_items: 0,
            credential_trash_items: 0,
            verified_media_bytes: 0,
            total_issues: 0,
            issues: Vec::new(),
        }
    }

    /// Records an issue: always counted, kept in full while fewer than
    /// `MAX_REPORTED_ISSUES` are kept.
    pub fn issue(&mut self, area: &str, id: Option<String>, message: &str)
        ensures
            final(self).total_issues == saturating(old(self).total_issues, 1),
            old(self).issues@.len() < MAX_REPORTED_ISSUES ==> {
                &&& final(self).issues@.len() == old(self).issues@.len() + 1
                &&& final(self).issues@.drop_last() == old(self).issues@
                &&& final(self).issues@.last().area@ == area@
                &&& final(self).issues@.last().message@ == message@
                &&& final(self).issues@.last().id == id
            },
            old(self).issues@.len() >= MAX_REPORTED_ISSUES ==> final(self).issues@ == old(
                self,
            ).issues@,
            final(self).gallery_items == old(self).gallery_items,
            final(self).gallery_trash_items == old(self).gallery_trash_items,
            final(self).credential_items == old(self).credential_items,
            final(self).credential_trash_items == old(self).credential_trash_items,
            final(self).verified_media_bytes == old(self).verified_media_bytes,
    {
        self.total_issues = self.total_issues.saturating_add(1);
        if self.issues.len() < MAX_REPORTED_ISSUES {
            let ghost before = self.issues@;
            self.issues.push(
                VaultHealthIssue {
                    area: String::from_str(area),
                    id,
                    message: String::from_str(message),
                },
            );
            assert(self.issues@.drop_last() =~= before);
        }
    }

    /// Records a problem of a known kind.
    pub fn problem(&mut self, problem: HealthProblem, id: Option<String>)
        ensures
            final(self).total_issues == saturating(old(self).total_issues, 1),
            old(self).issues@.len() < MAX_REPORTED_ISSUES ==> {
                &&& final(self).issues@.len() == old(self).issues@.len() + 1
                &&& final(self).issues@.drop_last() == old(self).issues@
                &&& (final(self).issues@.last().area@, final(self).issues@.last().message@)
                    == spec_problem_text(problem)
                &&& final(self).issues@.last().id == id
            },
            old(self).issues@.len() >= MAX_REPORTED_ISSUES ==> final(self).issues@ == old(
                self,
            ).issues@,
            final(self).gallery_items == old(self).gallery_items,
            final(self).gallery_trash_items == old(self).gallery_trash_items,
            final(self).credential_items == old(self).credential_items,
            final(self).credential_trash_items == old(self).credential_trash_items,
            final(self).verified_media_bytes == old(self).verified_media_bytes,
    {
        let (area, message) = problem_text(problem);
        self.issue(area, id, message);
    }

    /// Counts verified plaintext bytes.
    pub fn verified_bytes(&mut self, bytes: u64)
        ensures
            final(self).verified_media_bytes == saturating(old(self).verified_media_bytes, bytes),
            final(self).total_issues == old(self).total_issues,
            final(self).issues@ == old(self).issues@,
    {
        self.verified_media_bytes = self.verified_media_bytes.saturating_add(bytes);
    }

    /// Counts gallery items walked.
    pub fn count_gallery_items(&mut self, n: u64)
        ensures
            final(self).gallery_items == saturating(old(self).gallery_items, n),
            final(self).gallery_trash_items == old(self).gallery_trash_items,
            final(self).credential_items == old(self).credential_items,
            final(self).credential_trash_items == old(self).credential_trash_items,
            final(self).total_issues == old(self).total_issues,
            final(self).issues@ == old(self).issues@,
    {
        self.gallery_items = self.gallery_items.saturating_add(n);
    }

    /// Counts gallery trash items walked.
    pub fn count_gallery_trash_items(&mut self, n: u64)
        ensures
            final(self).gallery_trash_items == saturating(old(self).gallery_trash_items, n),
            final(self).gallery_items == old(self).gallery_items,
            final(self).credential_items == old(self).credential_items,
            final(self).credential_trash_items == old(self).credential_trash_items,
            final(self).total_issues == old(self).total_issues,
            final(self).issues@ == old(self).issues@,
    {
        self.gallery_trash_items = self.gallery_trash_items.saturating_add(n);
    }

    /// Counts the credential records of one page, live or in the trash.
    pub fn count_credentials(&mut self, page_items: usize, trash: bool)
        ensures
            trash ==> final(self).credential_trash_items == saturating(
                old(self).credential_trash_items,
                page_items as u64,
            ) && final(self).credential_items == old(self).credential_items,
            !trash ==> final(self).credential_items == saturating(
                old(self).credential_items,
                page_items as u64,
            ) && final(self).credential_trash_items == old(self).credential_trash_items,
            final(self).gallery_items == old(self).gallery_items,
            final(self).gallery_trash_items == old(self).gallery_trash_items,
            final(self).total_issues == old(self).total_issues,
            final(self).issues@ == old(self).issues@,
    {
        let count = page_items as u64;
        if trash {
            self.credential_trash_items = self.credential_trash_items.saturating_add(count);
        } else {
            self.credential_items = self.credential_items.saturating_add(count);
        }
    }

    /// The report, checked at `checked_at`: healthy exactly when no issue
    /// was found.
    pub fn report(self, checked_at: i64) -> (result: VaultHealthReport)
        ensures
            result.healthy == (self.total_issues == 0),
            result.checked_at == checked_at,
            result.gallery_items == self.gallery_items,
            result.gallery_trash_items == self.gallery_trash_items,
            result.credential_items == self.credential_items,
            result.credential_trash_items == self.credential_trash_items,
            result.verified_media_bytes == self.verified_media_bytes,
            result.total_issues == self.total_issues,
            result.issues@ == self.issues@,
    {
        VaultHealthReport {
            healthy: self.total_issues == 0,
            checked_at,
            gallery_items: self.gallery_items,
            gallery_trash_items: self.gallery_trash_items,
            credential_items: self.credential_items,
            credential_trash_items: self.credential_trash_items,
            verified_media_bytes: self.verified_media_bytes,
            total_issues: self.total_issues,
            issues: self.issues,
        }
    }

    /// The report, stamped with the current time.
    pub fn finish(self) -> (result: Result<VaultHealthReport, VaultError>)
        ensures
            result matches Ok(r) ==> {
                &&& r.healthy == (self.total_issues == 0)
                &&& r.checked_at >= 0
                &&& r.gallery_items == self.gallery_items
                &&& r.gallery_trash_items == self.gallery_trash_items
                &&& r.credential_items == self.credential_items
                &&& r.credential_trash_items == self.credential_trash_items
                &&& r.verified_media_bytes == self.verified_media_bytes
                &&& r.total_issues == self.total_issues
                &&& r.issues@ == self.issues@
            },
            result matches Err(e) ==> e is Platform,
    {
        let checked_at = crate::clock::unix_timestamp()?;
        Ok(self.report(checked_at))
    }
}

/// The pagination cursors a walk has followed, to stop a walk that loops.
pub struct CursorHistory {
    seen: Vec<String>,
}

impl CursorHistory {
    /// The cursors followed so far.
    pub closed spec fn seen(&self) -> Set<Seq<char>> {
        self.seen@.map_values(|s: String| s@).to_set()
    }

    /// No cursor followed yet.
    pub fn new() -> (result: Self)
        ensures
            result.seen() == Set::<Seq<char>>::empty(),
    {
        let result = CursorHistory { seen: Vec::new() };
        assert(result.seen@.map_values(|s: String| s@) =~= Seq::<Seq<char>>::empty());
        assert(result.seen() =~= Set::<Seq<char>>::empty());
        result
    }

    /// Notes a cursor: `false` if it was followed before, which means the
    /// walk must stop.
    pub fn note(&mut self, cursor: &str) -> (result: bool)
        ensures
            result == !old(self).seen().contains(cursor@),
            final(self).seen() == old(self).seen().insert(cursor@),
    {
        let ghost before = self.seen@.map_values(|s: String| s@);
        let known = crate::env::contains_text(&self.seen, cursor);
        proof {
            assert(crate::env::texts(self.seen@) == before);
        }
        if known {
            proof {
                assert(before.to_set() =~= before.to_set().insert(cursor@)) by {
                    broadcast use vstd::seq_lib::group_seq_properties;
                }
            }
            return false;
        }
        self.seen.push(String::from_str(cursor));
        proof {
            assert(self.seen@.map_values(|s: String| s@) =~= before.push(cursor@));
            broadcast use vstd::seq_lib::group_seq_properties;
        }
        true
    }
}

} // verus!
