//! Taking a selected media source into the vault: what is checked of it
//! before import, and what is reported once it is imported.
use vstd::prelude::*;
use crate::error::{VaultError, invalid_input};
use crate::text::{chars_of, spec_starts_with, starts_with};

verus! {

/// The warning given when the original was asked to be removed but kept.
pub open spec fn retained_warning() -> Seq<char> {
    "The encrypted item was saved, but the original source was retained because it could not be verified for safe removal."@
}

/// One imported source: the new item's id, whether the original was
/// removed, and a warning when its removal was asked for and not done.
pub struct SourceImportOutcome {
    pub id: String,
    pub source_removed: bool,
    pub warning: Option<String>,
}

impl SourceImportOutcome {
    /// The outcome of an import whose removal was asked for or not, and,
    /// when asked for, succeeded or not.
    pub fn new(id: String, removal_requested: bool, removed: bool) -> (result: Self)
        ensures
            result.id@ == id@,
            result.source_removed == (removal_requested && removed),
            (removal_requested && !removed) ==> (result.warning matches Some(w) && w@
                == retained_warning()),
            !(removal_requested && !removed) ==> result.warning is None,
    {
        if !removal_requested {
            SourceImportOutcome { id, source_removed: false, warning: None }
        } else if removed {
            SourceImportOutcome { id, source_removed: true, warning: None }
        } else {
            let warning = String::from_str(
                "The encrypted item was saved, but the original source was retained because it could not be verified for safe removal.",
            );
            proof {
                reveal_strlit(
                    "The encrypted item was saved, but the original source was retained because it could not be verified for safe removal.",
                );
            }
            SourceImportOutcome { id, source_removed: false, warning: Some(warning) }
        }
    }
}

/// What a source identifier names.
#[derive(Debug, Clone, Copy, PartialEq, Eq, Structural)]
pub enum SourceLocation {
    /// A `file://` URL, turned into a path before it is opened.
    FileUrl,
    /// A plain path.
    Path,
}

/// Tells a `file://` URL from a path, and refuses an empty identifier.
pub fn classify_source(source: &str) -> (result: Result<SourceLocation, VaultError>)
    ensures
        spec_starts_with(source@, "file://"@) ==> result == Ok::<SourceLocation, VaultError>(
            SourceLocation::FileUrl,
        ),
        !spec_starts_with(source@, "file://"@) && source@.len() == 0 ==> (result matches Err(
            VaultError::InvalidInput(d),
        ) && d@ == "empty media source"@),
        !spec_starts_with(source@, "file://"@) && source@.len() > 0 ==> result == Ok::<
            SourceLocation,
            VaultError,
        >(SourceLocation::Path),
{
    let chars = chars_of(source);
    if starts_with(chars.as_slice(), "file://") {
        Ok(SourceLocation::FileUrl)
    } else if chars.len() == 0 {
        Err(invalid_input("empty media source"))
    } else {
        Ok(SourceLocation::Path)
    }
}

/// Refuses a source that is not a regular file, or that is empty.
pub fn check_source_metadata(is_file: bool, len: u64) -> (result: Result<(), VaultError>)
    ensures
        !is_file ==> (result matches Err(VaultError::InvalidInput(d)) && d@
            == "media source must be a file"@),
        is_file && len == 0 ==> (result matches Err(VaultError::InvalidInput(d)) && d@
            == "empty media files are not supported"@),
        is_file && len > 0 ==> result is Ok,
{
    if !is_file {
        Err(invalid_input("media source must be a file"))
    } else if len == 0 {
        Err(invalid_input("empty media files are not supported"))
    } else {
        Ok(())
    }
}

/// What the Android document provider answers when a source is opened:
/// a file descriptor and the document's size.
pub struct OpenSourceResponse {
    pub fd: i32,
    pub size: u64,
}

/// Android imports read content URIs only.
pub fn require_content_uri(source: &str) -> (result: Result<(), VaultError>)
    ensures
        spec_starts_with(source@, "content://"@) ==> result is Ok,
        !spec_starts_with(source@, "content://"@) ==> (result matches Err(VaultError::InvalidInput(d))
            && d@ == "Android imports require a content URI"@),
{
    let chars = chars_of(source);
    if starts_with(chars.as_slice(), "content://") {
        Ok(())
    } else {
        Err(invalid_input("Android imports require a content URI"))
    }
}

/// Refuses an opened document with an invalid descriptor, or an empty one.
pub fn check_opened_source(opened: &OpenSourceResponse) -> (result: Result<(), VaultError>)
    ensures
        opened.fd < 0 ==> (result matches Err(VaultError::Platform(d)) && d@
            == "Android provider returned an invalid file descriptor"@),
        opened.fd >= 0 && opened.size == 0 ==> (result matches Err(VaultError::InvalidInput(d)) && d@
            == "empty media files are not supported"@),
        opened.fd >= 0 && opened.size > 0 ==> result is Ok,
{
    if opened.fd < 0 {
        Err(VaultError::Platform(String::from_str("Android provider returned an invalid file descriptor")))
    } else if opened.size == 0 {
        Err(invalid_input("empty media files are not supported"))
    } else {
        Ok(())
    }
}

/// Refuses a document reopened for verification with an invalid
/// descriptor, or whose size changed since it was imported.
pub fn check_reopened_source(opened: &OpenSourceResponse, expected_size: u64) -> (result: Result<(), VaultError>)
    ensures
        opened.fd < 0 ==> (result matches Err(VaultError::Platform(d)) && d@
            == "Android provider returned an invalid file descriptor"@),
        opened.fd >= 0 && opened.size != expected_size ==> (result matches Err(VaultError::InvalidInput(d))
            && d@ == "media source changed after import"@),
        opened.fd >= 0 && opened.size == expected_size ==> result is Ok,
{
    if opened.fd < 0 {
        Err(VaultError::Platform(String::from_str("Android provider returned an invalid file descriptor")))
    } else if opened.size != expected_size {
        Err(invalid_input("media source changed after import"))
    } else {
        Ok(())
    }
}

/// A source read back before it is removed: every byte read goes into a
/// digest, and no more bytes than the size imported may be read.
pub struct SourceCheck {
    stream: crate::digest::DigestStream,
    expected_size: u64,
    total: u64,
}

impl SourceCheck {
    /// The bytes read so far, in order.
    pub closed spec fn read(&self) -> Seq<u8> {
        self.stream.absorbed()
    }

    /// The size the source had when it was imported.
    pub closed spec fn expected_size(&self) -> u64 {
        self.expected_size
    }

    /// The count kept matches the bytes read, which are no more than the
    /// size imported.
    pub closed spec fn wf(&self) -> bool {
        &&& self.total == self.stream.absorbed().len()
        &&& self.total <= self.expected_size
    }

    /// Nothing read yet of a source imported with `expected_size` bytes.
    pub fn new(expected_size: u64) -> (result: Self)
        ensures
            result.wf(),
            result.read() == Seq::<u8>::empty(),
            result.expected_size() == expected_size,
    {
        SourceCheck { stream: crate::digest::DigestStream::new(), expected_size, total: 0 }
    }

    /// Takes the next chunk read. Reading more bytes than were imported
    /// means the source changed; a count beyond `u64` is refused on its own.
    pub fn absorb(&mut self, chunk: &[u8]) -> (result: Result<(), VaultError>)
        requires
            old(self).wf(),
        ensures
            final(self).wf(),
            final(self).expected_size() == old(self).expected_size(),
            result is Ok <==> old(self).read().len() + chunk@.len() <= old(self).expected_size(),
            result is Ok ==> final(self).read() == old(self).read() + chunk@,
            result is Err ==> final(self).read() == old(self).read(),
            old(self).read().len() + chunk@.len() > u64::MAX ==> (result matches Err(
                VaultError::InvalidInput(d),
            ) && d@ == "media source size overflow"@),
            old(self).read().len() + chunk@.len() <= u64::MAX && old(self).read().len() + chunk@.len()
                > old(self).expected_size() ==> (result matches Err(VaultError::InvalidInput(d)) && d@
                == "media source changed after import"@),
    {
        let len = chunk.len() as u64;
        if len > u64::MAX - self.total {
            return Err(invalid_input("media source size overflow"));
        }
        let total = self.total + len;
        if total > self.expected_size {
            return Err(invalid_input("media source changed after import"));
        }
        self.stream.absorb(chunk);
        self.total = total;
        Ok(())
    }

    /// Whether what was read is exactly the source imported: as many bytes
    /// as its size, hashing to its digest.
    pub fn finish(self, expected_digest: &[u8; 32]) -> (result: Result<(), VaultError>)
        requires
            self.wf(),
        ensures
            result is Ok <==> self.read().len() == self.expected_size() && crate::crypto::sha256(self.read())
                == expected_digest@,
            result matches Err(e) ==> (e matches VaultError::InvalidInput(d) && d@
                == "media source changed after import"@),
    {
        if self.total != self.expected_size {
            return Err(invalid_input("media source changed after import"));
        }
        let digest = self.stream.finish();
        if !crate::crypto::constant_time_eq(&digest, expected_digest) {
            return Err(invalid_input("media source changed after import"));
        }
        Ok(())
    }
}

} // verus!
