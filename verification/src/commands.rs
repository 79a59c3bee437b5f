//! The checks the user interface's commands make before they reach the
//! vault, and the results they hand back.
use vstd::prelude::*;
use crate::error::{VaultError, public_error, spec_public_error};
use crate::text::{byte_len, byte_len_of, chars_of, spec_starts_with, starts_with};
use crate::env::texts;
use crate::source::SourceImportOutcome;

verus! {

/// At most this many media files are imported at once.
pub const MAX_IMPORT_SOURCES: usize = 100;

/// A selected media source identifier is at most this many bytes.
pub const MAX_SOURCE_ID_BYTES: usize = 16384;

/// Credential search text is at most this many bytes.
pub const MAX_SEARCH_BYTES: usize = 4096;

/// A project filter is at most this many bytes.
pub const MAX_PROJECT_FILTER_BYTES: usize = 256;

/// An environment filter is at most this many bytes.
pub const MAX_ENVIRONMENT_FILTER_BYTES: usize = 64;

/// The outcome of importing one selected source.
pub struct ImportMediaItemResult {
    pub source_index: usize,
    pub id: Option<String>,
    pub source_removed: bool,
    pub warning: Option<String>,
    pub error: Option<String>,
}

/// The outcome of importing a selection, one item per source in order.
pub struct ImportMediaResult {
    pub items: Vec<ImportMediaItemResult>,
    pub source_removal_enabled: bool,
}

/// Where the player fetches a video from, and the token that grants it.
pub struct MediaStreamHandle {
    pub url: String,
    pub token: String,
}

/// Why a selection of sources is refused, if it is.
pub open spec fn spec_sources_error(sources: Seq<Seq<char>>) -> Option<Seq<char>> {
    if sources.len() == 0 || sources.len() > MAX_IMPORT_SOURCES {
        Some("select between 1 and 100 media files"@)
    } else if exists|i: int| 0 <= i < sources.len() && byte_len(#[trigger] sources[i]) > MAX_SOURCE_ID_BYTES {
        Some("a selected media source identifier is too long"@)
    } else {
        None
    }
}

/// Refuses an empty selection, one of more than 100 sources, and one with
/// a source identifier longer than 16 KiB.
pub fn validate_import_sources(sources: &Vec<String>) -> (result: Result<(), String>)
    ensures
        match spec_sources_error(texts(sources@)) {
            Some(message) => result matches Err(e) && e@ == message,
            None => result is Ok,
        },
{
    if sources.len() == 0 || sources.len() > MAX_IMPORT_SOURCES {
        return Err(String::from_str("select between 1 and 100 media files"));
    }
    let mut i: usize = 0;
    while i < sources.len()
        invariant
            i <= sources.len(),
            0 < sources.len() <= MAX_IMPORT_SOURCES,
            forall|k: int| 0 <= k < i ==> byte_len(#[trigger] texts(sources@)[k]) <= MAX_SOURCE_ID_BYTES,
        decreases sources.len() - i,
    {
        if byte_len_of(sources[i].as_str()) > MAX_SOURCE_ID_BYTES {
            proof {
                assert(byte_len(texts(sources@)[i as int]) > MAX_SOURCE_ID_BYTES);
            }
            return Err(String::from_str("a selected media source identifier is too long"));
        }
        i = i + 1;
    }
    Ok(())
}

/// The item reported for source `source_index`: its id, removal and
/// warning when it was imported, or the public text of its error.
pub fn import_item_result(source_index: usize, outcome: Result<SourceImportOutcome, VaultError>) -> (result:
    ImportMediaItemResult)
    ensures
        result.source_index == source_index,
        match outcome {
            Ok(o) => {
                &&& result.id matches Some(id) && id@ == o.id@
                &&& result.source_removed == o.source_removed
                &&& match o.warning {
                    Some(w) => result.warning matches Some(x) && x@ == w@,
                    None => result.warning is None,
                }
                &&& result.error is None
            },
            Err(e) => {
                &&& result.id is None
                &&& !result.source_removed
                &&& result.warning is None
                &&& result.error matches Some(x) && x@ == spec_public_error(e)
            },
        },
{
    match outcome {
        Ok(o) => ImportMediaItemResult {
            source_index,
            id: Some(o.id),
            source_removed: o.source_removed,
            warning: o.warning,
            error: None,
        },
        Err(e) => ImportMediaItemResult {
            source_index,
            id: None,
            source_removed: false,
            warning: None,
            error: Some(public_error(e)),
        },
    }
}

/// Only videos are streamed.
pub fn check_stream_mime(mime_type: &str) -> (result: Result<(), String>)
    ensures
        spec_starts_with(mime_type@, "video/"@) ==> result is Ok,
        !spec_starts_with(mime_type@, "video/"@) ==> (result matches Err(e) && e@
            == "media item is not a video"@),
{
    let chars = chars_of(mime_type);
    if starts_with(chars.as_slice(), "video/") {
        Ok(())
    } else {
        Err(String::from_str("media item is not a video"))
    }
}

/// The byte length of an optional filter, zero when absent.
pub open spec fn optional_len(text: Option<Seq<char>>) -> usize {
    match text {
        Some(t) => byte_len(t),
        None => 0,
    }
}

/// Whether the credential filters are within their bounds.
pub open spec fn spec_filters_ok(search: Seq<char>, project: Option<Seq<char>>, environment: Option<Seq<char>>) -> bool {
    &&& byte_len(search) <= MAX_SEARCH_BYTES
    &&& optional_len(project) <= MAX_PROJECT_FILTER_BYTES
    &&& optional_len(environment) <= MAX_ENVIRONMENT_FILTER_BYTES
}

/// The view of an optional text.
pub open spec fn opt_text(text: Option<&str>) -> Option<Seq<char>> {
    match text {
        Some(t) => Some(t@),
        None => None,
    }
}

/// Refuses credential filters that are too long: search text over 4 KiB,
/// a project over 256 bytes or an environment over 64 bytes.
pub fn validate_credential_filters(search: &str, project: Option<&str>, environment: Option<&str>) -> (result:
    Result<(), String>)
    ensures
        spec_filters_ok(search@, opt_text(project), opt_text(environment)) ==> result is Ok,
        !spec_filters_ok(search@, opt_text(project), opt_text(environment)) ==> (result matches Err(e)
            && e@ == "credential filter text is too long"@),
{
    let project_len: usize = match project {
        Some(p) => byte_len_of(p),
        None => 0,
    };
    let environment_len: usize = match environment {
        Some(e) => byte_len_of(e),
        None => 0,
    };
    if byte_len_of(search) > MAX_SEARCH_BYTES || project_len > MAX_PROJECT_FILTER_BYTES || environment_len
        > MAX_ENVIRONMENT_FILTER_BYTES {
        Err(String::from_str("credential filter text is too long"))
    } else {
        Ok(())
    }
}

/// A project root path is at most this many bytes.
pub const MAX_PROJECT_ROOT_BYTES: usize = 32768;

/// A project name handed to registration is at most this many bytes.
pub const MAX_PROJECT_NAME_INPUT_BYTES: usize = 256;

/// A registration names at most this many environments.
pub const MAX_PROJECT_ENVIRONMENTS_INPUT: usize = 32;

/// An environment name handed to a project command is at most this many
/// bytes.
pub const MAX_ENVIRONMENT_INPUT_BYTES: usize = 64;

/// An environment file name handed to an import is at most this many bytes.
pub const MAX_ENV_FILE_NAME_BYTES: usize = 512;

/// A program handed to a project command is at most this many bytes.
pub const MAX_PROGRAM_INPUT_BYTES: usize = 4096;

/// A project command takes at most this many arguments.
pub const MAX_PROGRAM_ARGS_INPUT: usize = 256;

/// Refuses a project root path longer than 32 KiB.
pub fn validate_project_root_input(root: &str) -> (result: Result<(), String>)
    ensures
        byte_len(root@) <= MAX_PROJECT_ROOT_BYTES ==> result is Ok,
        byte_len(root@) > MAX_PROJECT_ROOT_BYTES ==> (result matches Err(e) && e@
            == "project path is too long"@),
{
    if byte_len_of(root) > MAX_PROJECT_ROOT_BYTES {
        Err(String::from_str("project path is too long"))
    } else {
        Ok(())
    }
}

/// Refuses a registration with a root over 32 KiB, a name over 256 bytes
/// or more than 32 environments.
pub fn validate_registration_input(root: &str, name: &str, environments: &Vec<String>) -> (result: Result<
    (),
    String,
>)
    ensures
        (byte_len(root@) <= MAX_PROJECT_ROOT_BYTES && byte_len(name@) <= MAX_PROJECT_NAME_INPUT_BYTES
            && environments@.len() <= MAX_PROJECT_ENVIRONMENTS_INPUT) ==> result is Ok,
        !(byte_len(root@) <= MAX_PROJECT_ROOT_BYTES && byte_len(name@) <= MAX_PROJECT_NAME_INPUT_BYTES
            && environments@.len() <= MAX_PROJECT_ENVIRONMENTS_INPUT) ==> (result matches Err(e) && e@
            == "project registration input is too large"@),
{
    if byte_len_of(root) > MAX_PROJECT_ROOT_BYTES || byte_len_of(name) > MAX_PROJECT_NAME_INPUT_BYTES
        || environments.len() > MAX_PROJECT_ENVIRONMENTS_INPUT {
        Err(String::from_str("project registration input is too large"))
    } else {
        Ok(())
    }
}

/// Refuses an environment name over 64 bytes for a status request.
pub fn validate_environment_input(environment: &str) -> (result: Result<(), String>)
    ensures
        byte_len(environment@) <= MAX_ENVIRONMENT_INPUT_BYTES ==> result is Ok,
        byte_len(environment@) > MAX_ENVIRONMENT_INPUT_BYTES ==> (result matches Err(e) && e@
            == "project environment name is too long"@),
{
    if byte_len_of(environment) > MAX_ENVIRONMENT_INPUT_BYTES {
        Err(String::from_str("project environment name is too long"))
    } else {
        Ok(())
    }
}

/// Refuses an import with an environment name over 64 bytes or a file
/// name over 512 bytes.
pub fn validate_env_import_input(environment: &str, file_name: &str) -> (result: Result<(), String>)
    ensures
        (byte_len(environment@) <= MAX_ENVIRONMENT_INPUT_BYTES && byte_len(file_name@)
            <= MAX_ENV_FILE_NAME_BYTES) ==> result is Ok,
        !(byte_len(environment@) <= MAX_ENVIRONMENT_INPUT_BYTES && byte_len(file_name@)
            <= MAX_ENV_FILE_NAME_BYTES) ==> (result matches Err(e) && e@
            == "project environment import input is too large"@),
{
    if byte_len_of(environment) > MAX_ENVIRONMENT_INPUT_BYTES || byte_len_of(file_name) > MAX_ENV_FILE_NAME_BYTES {
        Err(String::from_str("project environment import input is too large"))
    } else {
        Ok(())
    }
}

/// Refuses a project command with an environment name over 64 bytes, a
/// program over 4 KiB or more than 256 arguments.
pub fn validate_command_input(environment: &str, program: &str, args: &Vec<String>) -> (result: Result<
    (),
    String,
>)
    ensures
        (byte_len(environment@) <= MAX_ENVIRONMENT_INPUT_BYTES && byte_len(program@)
            <= MAX_PROGRAM_INPUT_BYTES && args@.len() <= MAX_PROGRAM_ARGS_INPUT) ==> result is Ok,
        !(byte_len(environment@) <= MAX_ENVIRONMENT_INPUT_BYTES && byte_len(program@)
            <= MAX_PROGRAM_INPUT_BYTES && args@.len() <= MAX_PROGRAM_ARGS_INPUT) ==> (result matches Err(e)
            && e@ == "project command input is too large"@),
{
    if byte_len_of(environment) > MAX_ENVIRONMENT_INPUT_BYTES || byte_len_of(program) > MAX_PROGRAM_INPUT_BYTES
        || args.len() > MAX_PROGRAM_ARGS_INPUT {
        Err(String::from_str("project command input is too large"))
    } else {
        Ok(())
    }
}

} // verus!
