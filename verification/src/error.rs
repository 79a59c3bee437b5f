//! The vault's error type and the text each error is shown with.
use vstd::prelude::*;

verus! {

/// Every failure the vault reports.
#[derive(Debug)]
pub enum VaultError {
    Locked,
    NotInitialized,
    AlreadyInitialized,
    InvalidPassword,
    RateLimited,
    WeakPassword,
    UnsupportedMedia,
    InvalidRange,
    RangeTooLarge,
    AuthenticationFailed,
    MalformedContainer,
    NotFound,
    InvalidInput(String),
    Storage(String),
    Database(String),
    Crypto,
    Platform(String),
}

/// The text of an error as the vault displays it.
pub open spec fn spec_error_message(error: VaultError) -> Seq<char> {
    match error {
        VaultError::Locked => "vault is locked"@,
        VaultError::NotInitialized => "vault has not been initialized"@,
        VaultError::AlreadyInitialized => "vault is already initialized"@,
        VaultError::InvalidPassword => "invalid master password"@,
        VaultError::RateLimited => "too many failed unlock attempts; try again shortly"@,
        VaultError::WeakPassword => "master password must contain at least 12 characters"@,
        VaultError::UnsupportedMedia => "unsupported or malformed media file"@,
        VaultError::InvalidRange => "requested media range is invalid"@,
        VaultError::RangeTooLarge => "requested media response exceeds the configured limit"@,
        VaultError::AuthenticationFailed => "encrypted data authentication failed"@,
        VaultError::MalformedContainer => "encrypted container is malformed or truncated"@,
        VaultError::NotFound => "record was not found"@,
        VaultError::InvalidInput(detail) => "invalid input: "@ + detail@,
        VaultError::Storage(detail) => "storage error: "@ + detail@,
        VaultError::Database(detail) => "database error: "@ + detail@,
        VaultError::Crypto => "cryptographic operation failed"@,
        VaultError::Platform(detail) => "platform operation failed: "@ + detail@,
    }
}

/// The text shown to the user interface: storage, database and platform
/// details are replaced by fixed phrases, everything else by its message.
pub open spec fn spec_public_error(error: VaultError) -> Seq<char> {
    match error {
        VaultError::Storage(_) => "unable to access secure local storage"@,
        VaultError::Database(_) => "unable to access the encrypted vault index"@,
        VaultError::Platform(_) => "the requested platform operation failed"@,
        other => spec_error_message(other),
    }
}

impl VaultError {
    /// The display text of this error.
    pub fn message(&self) -> (result: String)
        ensures
            result@ == spec_error_message(*self),
    {
        match self {
            VaultError::Locked => String::from_str("vault is locked"),
            VaultError::NotInitialized => String::from_str("vault has not been initialized"),
            VaultError::AlreadyInitialized => String::from_str("vault is already initialized"),
            VaultError::InvalidPassword => String::from_str("invalid master password"),
            VaultError::RateLimited => String::from_str(
                "too many failed unlock attempts; try again shortly",
            ),
            VaultError::WeakPassword => String::from_str(
                "master password must contain at least 12 characters",
            ),
            VaultError::UnsupportedMedia => String::from_str("unsupported or malformed media file"),
            VaultError::InvalidRange => String::from_str("requested media range is invalid"),
            VaultError::RangeTooLarge => String::from_str(
                "requested media response exceeds the configured limit",
            ),
            VaultError::AuthenticationFailed => String::from_str(
                "encrypted data authentication failed",
            ),
            VaultError::MalformedContainer => String::from_str(
                "encrypted container is malformed or truncated",
            ),
            VaultError::NotFound => String::from_str("record was not found"),
            VaultError::InvalidInput(detail) => String::from_str("invalid input: ").concat(
                detail.as_str(),
            ),
            VaultError::Storage(detail) => String::from_str("storage error: ").concat(
                detail.as_str(),
            ),
            VaultError::Database(detail) => String::from_str("database error: ").concat(
                detail.as_str(),
            ),
            VaultError::Crypto => String::from_str("cryptographic operation failed"),
            VaultError::Platform(detail) => String::from_str("platform operation failed: ").concat(
                detail.as_str(),
            ),
        }
    }
}

/// The error text handed to the user interface.
pub fn public_error(error: VaultError) -> (result: String)
    ensures
        result@ == spec_public_error(error),
{
    match error {
        VaultError::Storage(_) => String::from_str("unable to access secure local storage"),
        VaultError::Database(_) => String::from_str("unable to access the encrypted vault index"),
        VaultError::Platform(_) => String::from_str("the requested platform operation failed"),
        other => other.message(),
    }
}

/// An `InvalidInput` error with the given detail.
pub fn invalid_input(detail: &str) -> (result: VaultError)
    ensures
        result matches VaultError::InvalidInput(d) && d@ == detail@,
{
    VaultError::InvalidInput(String::from_str(detail))
}

} // verus!
