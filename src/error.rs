//! The ways in which an operation of the library can fail.

use vstd::prelude::*;

use crate::ssh_con::{key_failed_text, unreachable_text};

verus! {

#[derive(Debug, Clone, Copy, PartialEq, Eq, Structural)]
pub enum HostError {
    /// A record with the same alias is already registered.
    DuplicateAlias,
    /// No record has the alias asked for.
    NotFound,
    /// The persisted field lists cannot be read back into records.
    StorageCorrupt,
    /// The store cannot be written (no home directory, or a write failed).
    StorageUnwritable,
    /// Every connection attempt failed.
    HostUnreachable,
    /// Every authentication attempt failed.
    AuthFailed,
    /// The transport failed after the session was authenticated.
    RemoteExecutionError,
    /// The remote user lacks the administrative group.
    PermissionDenied,
    /// A value is empty where it may not be, or holds a character that the
    /// store cannot keep.
    InvalidRecord,
}

/// The text that describes each error. Unreachable hosts and failed keys
/// read as the texts that the remote executor reports for them.
pub open spec fn error_text(e: HostError) -> Seq<char> {
    match e {
        HostError::DuplicateAlias => "Host already in configuration file!"@,
        HostError::NotFound => "Host not found."@,
        HostError::StorageCorrupt => "The configuration file cannot be read."@,
        HostError::StorageUnwritable => "The configuration file cannot be written."@,
        HostError::HostUnreachable => unreachable_text(),
        HostError::AuthFailed => key_failed_text(),
        HostError::RemoteExecutionError => "The remote command failed after the connection was made."@,
        HostError::PermissionDenied => "User lacks privileges to execute this command."@,
        HostError::InvalidRecord => "A host needs an alias, and no value may hold '|'."@,
    }
}

impl HostError {
    /// A description of the error for a person to read.
    pub fn message(&self) -> (r: String)
        ensures
            r@ == error_text(*self),
    {
        match self {
            HostError::DuplicateAlias => String::from_str("Host already in configuration file!"),
            HostError::NotFound => String::from_str("Host not found."),
            HostError::StorageCorrupt => String::from_str("The configuration file cannot be read."),
            HostError::StorageUnwritable => String::from_str(
                "The configuration file cannot be written.",
            ),
            HostError::HostUnreachable => String::from_str("Host cannot be reached."),
            HostError::AuthFailed => String::from_str("Failed to open key."),
            HostError::RemoteExecutionError => String::from_str(
                "The remote command failed after the connection was made.",
            ),
            HostError::PermissionDenied => String::from_str(
                "User lacks privileges to execute this command.",
            ),
            HostError::InvalidRecord => String::from_str(
                "A host needs an alias, and no value may hold '|'.",
            ),
        }
    }
}

} // verus!
