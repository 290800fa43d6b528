//! The failures that the storage engine reports.

use vstd::prelude::*;

verus! {

/// Why a storage operation was refused or could not be completed.
#[derive(Clone, Copy, Debug, PartialEq, Eq, Structural)]
pub enum StorageError {
    /// The path leaves the storage root.
    PathEscape,
    /// The target does not exist, or is not of the kind the operation needs.
    NotFound,
    /// The content is larger than the configured maximum.
    SizeExceeded,
    /// Reading, writing or inspecting the disk failed.
    IoFailure,
    /// The path is malformed or does not lie under the storage root.
    InvalidPath,
}

impl StorageError {
    /// A short description for logs and responses.
    pub fn message(&self) -> (text: &'static str)
        ensures
            text@ == match *self {
                StorageError::PathEscape => "Path escapes the storage root"@,
                StorageError::NotFound => "File not found"@,
                StorageError::SizeExceeded => "File size exceeds maximum allowed size"@,
                StorageError::IoFailure => "Storage I/O failure"@,
                StorageError::InvalidPath => "Invalid path"@,
            },
    {
        match self {
            StorageError::PathEscape => "Path escapes the storage root",
            StorageError::NotFound => "File not found",
            StorageError::SizeExceeded => "File size exceeds maximum allowed size",
            StorageError::IoFailure => "Storage I/O failure",
            StorageError::InvalidPath => "Invalid path",
        }
    }

    /// The HTTP status under which the failure is reported: 403 for a
    /// path that leaves the root, 404 for a missing target, 413 for
    /// content that is too large, 400 for a malformed path and 500 for a
    /// failure of the disk.
    pub fn http_status(&self) -> (status: u16)
        ensures
            status == match *self {
                StorageError::PathEscape => 403u16,
                StorageError::NotFound => 404u16,
                StorageError::SizeExceeded => 413u16,
                StorageError::IoFailure => 500u16,
                StorageError::InvalidPath => 400u16,
            },
    {
        match self {
            StorageError::PathEscape => 403,
            StorageError::NotFound => 404,
            StorageError::SizeExceeded => 413,
            StorageError::IoFailure => 500,
            StorageError::InvalidPath => 400,
        }
    }
}

} // verus!
