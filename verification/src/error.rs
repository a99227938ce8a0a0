//! The ways in which a run can fail.

use vstd::prelude::*;

verus! {

/// Why a step of the synchronisation failed.
#[derive(Clone, Copy, Debug, PartialEq, Eq, Structural)]
pub enum SyncError {
    /// A file could not be fetched from upstream.
    Transfer,
    /// A document is not well-formed.
    Parse,
    /// A document is well-formed but not of the shape or version that the
    /// library supports.
    Schema,
    /// Fetched content does not have the checksum that upstream declares.
    Integrity,
    /// A local file could not be read, written or deleted.
    Filesystem,
}

/// What was being done to a local file when it failed.
#[derive(Clone, Copy, Debug, PartialEq, Eq, Structural)]
pub enum FileAccess {
    /// A checksum sidecar was being read.
    SidecarRead,
    /// A checksum sidecar was being deleted.
    SidecarDelete,
    /// Anything else: a sidecar was being written, or another file was
    /// being read, written or deleted.
    Other,
}

/// What a failed access to a local file means for the run: that a sidecar
/// cannot be read or deleted is passed over, since its absence is an
/// ordinary state; every other failure ends the run with `Filesystem`.
pub open spec fn file_failure_of(access: FileAccess) -> Result<(), SyncError> {
    match access {
        FileAccess::SidecarRead => Ok(()),
        FileAccess::SidecarDelete => Ok(()),
        FileAccess::Other => Err(SyncError::Filesystem),
    }
}

/// What a failed access to a local file means for the run.
pub fn on_file_failure(access: FileAccess) -> (r: Result<(), SyncError>)
    ensures
        r == file_failure_of(access),
{
    match access {
        FileAccess::SidecarRead => Ok(()),
        FileAccess::SidecarDelete => Ok(()),
        FileAccess::Other => Err(SyncError::Filesystem),
    }
}

impl SyncError {
    /// A short description, for messages.
    pub fn describe(&self) -> (r: String)
        ensures
            r@ == match *self {
                SyncError::Transfer => "transfer failed"@,
                SyncError::Parse => "malformed document"@,
                SyncError::Schema => "unsupported document"@,
                SyncError::Integrity => "checksum mismatch"@,
                SyncError::Filesystem => "file access failed"@,
            },
    {
        match self {
            SyncError::Transfer => "transfer failed".to_owned(),
            SyncError::Parse => "malformed document".to_owned(),
            SyncError::Schema => "unsupported document".to_owned(),
            SyncError::Integrity => "checksum mismatch".to_owned(),
            SyncError::Filesystem => "file access failed".to_owned(),
        }
    }
}

} // verus!
