//! Fetching a file: where it comes from, where it goes, and when it is
//! complete.

use vstd::prelude::*;
use vstd::string::StringExecFns;
use crate::error::SyncError;
use crate::path::{join_of, join_path};

verus! {

/// One file to fetch.
pub struct Download {
    /// The URL to fetch from.
    pub url: String,
    /// The local file to write.
    pub file: String,
}

/// The URL of `path` below `upstream_url`. Nothing is put between the two.
pub open spec fn source_of(upstream_url: Seq<char>, path: Seq<char>) -> Seq<char> {
    upstream_url + path
}

/// Where the file `path` of upstream is fetched from and written to, for a
/// local copy below `dir`.
pub fn plan_download(upstream_url: &str, dir: &str, path: &str) -> (d: Download)
    ensures
        d.url@ == source_of(upstream_url@, path@),
        d.file@ == join_of(dir@, path@),
{
    Download { url: upstream_url.to_owned().concat(path), file: join_path(dir, path) }
}

/// What a response is taken for: with status 200 and a stated length, a
/// transfer of that many bytes; otherwise a failed transfer.
pub open spec fn accepted(status: u16, content_length: Option<u64>) -> Result<u64, SyncError> {
    match content_length {
        Some(n) => if status == 200 {
            Ok(n)
        } else {
            Err(SyncError::Transfer)
        },
        None => Err(SyncError::Transfer),
    }
}

/// The number of bytes to expect from a response. A response whose status
/// is not 200, or that does not state its length, is a failed transfer.
pub fn expected_length(status: u16, content_length: Option<u64>) -> (r: Result<u64, SyncError>)
    ensures
        r == accepted(status, content_length),
{
    match content_length {
        Some(n) => if status == 200 {
            Ok(n)
        } else {
            Err(SyncError::Transfer)
        },
        None => Err(SyncError::Transfer),
    }
}

/// How far a transfer has come.
#[derive(Clone, Copy, Debug, PartialEq, Eq, Structural)]
pub struct Progress {
    /// The number of bytes received.
    pub received: u64,
    /// The number of bytes expected.
    pub expected: u64,
}

impl Progress {
    /// A transfer of `expected` bytes of which none has come yet.
    pub fn start(expected: u64) -> (p: Progress)
        ensures
            p == (Progress { received: 0, expected }),
    {
        Progress { received: 0, expected }
    }

    /// The count after `chunk` more bytes, held at the largest count that
    /// can be told.
    pub open spec fn after(self, chunk: nat) -> Progress {
        Progress {
            received: if self.received + chunk > u64::MAX {
                u64::MAX
            } else {
                (self.received + chunk) as u64
            },
            expected: self.expected,
        }
    }

    /// A transfer is complete when as many bytes have come as were
    /// expected.
    pub open spec fn complete(self) -> bool {
        self.received >= self.expected
    }

    /// Takes note of `chunk` more bytes.
    pub fn record(&mut self, chunk: usize)
        ensures
            *final(self) == old(self).after(chunk as nat),
    {
        let room: u64 = u64::MAX - self.received;
        if chunk as u64 > room {
            self.received = u64::MAX;
        } else {
            self.received = self.received + chunk as u64;
        }
    }

    /// Whether the transfer is complete.
    pub fn is_complete(&self) -> (r: bool)
        ensures
            r == self.complete(),
    {
        self.received >= self.expected
    }
}

} // verus!
