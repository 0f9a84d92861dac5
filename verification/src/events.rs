//! Lifecycle status of a job, and the blobs in which its output travels.

use vstd::prelude::*;

verus! {

/// Where a job stands in its lifecycle.
///
/// A job is `Running` from the moment its process is spawned until the wait on it
/// returns; it then becomes `Exited` or `Killed` and stays so.
#[derive(Clone, Copy, Debug, PartialEq, Eq, Structural)]
pub enum JobStatus {
    Running,
    Exited { code: i32 },
    Killed { signal: i32 },
}

impl JobStatus {
    /// A status is terminal once the process has been reaped.
    pub open spec fn is_terminal(self) -> bool {
        !(self is Running)
    }

    /// The status that a finished wait yields: the exit code where there is one,
    /// the terminating signal otherwise.
    pub open spec fn terminal(code: Option<i32>, signal: Option<i32>) -> JobStatus {
        match code {
            Some(c) => JobStatus::Exited { code: c },
            None => JobStatus::Killed { signal: signal.unwrap() },
        }
    }

    /// Tells whether the process has been reaped.
    pub fn terminated(&self) -> (r: bool)
        ensures
            r == self.is_terminal(),
    {
        match self {
            JobStatus::Running => false,
            _ => true,
        }
    }

    /// Derives the terminal status from what the wait reported.
    ///
    /// A process that ended has an exit code or was ended by a signal; a report
    /// with neither is outside this function's domain.
    pub fn from_exit(code: Option<i32>, signal: Option<i32>) -> (status: JobStatus)
        requires
            code is Some || signal is Some,
        ensures
            status == JobStatus::terminal(code, signal),
            status.is_terminal(),
    {
        match code {
            Some(c) => JobStatus::Exited { code: c },
            None => match signal {
                Some(s) => JobStatus::Killed { signal: s },
                None => vstd::pervasive::unreached(),
            },
        }
    }
}

/// `bytes::Bytes`, an immutable byte buffer whose clones share one allocation.
#[verifier::external_type_specification]
#[verifier::external_body]
pub struct ExBytes(bytes::Bytes);

/// One piece of captured output: the bytes that a single read produced.
pub type OutputBlob = bytes::Bytes;

/// The bytes that a blob holds, in order.
pub uninterp spec fn blob_bytes(blob: bytes::Bytes) -> Seq<u8>;

/// `Bytes::clone`: the clone refers to the same memory and so holds the same bytes
/// as the blob it was made from.
pub assume_specification[ <bytes::Bytes as Clone>::clone ](source: &bytes::Bytes) -> (copy: bytes::Bytes)
    ensures
        blob_bytes(copy) == blob_bytes(*source),
;

/// `Bytes` read as a slice, and `to_vec` on it: a vector with the blob's bytes.
#[verifier::external_body]
pub(crate) fn blob_to_vec(blob: &OutputBlob) -> (copy: Vec<u8>)
    ensures
        copy@ == blob_bytes(*blob),
{
    blob.to_vec()
}

} // verus!
