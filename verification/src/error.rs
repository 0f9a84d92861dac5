//! Errors that the engine reports to its callers.

use vstd::prelude::*;
use crate::errors::JobError;

verus! {

/// Why a request on a job was refused.
#[derive(Clone, Copy, Debug, PartialEq, Eq, Structural)]
pub enum Error {
    /// No job is registered under the given id.
    DoesNotExist,
    /// The job was stopped before, or its process has ended.
    AlreadyStopped,
}

impl Error {
    /// The text that describes the error to a user.
    pub open spec fn text(self) -> Seq<char> {
        match self {
            Error::DoesNotExist => "No such job exists"@,
            Error::AlreadyStopped => "Job already stopped"@,
        }
    }

    /// The error that the caller of the engine sees for a refusal inside it.
    pub open spec fn of(e: JobError) -> Error {
        match e {
            JobError::NotFound => Error::DoesNotExist,
            JobError::NotRunning => Error::AlreadyStopped,
        }
    }

    /// Renders the error for a user.
    pub fn message(&self) -> (text: String)
        ensures
            text@ == self.text(),
    {
        match self {
            Error::DoesNotExist => "No such job exists".to_owned(),
            Error::AlreadyStopped => "Job already stopped".to_owned(),
        }
    }
}

impl From<JobError> for Error {
    fn from(e: JobError) -> (r: Error) {
        match e {
            JobError::NotFound => Error::DoesNotExist,
            JobError::NotRunning => Error::AlreadyStopped,
        }
    }
}

impl vstd::std_specs::convert::FromSpecImpl<JobError> for Error {
    open spec fn obeys_from_spec() -> bool {
        true
    }

    open spec fn from_spec(e: JobError) -> Error {
        Error::of(e)
    }
}

} // verus!
