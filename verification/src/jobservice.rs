//! What the remote service decides around the engine: whether a request is let
//! through, and how the engine's answer is put to the client.

use vstd::prelude::*;
use crate::authorizer::{Action, Authorizer, ExistingJobAction};
use crate::authz::UserId;
use crate::error::Error;
use crate::events::{blob_bytes, blob_to_vec, JobStatus, OutputBlob};
use crate::job_id::{be_value, job_id_from_slice};
use crate::types::JobId;

verus! {

/// The kind of a refusal, as the client is told.
#[derive(Clone, Copy, Debug, PartialEq, Eq, Structural)]
pub enum Code {
    InvalidArgument,
    PermissionDenied,
    Internal,
}

/// A refusal: its kind, and a text for the client.
#[derive(Debug)]
pub struct Rejection {
    pub code: Code,
    pub message: String,
}

/// The status of a job as it is put to the client.
#[derive(Clone, Copy, Debug, PartialEq, Eq, Structural)]
pub enum StatusReply {
    Running(bool),
    ExitCode(i32),
    KillSignal(i32),
}

impl StatusReply {
    /// How a status is put to the client.
    pub open spec fn of(status: JobStatus) -> StatusReply {
        match status {
            JobStatus::Running => StatusReply::Running(true),
            JobStatus::Exited { code } => StatusReply::ExitCode(code),
            JobStatus::Killed { signal } => StatusReply::KillSignal(signal),
        }
    }
}

/// Refuses a request for want of permission.
fn permission_denied() -> (rejection: Rejection)
    ensures
        rejection.code == Code::PermissionDenied,
        rejection.message@ == "Permission denied"@,
{
    Rejection { code: Code::PermissionDenied, message: "Permission denied".to_owned() }
}

/// Puts a refusal of the engine to the client: as an internal failure, with the
/// engine's text.
pub fn internal(error: Error) -> (rejection: Rejection)
    ensures
        rejection.code == Code::Internal,
        rejection.message@ == error.text(),
{
    Rejection { code: Code::Internal, message: error.message() }
}

/// Lets a request to start a job through if the user may start jobs.
pub fn authorize_start(authorizer: &Authorizer, user_id: &UserId) -> (outcome: Result<(), Rejection>)
    ensures
        outcome is Ok <==> authorizer.authorizes(user_id@, Action::StartJob),
        outcome matches Err(rejection) ==> rejection.code == Code::PermissionDenied
            && rejection.message@ == "Permission denied"@,
{
    if authorizer.is_authorized(user_id, Action::StartJob) {
        Ok(())
    } else {
        Err(permission_denied())
    }
}

/// Lets a request on a job through: the job's identifier must be sixteen bytes, and
/// the user must be allowed the action on that job. The identifier is looked at
/// first.
pub fn authorize_existing(
    authorizer: &Authorizer,
    user_id: &UserId,
    raw_job_id: &[u8],
    inner_action: ExistingJobAction,
) -> (outcome: Result<JobId, Rejection>)
    ensures
        match outcome {
            Ok(job_id) => {
                &&& raw_job_id@.len() == 16
                &&& job_id == be_value(raw_job_id@)
                &&& authorizer.authorizes(user_id@, Action::ExistingJob { job_id, inner_action })
            },
            Err(rejection) => if raw_job_id@.len() != 16 {
                rejection.code == Code::InvalidArgument
            } else {
                &&& rejection.code == Code::PermissionDenied
                &&& rejection.message@ == "Permission denied"@
                &&& !authorizer.authorizes(
                    user_id@,
                    Action::ExistingJob { job_id: be_value(raw_job_id@) as JobId, inner_action },
                )
            },
        },
{
    match job_id_from_slice(raw_job_id) {
        Err(invalid) => Err(Rejection { code: Code::InvalidArgument, message: invalid.reason }),
        Ok(job_id) => {
            if authorizer.is_authorized(user_id, Action::ExistingJob { job_id, inner_action }) {
                Ok(job_id)
            } else {
                Err(permission_denied())
            }
        },
    }
}

/// Puts the engine's answer to a request to stop a job to the client. That the job
/// does not exist cannot be the answer: no user is allowed anything on a job that
/// is not known.
pub fn stop_reply(outcome: Result<(), Error>) -> (reply: Result<(), Rejection>)
    requires
        outcome != Err::<(), Error>(Error::DoesNotExist),
    ensures
        reply is Ok <==> outcome is Ok,
        reply matches Err(rejection) ==> rejection.code == Code::Internal && rejection.message@
            == Error::AlreadyStopped.text(),
{
    match outcome {
        Ok(()) => Ok(()),
        Err(error) => Err(internal(error)),
    }
}

/// Puts the engine's answer to a request for a job's status to the client.
pub fn status_reply(outcome: Result<JobStatus, Error>) -> (reply: Result<StatusReply, Rejection>)
    ensures
        match outcome {
            Ok(status) => reply == Ok::<StatusReply, Rejection>(StatusReply::of(status)),
            Err(error) => reply matches Err(rejection) && rejection.code == Code::Internal
                && rejection.message@ == error.text(),
        },
{
    match outcome {
        Ok(JobStatus::Running) => Ok(StatusReply::Running(true)),
        Ok(JobStatus::Exited { code }) => Ok(StatusReply::ExitCode(code)),
        Ok(JobStatus::Killed { signal }) => Ok(StatusReply::KillSignal(signal)),
        Err(error) => Err(internal(error)),
    }
}

/// Puts a blob of a job's output to the client: as its bytes.
pub fn output_data(blob: &OutputBlob) -> (data: Vec<u8>)
    ensures
        data@ == blob_bytes(*blob),
{
    blob_to_vec(blob)
}

} // verus!
