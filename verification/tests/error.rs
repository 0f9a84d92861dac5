use joblib::error::Error;
use joblib::errors::JobError;
use joblib::jobservice::{
    authorize_existing, authorize_start, internal, output_data, status_reply, stop_reply, Code,
    StatusReply,
};
use joblib::authorizer::{Authorizer, ExistingJobAction};
use joblib::job_id::job_id_to_bytes;
use joblib::JobStatus;

#[test]
fn error_messages() {
    assert_eq!(Error::DoesNotExist.message(), "No such job exists");
    assert_eq!(Error::AlreadyStopped.message(), "Job already stopped");
    assert_eq!(JobError::NotFound.message(), "");
    assert_eq!(JobError::NotRunning.message(), "");
}

#[test]
fn engine_refusals_as_the_caller_sees_them() {
    assert_eq!(Error::from(JobError::NotFound), Error::DoesNotExist);
    assert_eq!(Error::from(JobError::NotRunning), Error::AlreadyStopped);
}

#[test]
fn status_is_put_to_the_client() {
    assert_eq!(status_reply(Ok(JobStatus::Running)).unwrap(), StatusReply::Running(true));
    assert_eq!(status_reply(Ok(JobStatus::Exited { code: 0 })).unwrap(), StatusReply::ExitCode(0));
    assert_eq!(
        status_reply(Ok(JobStatus::Exited { code: -7 })).unwrap(),
        StatusReply::ExitCode(-7)
    );
    assert_eq!(
        status_reply(Ok(JobStatus::Killed { signal: 9 })).unwrap(),
        StatusReply::KillSignal(9)
    );
    let refused = status_reply(Err(Error::DoesNotExist)).unwrap_err();
    assert_eq!(refused.code, Code::Internal);
    assert_eq!(refused.message, "No such job exists");
}

#[test]
fn stop_is_put_to_the_client() {
    assert!(stop_reply(Ok(())).is_ok());
    let refused = stop_reply(Err(Error::AlreadyStopped)).unwrap_err();
    assert_eq!(refused.code, Code::Internal);
    assert_eq!(refused.message, "Job already stopped");
    let refused = internal(Error::AlreadyStopped);
    assert_eq!((refused.code, refused.message.as_str()), (Code::Internal, "Job already stopped"));
}

#[test]
fn start_takes_the_permission_to_manage() {
    let authorizer = Authorizer::new();
    assert!(authorize_start(&authorizer, &"alice".to_string()).is_ok());
    assert!(authorize_start(&authorizer, &"charlie".to_string()).is_ok());
    for name in ["bob", "eve"] {
        let refused = authorize_start(&authorizer, &name.to_string()).unwrap_err();
        assert_eq!(refused.code, Code::PermissionDenied);
        assert_eq!(refused.message, "Permission denied");
    }
}

#[test]
fn request_on_a_job_is_checked_for_its_id_first() {
    let mut authorizer = Authorizer::new();
    let job_id = 0x0102030405060708090a0b0c0d0e0f10u128;
    authorizer.add_job(job_id, &"alice".to_string());
    let raw = job_id_to_bytes(job_id);

    let granted =
        authorize_existing(&authorizer, &"alice".to_string(), &raw, ExistingJobAction::StopJob);
    assert_eq!(granted.unwrap(), job_id);
    let granted =
        authorize_existing(&authorizer, &"bob".to_string(), &raw, ExistingJobAction::QueryStatus);
    assert_eq!(granted.unwrap(), job_id);

    let refused =
        authorize_existing(&authorizer, &"bob".to_string(), &raw, ExistingJobAction::StopJob)
            .unwrap_err();
    assert_eq!(refused.code, Code::PermissionDenied);
    assert_eq!(refused.message, "Permission denied");

    let other = job_id_to_bytes(job_id + 1);
    let refused =
        authorize_existing(&authorizer, &"alice".to_string(), &other, ExistingJobAction::StopJob)
            .unwrap_err();
    assert_eq!(refused.code, Code::PermissionDenied);

    for name in ["alice", "eve"] {
        let refused = authorize_existing(
            &authorizer,
            &name.to_string(),
            &raw[..15],
            ExistingJobAction::StreamOutput,
        )
        .unwrap_err();
        assert_eq!(refused.code, Code::InvalidArgument);
        assert_eq!(
            refused.message,
            uuid::Uuid::from_slice(&raw[..15]).unwrap_err().to_string()
        );
    }
}

#[test]
fn output_is_put_to_the_client_as_its_bytes() {
    assert_eq!(output_data(&bytes::Bytes::from_static(b"hello world!")), b"hello world!");
    assert_eq!(output_data(&bytes::Bytes::new()), Vec::<u8>::new());
    let blob = bytes::Bytes::from(vec![0u8, 255, 10]);
    assert_eq!(output_data(&blob.slice(1..)), vec![255u8, 10]);
}
