//! The authorizer: it knows who started which job, and decides by the authorization
//! database whether a user may do what they ask.

use vstd::prelude::*;
use std::collections::HashMap;
use crate::authz::{AuthzDb, Permission, Scope, UserId};
use crate::types::JobId;

verus! {

broadcast use vstd::std_specs::hash::group_hash_axioms;

/// What a user may ask of a job that exists.
#[derive(Clone, Copy, Debug, PartialEq, Eq, Structural)]
pub enum ExistingJobAction {
    StopJob,
    QueryStatus,
    StreamOutput,
}

/// What a user may ask of the service.
#[derive(Clone, Copy, Debug, PartialEq, Eq, Structural)]
pub enum Action {
    StartJob,
    ExistingJob { job_id: JobId, inner_action: ExistingJobAction },
}

impl ExistingJobAction {
    /// The permission that the action takes: stopping is a matter of managing jobs,
    /// status and output are matters of querying them.
    pub open spec fn permission(self) -> Permission {
        match self {
            ExistingJobAction::StopJob => Permission::StartOrStop,
            ExistingJobAction::QueryStatus => Permission::Query,
            ExistingJobAction::StreamOutput => Permission::Query,
        }
    }

    /// The permission that the action takes.
    pub fn required_permission(&self) -> (permission: Permission)
        ensures
            permission == self.permission(),
    {
        match self {
            ExistingJobAction::StopJob => Permission::StartOrStop,
            ExistingJobAction::QueryStatus => Permission::Query,
            ExistingJobAction::StreamOutput => Permission::Query,
        }
    }
}

/// The owners of the jobs, and the database of grants.
pub struct Authorizer {
    job_owners: HashMap<JobId, UserId>,
    authz_db: AuthzDb,
}

impl Authorizer {
    /// The user who started the job, if the job is known.
    pub closed spec fn owner(self, job_id: JobId) -> Option<Seq<char>> {
        if self.job_owners@.contains_key(job_id) {
            Some(self.job_owners@[job_id]@)
        } else {
            None
        }
    }

    /// The database of grants.
    pub closed spec fn db(self) -> AuthzDb {
        self.authz_db
    }

    /// Whether the user may do what they ask. Starting a job takes the permission to
    /// manage jobs, in any scope. An action on a job takes its permission in any
    /// scope if the user owns the job, and over all jobs if somebody else does. An
    /// action on a job that is not known is refused.
    pub open spec fn authorizes(self, user: Seq<char>, action: Action) -> bool {
        match action {
            Action::StartJob => self.db().permits(user, Permission::StartOrStop),
            Action::ExistingJob { job_id, inner_action } => match self.owner(job_id) {
                Some(owner) => if owner == user {
                    self.db().permits(user, inner_action.permission())
                } else {
                    self.db().permits_scoped(user, Scope::All, inner_action.permission())
                },
                None => false,
            },
        }
    }

    /// An authorizer with the built-in database, which knows no job yet.
    pub fn new() -> (authorizer: Authorizer)
        ensures
            forall|job_id: JobId| authorizer.owner(job_id) is None,
            authorizer.db().wf(),
            forall|user: Seq<char>, scope: Scope, permission: Permission|
                #[trigger] authorizer.db().permits_scoped(user, scope, permission)
                    == crate::authz::default_policy(user, scope, permission),
    {
        Authorizer { job_owners: HashMap::new(), authz_db: AuthzDb::default() }
    }

    /// Records who started a job.
    pub fn add_job(&mut self, job_id: JobId, user_id: &UserId)
        ensures
            final(self).db() == old(self).db(),
            final(self).owner(job_id) == Some(user_id@),
            forall|other: JobId| other != job_id ==> final(self).owner(other) == old(self).owner(other),
    {
        self.job_owners.insert(job_id, user_id.clone());
    }

    /// Decides whether the user may do what they ask.
    pub fn is_authorized(&self, user_id: &UserId, action: Action) -> (authorized: bool)
        ensures
            authorized == self.authorizes(user_id@, action),
    {
        match action {
            Action::StartJob => self.authz_db.has_permission(user_id, Permission::StartOrStop),
            Action::ExistingJob { job_id, inner_action } => {
                let permission = inner_action.required_permission();
                match self.job_owners.get(&job_id) {
                    Some(job_owner) => {
                        if *job_owner == *user_id {
                            self.authz_db.has_permission(user_id, permission)
                        } else {
                            self.authz_db.has_scoped_permission(user_id, Scope::All, permission)
                        }
                    },
                    None => false,
                }
            },
        }
    }
}

} // verus!
