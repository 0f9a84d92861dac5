//! The coordinator: the registry of jobs, and the one place through which every
//! request to the engine passes.
//!
//! For each job the registry holds a handle to its worker and a handle to its
//! broadcaster. What a handle is, is left to the runtime that drives the engine: the
//! coordinator stores the handles and finds them again.

use vstd::prelude::*;
use std::collections::HashMap;
use crate::errors::JobError;
use crate::job_id::{is_random_id, new_job_id};
use crate::types::JobId;

verus! {

broadcast use vstd::std_specs::hash::group_hash_axioms;

/// The number of requests that may wait for the coordinator unless its owner says
/// otherwise.
pub const DEFAULT_MESSAGE_CAPACITY: usize = 1024;

/// The registry of jobs.
pub struct JobCoordinator<W, B> {
    workers: HashMap<JobId, W>,
    broadcasters: HashMap<JobId, B>,
}

impl<W, B> JobCoordinator<W, B> {
    /// The worker handles, by job.
    pub closed spec fn workers(self) -> Map<JobId, W> {
        self.workers@
    }

    /// The broadcaster handles, by job.
    pub closed spec fn broadcasters(self) -> Map<JobId, B> {
        self.broadcasters@
    }

    /// The jobs that are registered.
    pub open spec fn jobs(self) -> Set<JobId> {
        self.workers().dom()
    }

    /// What holds of a registry at all times: a job has a worker exactly if it has a
    /// broadcaster.
    pub open spec fn wf(self) -> bool {
        self.workers().dom() == self.broadcasters().dom()
    }

    /// A registry without jobs.
    pub fn new() -> (coordinator: Self)
        ensures
            coordinator.wf(),
            coordinator.workers() == Map::<JobId, W>::empty(),
            coordinator.broadcasters() == Map::<JobId, B>::empty(),
    {
        JobCoordinator { workers: HashMap::new(), broadcasters: HashMap::new() }
    }

    /// Enters a job under the given identifier, with both of its handles at once.
    pub fn register(&mut self, job_id: JobId, worker: W, broadcaster: B)
        requires
            old(self).wf(),
        ensures
            final(self).wf(),
            final(self).workers() == old(self).workers().insert(job_id, worker),
            final(self).broadcasters() == old(self).broadcasters().insert(job_id, broadcaster),
    {
        self.workers.insert(job_id, worker);
        self.broadcasters.insert(job_id, broadcaster);
    }

    /// Concludes the start of a job. `spawned` is the outcome of spawning the job's
    /// process: the handles of its worker and broadcaster, or the failure. On
    /// success the job is entered under an identifier drawn for it, which is
    /// returned. A failure is handed back as it came, and the registry stays as it
    /// was.
    pub fn start_job<E>(&mut self, spawned: Result<(W, B), E>) -> (started: Result<JobId, E>)
        requires
            old(self).wf(),
        ensures
            final(self).wf(),
            match spawned {
                Ok((worker, broadcaster)) => {
                    &&& started matches Ok(job_id)
                    &&& is_random_id(job_id)
                    &&& final(self).workers() == old(self).workers().insert(job_id, worker)
                    &&& final(self).broadcasters() == old(self).broadcasters().insert(
                        job_id,
                        broadcaster,
                    )
                },
                Err(failure) => {
                    &&& started == Err::<JobId, E>(failure)
                    &&& final(self).workers() == old(self).workers()
                    &&& final(self).broadcasters() == old(self).broadcasters()
                },
            },
    {
        match spawned {
            Ok((worker, broadcaster)) => {
                let job_id = new_job_id();
                self.register(job_id, worker, broadcaster);
                Ok(job_id)
            },
            Err(failure) => Err(failure),
        }
    }

    /// Finds the worker of a job.
    pub fn worker(&self, job_id: JobId) -> (found: Result<&W, JobError>)
        ensures
            match found {
                Ok(worker) => self.jobs().contains(job_id) && *worker == self.workers()[job_id],
                Err(e) => !self.jobs().contains(job_id) && e == JobError::NotFound,
            },
    {
        match self.workers.get(&job_id) {
            Some(worker) => Ok(worker),
            None => Err(JobError::NotFound),
        }
    }

    /// Finds the broadcaster of a job.
    pub fn broadcaster(&self, job_id: JobId) -> (found: Result<&B, JobError>)
        requires
            self.wf(),
        ensures
            match found {
                Ok(broadcaster) => self.jobs().contains(job_id) && *broadcaster
                    == self.broadcasters()[job_id],
                Err(e) => !self.jobs().contains(job_id) && e == JobError::NotFound,
            },
    {
        match self.broadcasters.get(&job_id) {
            Some(broadcaster) => Ok(broadcaster),
            None => Err(JobError::NotFound),
        }
    }

    /// Routes a request to stop a job: to the job's worker, or nowhere if there is
    /// no such job.
    pub fn stop_job(&self, job_id: JobId) -> (route: Result<&W, JobError>)
        ensures
            match route {
                Ok(worker) => self.jobs().contains(job_id) && *worker == self.workers()[job_id],
                Err(e) => !self.jobs().contains(job_id) && e == JobError::NotFound,
            },
    {
        self.worker(job_id)
    }

    /// Routes a request for a job's status: to the job's worker, or nowhere if there
    /// is no such job.
    pub fn get_job_status(&self, job_id: JobId) -> (route: Result<&W, JobError>)
        ensures
            match route {
                Ok(worker) => self.jobs().contains(job_id) && *worker == self.workers()[job_id],
                Err(e) => !self.jobs().contains(job_id) && e == JobError::NotFound,
            },
    {
        self.worker(job_id)
    }

    /// Routes a request for a job's standard output: to the job's broadcaster, or
    /// nowhere if there is no such job.
    pub fn stream_stdout(&self, job_id: JobId) -> (route: Result<&B, JobError>)
        requires
            self.wf(),
        ensures
            match route {
                Ok(broadcaster) => self.jobs().contains(job_id) && *broadcaster
                    == self.broadcasters()[job_id],
                Err(e) => !self.jobs().contains(job_id) && e == JobError::NotFound,
            },
    {
        self.broadcaster(job_id)
    }

    /// Routes a request for a job's standard error: to the job's broadcaster, or
    /// nowhere if there is no such job.
    pub fn stream_stderr(&self, job_id: JobId) -> (route: Result<&B, JobError>)
        requires
            self.wf(),
        ensures
            match route {
                Ok(broadcaster) => self.jobs().contains(job_id) && *broadcaster
                    == self.broadcasters()[job_id],
                Err(e) => !self.jobs().contains(job_id) && e == JobError::NotFound,
            },
    {
        self.broadcaster(job_id)
    }

    /// Routes a request for both of a job's streams: to the job's broadcaster, or
    /// nowhere if there is no such job.
    pub fn stream_all(&self, job_id: JobId) -> (route: Result<&B, JobError>)
        requires
            self.wf(),
        ensures
            match route {
                Ok(broadcaster) => self.jobs().contains(job_id) && *broadcaster
                    == self.broadcasters()[job_id],
                Err(e) => !self.jobs().contains(job_id) && e == JobError::NotFound,
            },
    {
        self.broadcaster(job_id)
    }

    /// The number of jobs that are registered.
    pub fn job_count(&self) -> (count: usize)
        ensures
            count == self.jobs().len(),
    {
        self.workers.len()
    }
}

/// A job that was registered stays registered, with the handles it was entered
/// with, when another job is entered.
pub proof fn lemma_registered_jobs_stay<W, B>(
    before: JobCoordinator<W, B>,
    after: JobCoordinator<W, B>,
    job_id: JobId,
    worker: W,
    broadcaster: B,
    earlier: JobId,
)
    requires
        after.workers() == before.workers().insert(job_id, worker),
        after.broadcasters() == before.broadcasters().insert(job_id, broadcaster),
        before.jobs().contains(earlier),
        earlier != job_id,
    ensures
        after.jobs().contains(earlier),
        after.workers()[earlier] == before.workers()[earlier],
        after.broadcasters()[earlier] == before.broadcasters()[earlier],
{
}

} // verus!
