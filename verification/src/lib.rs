//! The engine of a remote job runner, verified.
//!
//! A job is one child process. Its [`worker`] keeps its status and the trigger that
//! kills it; its [`broadcaster`] keeps its whole output and hands every chunk on to
//! the consumers that subscribed, late ones included; the [`coordinator`] keeps the
//! registry of jobs. Each of the three is a state that is driven by events: the
//! tasks that wait for requests, for output and for the end of the process live
//! outside this library and call into it.
//!
//! Around the engine stand the rules of the service in front of it: who a client is
//! ([`cert`]), what a user may do ([`authz`], [`authorizer`]), and how requests and
//! answers are put ([`jobservice`], [`job_id`], [`arg_parser`]).

pub mod arg_parser;
pub mod authorizer;
pub mod authz;
pub mod broadcaster;
pub mod cert;
pub mod coordinator;
pub mod error;
pub mod errors;
pub mod events;
pub mod job_id;
pub mod jobservice;
pub mod types;
pub mod worker;

pub use events::JobStatus;
