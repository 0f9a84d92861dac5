//! The worker of one job: it keeps the job's status, and the trigger by which the
//! job's process is killed.
//!
//! The worker's task waits on its inbox and on the report of the process's end, and
//! hands what it gets to the functions here. They decide; the waiting is not theirs.

use vstd::prelude::*;
use tokio::sync::oneshot::Sender;
use crate::error::Error;
use crate::events::JobStatus;

verus! {

/// The size of the buffer into which a reader reads the process's output: no chunk is
/// longer than this.
pub const READ_BUFFER_CAPACITY: usize = 4096;

/// `tokio::sync::oneshot::Sender`, the sending half of a channel for one value.
#[verifier::external_type_specification]
#[verifier::external_body]
#[verifier::reject_recursive_types(T)]
pub struct ExOneshotSender<T>(tokio::sync::oneshot::Sender<T>);

/// `oneshot::Sender::send`: uses the sender up and hands the value over without
/// waiting. The answer tells whether the receiving half was still there to take it.
/// Nothing is promised about which answer comes.
#[verifier::external_body]
fn send_once<T>(sender: Sender<T>, value: T) -> (accepted: bool) {
    sender.send(value).is_ok()
}

/// A request to the worker, with the channel on which the answer is expected.
#[allow(inconsistent_fields)]
pub enum WorkerMessage {
    GetStatus { response: Sender<Result<JobStatus, Error>> },
    Stop { response: Sender<Result<(), Error>> },
}

/// What can happen to a worker.
pub ghost enum Event {
    /// A request for the status.
    GetStatus,
    /// A request to stop the job.
    Stop,
    /// The last handle to the worker is gone.
    InboxClosed,
    /// The supervisor of the process reports, with the status where it has one.
    ChildExit(Option<JobStatus>),
}

/// A worker as the contracts see it.
pub ghost struct State {
    /// The status as far as the worker knows it.
    pub status: JobStatus,
    /// Whether the kill trigger is still there to be fired.
    pub armed: bool,
    /// Whether the kill trigger has been fired.
    pub fired: bool,
}

impl State {
    /// The worker of a process that was just spawned.
    pub open spec fn initial() -> State {
        State { status: JobStatus::Running, armed: true, fired: false }
    }

    /// The answer to a request to stop: granted when the job is running and has not
    /// been stopped before.
    pub open spec fn stop_reply(self) -> Result<(), Error> {
        if self.status is Running && self.armed {
            Ok(())
        } else {
            Err(Error::AlreadyStopped)
        }
    }

    /// The worker after one event. The trigger is used up by the first request to
    /// stop and by the end of the inbox; it is fired by a request to stop that is
    /// granted, and by the end of the inbox if it is still there. The status changes
    /// once, from running to the status that the supervisor reports.
    pub open spec fn step(self, event: Event) -> State {
        match event {
            Event::GetStatus => self,
            Event::Stop => State {
                status: self.status,
                armed: false,
                fired: self.fired || self.stop_reply() is Ok,
            },
            Event::InboxClosed => State {
                status: self.status,
                armed: false,
                fired: self.fired || self.armed,
            },
            Event::ChildExit(Some(status)) => if self.status is Running {
                State { status, armed: self.armed, fired: self.fired }
            } else {
                self
            },
            Event::ChildExit(None) => self,
        }
    }

    /// The worker after a sequence of events.
    pub open spec fn run(self, events: Seq<Event>) -> State
        decreases events.len(),
    {
        if events.len() == 0 {
            self
        } else {
            self.run(events.drop_last()).step(events.last())
        }
    }
}

/// An answer that the worker gave to a request.
pub ghost enum Reply {
    /// The status, in answer to a request for it.
    Status(Result<JobStatus, Error>),
    /// Whether the job was stopped, in answer to a request to stop it.
    Stopped(Result<(), Error>),
}

impl WorkerMessage {
    /// The answer that a worker in the given state owes to the message.
    pub open spec fn answer(self, state: State) -> Reply {
        match self {
            WorkerMessage::GetStatus { .. } => Reply::Status(Ok(state.status)),
            WorkerMessage::Stop { .. } => Reply::Stopped(state.stop_reply()),
        }
    }

    /// The event that the message stands for.
    pub open spec fn event(self) -> Event {
        match self {
            WorkerMessage::GetStatus { .. } => Event::GetStatus,
            WorkerMessage::Stop { .. } => Event::Stop,
        }
    }
}

/// The state of a job's worker.
pub struct Actor {
    kill_tx: Option<Sender<()>>,
    job_status: JobStatus,
    fired: Ghost<bool>,
    replies: Ghost<Seq<Reply>>,
}

impl View for Actor {
    type V = State;

    closed spec fn view(&self) -> State {
        State { status: self.job_status, armed: self.kill_tx is Some, fired: self.fired@ }
    }
}

impl Actor {
    /// The answers that the worker has sent to the requests in its inbox, oldest
    /// first, whether or not the requester was still there to take them.
    pub closed spec fn replies(self) -> Seq<Reply> {
        self.replies@
    }

    /// The worker of a process that was just spawned. Firing `kill_tx` makes the
    /// supervisor kill the process.
    pub fn new(kill_tx: Sender<()>) -> (actor: Actor)
        ensures
            actor@ == State::initial(),
            actor.replies() == Seq::<Reply>::empty(),
    {
        Actor {
            kill_tx: Some(kill_tx),
            job_status: JobStatus::Running,
            fired: Ghost(false),
            replies: Ghost(Seq::empty()),
        }
    }

    /// The status of the job as far as the worker knows it.
    pub fn get_status(&self) -> (status: JobStatus)
        ensures
            status == self@.status,
    {
        self.job_status
    }

    /// Stops the job: fires the kill trigger, if the job is running and the trigger
    /// is still there. The trigger is used up either way. The process is not waited
    /// for.
    pub fn stop(&mut self) -> (reply: Result<(), Error>)
        ensures
            reply == old(self)@.stop_reply(),
            final(self)@ == old(self)@.step(Event::Stop),
            final(self).replies() == old(self).replies(),
    {
        let trigger = self.kill_tx.take();
        match self.job_status {
            JobStatus::Running => match trigger {
                Some(kill_tx) => {
                    send_once(kill_tx, ());
                    self.fired = Ghost(true);
                    Ok(())
                },
                None => Err(Error::AlreadyStopped),
            },
            _ => Err(Error::AlreadyStopped),
        }
    }

    /// Takes the supervisor's report. A running job takes on the reported status; a
    /// job whose status is terminal keeps it.
    pub fn on_child_exit(&mut self, report: Option<JobStatus>)
        ensures
            final(self)@ == old(self)@.step(Event::ChildExit(report)),
            final(self).replies() == old(self).replies(),
    {
        if let Some(status) = report {
            if !self.job_status.terminated() {
                self.job_status = status;
            }
        }
    }

    /// Serves one request and sends the answer on the channel that came with it. A
    /// requester that is gone is no failure.
    pub fn handle_message(&mut self, message: WorkerMessage)
        ensures
            final(self)@ == old(self)@.step(message.event()),
            final(self).replies() == old(self).replies().push(message.answer(old(self)@)),
    {
        match message {
            WorkerMessage::GetStatus { response } => {
                let reply = Ok(self.get_status());
                send_once(response, reply);
                self.replies = Ghost(self.replies@.push(Reply::Status(reply)));
            },
            WorkerMessage::Stop { response } => {
                let reply = self.stop();
                send_once(response, reply);
                self.replies = Ghost(self.replies@.push(Reply::Stopped(reply)));
            },
        }
    }

    /// Takes what the inbox yielded: a request, or `None` once every handle to the
    /// worker is gone. The answer tells whether the worker lives on; at the end of
    /// the inbox it fires the kill trigger, if that is still there, and stops.
    pub fn on_inbox(&mut self, received: Option<WorkerMessage>) -> (alive: bool)
        ensures
            alive == (received is Some),
            final(self)@ == old(self)@.step(
                match received {
                    Some(message) => message.event(),
                    None => Event::InboxClosed,
                },
            ),
            final(self).replies() == match received {
                Some(message) => old(self).replies().push(message.answer(old(self)@)),
                None => old(self).replies(),
            },
    {
        match received {
            Some(message) => {
                self.handle_message(message);
                true
            },
            None => {
                if let Some(kill_tx) = self.kill_tx.take() {
                    send_once(kill_tx, ());
                    self.fired = Ghost(true);
                }
                false
            },
        }
    }
}

/// What a reader of the process's output does with the outcome of a read: a read
/// that brought bytes is published as a chunk, and the reader goes on. At the end of
/// the stream, and on an error, the reader stops.
pub fn read_yields_chunk(outcome: Option<usize>) -> (publish: bool)
    ensures
        publish == (outcome matches Some(n) && n > 0),
{
    match outcome {
        Some(n) => n > 0,
        None => false,
    }
}

/// A status that is terminal stays as it is, whatever happens to the worker.
pub proof fn lemma_terminal_status_is_final(state: State, events: Seq<Event>)
    requires
        state.status.is_terminal(),
    ensures
        state.run(events).status == state.status,
    decreases events.len(),
{
    if events.len() > 0 {
        lemma_terminal_status_is_final(state, events.drop_last());
    }
}

/// A status never goes back to running: if the job is running after some events, it
/// was running before them.
pub proof fn lemma_status_never_returns_to_running(state: State, events: Seq<Event>)
    ensures
        state.run(events).status is Running ==> state.status is Running,
{
    if state.status.is_terminal() {
        lemma_terminal_status_is_final(state, events);
    }
}

/// Once a worker was asked to stop, every later request to stop is refused as
/// already stopped, whatever happens in between.
pub proof fn lemma_second_stop_is_refused(state: State, events: Seq<Event>)
    ensures
        !state.step(Event::Stop).run(events).armed,
        state.step(Event::Stop).run(events).stop_reply() == Err::<(), Error>(Error::AlreadyStopped),
    decreases events.len(),
{
    if events.len() > 0 {
        lemma_second_stop_is_refused(state, events.drop_last());
    }
}

/// The kill trigger is fired at most once: a trigger that was fired is gone, and
/// stays gone and fired.
pub proof fn lemma_trigger_fires_once(state: State, events: Seq<Event>)
    requires
        state.fired ==> !state.armed,
    ensures
        state.run(events).fired ==> !state.run(events).armed,
        state.fired ==> state.run(events).fired,
        !state.armed ==> !state.run(events).armed && state.run(events).fired == state.fired,
    decreases events.len(),
{
    if events.len() > 0 {
        lemma_trigger_fires_once(state, events.drop_last());
    }
}

/// The first request to stop a job is granted if the job is still running, and
/// refused as already stopped if its process has ended.
pub proof fn lemma_first_stop(events: Seq<Event>)
    requires
        forall|i: int| 0 <= i < events.len() ==> events[i] is GetStatus || events[i] is ChildExit,
    ensures
        State::initial().run(events).armed,
        State::initial().run(events).stop_reply() is Ok <==> State::initial().run(
            events,
        ).status is Running,
    decreases events.len(),
{
    if events.len() > 0 {
        lemma_first_stop(events.drop_last());
    }
}

/// Asking for the status changes nothing: two requests with no end of the process
/// between them see the same status.
pub proof fn lemma_get_status_observes(state: State, events: Seq<Event>)
    requires
        forall|i: int| 0 <= i < events.len() ==> !(events[i] is ChildExit),
    ensures
        state.step(Event::GetStatus) == state,
        state.run(events).status == state.status,
    decreases events.len(),
{
    if events.len() > 0 {
        lemma_get_status_observes(state, events.drop_last());
    }
}

} // verus!
