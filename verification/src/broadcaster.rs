//! The broadcaster of one job: it keeps the job's whole output and hands every
//! chunk on to the subscribers that asked for its stream.
//!
//! A subscriber is the sending half of an unbounded channel. What has gone into
//! that channel cannot be read back, so each subscriber carries a ghost record of
//! the blobs that its channel accepted, and the broadcaster keeps the records of
//! the subscribers that it has let go. The contracts are stated over these records.

use vstd::prelude::*;
use tokio::sync::mpsc::UnboundedSender;
use crate::events::{blob_bytes, OutputBlob};
use crate::types::{Chunk, Output, OutputType, replay, lemma_replay_push, lemma_replay_prefix, lemma_replay_concat, lemma_replay_all};

verus! {

/// `tokio::sync::mpsc::UnboundedSender`, the sending half of a channel without a bound.
#[verifier::external_type_specification]
#[verifier::external_body]
#[verifier::reject_recursive_types(T)]
pub struct ExUnboundedSender<T>(tokio::sync::mpsc::UnboundedSender<T>);

/// `UnboundedSender::send`: puts the blob into the channel without waiting. The
/// answer tells whether the channel took it; it does not once the receiving half
/// has been closed or dropped. Nothing is promised about which answer comes.
#[verifier::external_body]
fn send_blob(sender: &UnboundedSender<OutputBlob>, blob: OutputBlob) -> (accepted: bool) {
    sender.send(blob).is_ok()
}

/// A request to the broadcaster: a consumer's channel, and the stream it is for.
pub enum Message {
    StreamStdout { subscriber: UnboundedSender<OutputBlob> },
    StreamStderr { subscriber: UnboundedSender<OutputBlob> },
    StreamAll { subscriber: UnboundedSender<OutputBlob> },
}

/// One consumer of a job's output.
pub struct Subscriber {
    sender: UnboundedSender<OutputBlob>,
    filter: OutputType,
    delivered: Ghost<Seq<Seq<u8>>>,
}

impl Subscriber {
    /// The channel that leads to the consumer.
    pub closed spec fn sender(self) -> UnboundedSender<OutputBlob> {
        self.sender
    }

    /// The stream that the consumer asked for.
    pub closed spec fn filter(self) -> OutputType {
        self.filter
    }

    /// The blobs that the consumer's channel has accepted from this subscriber, in
    /// the order in which they were sent.
    pub closed spec fn delivered(self) -> Seq<Seq<u8>> {
        self.delivered@
    }

    /// The subscriber after its channel has accepted one more blob.
    pub closed spec fn receiving(self, payload: Seq<u8>) -> Subscriber {
        Subscriber {
            sender: self.sender,
            filter: self.filter,
            delivered: Ghost(self.delivered@.push(payload)),
        }
    }

    /// The subscriber after a chunk was published and it stayed subscribed: the chunk
    /// was delivered to it if it asked for the chunk's stream.
    pub open spec fn offered(self, chunk: Chunk) -> Subscriber {
        if self.filter().admits(chunk) {
            self.receiving(chunk.payload())
        } else {
            self
        }
    }

    /// Receiving a blob changes the record of what was delivered, and nothing else.
    pub proof fn lemma_receiving(self, payload: Seq<u8>)
        ensures
            self.receiving(payload).sender() == self.sender(),
            self.receiving(payload).filter() == self.filter(),
            self.receiving(payload).delivered() == self.delivered().push(payload),
    {
    }

    /// A subscriber to which nothing has been sent yet.
    pub fn new(sender: UnboundedSender<OutputBlob>, filter: OutputType) -> (subscriber: Subscriber)
        ensures
            subscriber.sender() == sender,
            subscriber.filter() == filter,
            subscriber.delivered() == Seq::<Seq<u8>>::empty(),
    {
        Subscriber { sender, filter, delivered: Ghost(Seq::empty()) }
    }

    /// Sends one blob, and records it if the channel took it.
    pub fn send(&mut self, blob: OutputBlob) -> (accepted: bool)
        ensures
            *final(self) == if accepted {
                old(self).receiving(blob_bytes(blob))
            } else {
                *old(self)
            },
            final(self).sender() == old(self).sender(),
            final(self).filter() == old(self).filter(),
            final(self).delivered() == if accepted {
                old(self).delivered().push(blob_bytes(blob))
            } else {
                old(self).delivered()
            },
    {
        let payload = Ghost(blob_bytes(blob));
        let accepted = send_blob(&self.sender, blob);
        self.record(payload, accepted)
    }

    /// Offers a fresh chunk: it is sent if the consumer asked for its stream. The
    /// answer is `false` only if the chunk was sent and the channel refused it.
    pub fn offer(&mut self, output: &Output) -> (alive: bool)
        ensures
            alive ==> *final(self) == old(self).offered(output@),
            !alive ==> *final(self) == *old(self) && old(self).filter().admits(output@),
    {
        if self.filter.selects(output) {
            self.send(output.blob().clone())
        } else {
            true
        }
    }

    /// Takes note of how a send ended, and hands the channel's answer on: a blob
    /// that the channel accepted is added to the record of what was delivered, and
    /// one that it refused is not.
    pub(crate) fn record(&mut self, payload: Ghost<Seq<u8>>, accepted: bool) -> (noted: bool)
        ensures
            noted == accepted,
            *final(self) == if accepted {
                old(self).receiving(payload@)
            } else {
                *old(self)
            },
    {
        if accepted {
            self.delivered = Ghost(self.delivered@.push(payload@));
        }
        accepted
    }
}

/// The subscribers that stay when a chunk is published, each with the chunk
/// delivered if it asked for it, in their old order. `alive` tells of each
/// subscriber whether it stays.
pub open spec fn survivors(subscribers: Seq<Subscriber>, alive: Seq<bool>, chunk: Chunk) -> Seq<
    Subscriber,
>
    decreases subscribers.len(),
{
    if subscribers.len() == 0 || alive.len() != subscribers.len() {
        Seq::empty()
    } else if alive.last() {
        survivors(subscribers.drop_last(), alive.drop_last(), chunk).push(
            subscribers.last().offered(chunk),
        )
    } else {
        survivors(subscribers.drop_last(), alive.drop_last(), chunk)
    }
}

/// The subscribers that are let go when a chunk is published, as they were before
/// it, in their old order.
pub open spec fn casualties(subscribers: Seq<Subscriber>, alive: Seq<bool>) -> Seq<Subscriber>
    decreases subscribers.len(),
{
    if subscribers.len() == 0 || alive.len() != subscribers.len() {
        Seq::empty()
    } else if alive.last() {
        casualties(subscribers.drop_last(), alive.drop_last())
    } else {
        casualties(subscribers.drop_last(), alive.drop_last()).push(subscribers.last())
    }
}

/// Each survivor is one of the subscribers that stay, after the chunk was offered
/// to it.
pub proof fn lemma_survivor_origin(
    subscribers: Seq<Subscriber>,
    alive: Seq<bool>,
    chunk: Chunk,
    j: int,
) -> (k: int)
    requires
        alive.len() == subscribers.len(),
        0 <= j < survivors(subscribers, alive, chunk).len(),
    ensures
        0 <= k < subscribers.len(),
        alive[k],
        survivors(subscribers, alive, chunk)[j] == subscribers[k].offered(chunk),
    decreases subscribers.len(),
{
    let rest = survivors(subscribers.drop_last(), alive.drop_last(), chunk);
    if alive.last() && j == rest.len() {
        subscribers.len() - 1
    } else {
        lemma_survivor_origin(subscribers.drop_last(), alive.drop_last(), chunk, j)
    }
}

/// Each casualty is one of the subscribers that are let go, unchanged.
pub proof fn lemma_casualty_origin(subscribers: Seq<Subscriber>, alive: Seq<bool>, j: int) -> (k:
    int)
    requires
        alive.len() == subscribers.len(),
        0 <= j < casualties(subscribers, alive).len(),
    ensures
        0 <= k < subscribers.len(),
        !alive[k],
        casualties(subscribers, alive)[j] == subscribers[k],
    decreases subscribers.len(),
{
    let rest = casualties(subscribers.drop_last(), alive.drop_last());
    if !alive.last() && j == rest.len() {
        subscribers.len() - 1
    } else {
        lemma_casualty_origin(subscribers.drop_last(), alive.drop_last(), j)
    }
}

/// Every subscriber stays or is let go: the survivors and the casualties are as many
/// as the subscribers were.
pub proof fn lemma_survivors_and_casualties(
    subscribers: Seq<Subscriber>,
    alive: Seq<bool>,
    chunk: Chunk,
)
    requires
        alive.len() == subscribers.len(),
    ensures
        survivors(subscribers, alive, chunk).len() + casualties(subscribers, alive).len()
            == subscribers.len(),
    decreases subscribers.len(),
{
    if subscribers.len() > 0 {
        lemma_survivors_and_casualties(subscribers.drop_last(), alive.drop_last(), chunk);
    }
}

/// The state of a job's broadcaster.
pub struct Actor {
    output_buffer: Vec<Output>,
    subscribers: Vec<Subscriber>,
    output_pending: bool,
    inbox_open: bool,
    departed: Ghost<Seq<Subscriber>>,
}

impl Actor {
    /// Every chunk published so far, oldest first.
    pub closed spec fn history(self) -> Seq<Chunk> {
        Seq::new(self.output_buffer@.len(), |i: int| self.output_buffer@[i]@)
    }

    /// The subscribers that are sent fresh chunks, in the order in which they
    /// subscribed.
    pub closed spec fn subscribers(self) -> Seq<Subscriber> {
        self.subscribers@
    }

    /// The subscribers that were let go, each as it was when its channel was dropped,
    /// in the order in which they went.
    pub closed spec fn departed(self) -> Seq<Subscriber> {
        self.departed@
    }

    /// Whether the worker may still publish output.
    pub closed spec fn pending(self) -> bool {
        self.output_pending
    }

    /// Whether requests may still come: whether somebody holds a handle to the
    /// broadcaster.
    pub closed spec fn listening(self) -> bool {
        self.inbox_open
    }

    /// Whether the broadcaster has anything left to wait for. Its task ends when the
    /// output has ended and no request can come any more.
    pub open spec fn alive(self) -> bool {
        self.listening() || self.pending()
    }

    /// What holds of a broadcaster at all times: each live subscriber has been sent
    /// exactly the chunks of the history that it asked for, in order; each
    /// subscriber that was let go had been sent a beginning of that; and once the
    /// output has ended nobody is subscribed any more.
    pub open spec fn wf(self) -> bool {
        &&& forall|i: int|
            0 <= i < self.subscribers().len() ==> (#[trigger] self.subscribers()[i]).delivered()
                == replay(self.history(), self.subscribers()[i].filter())
        &&& forall|i: int|
            0 <= i < self.departed().len() ==> (#[trigger] self.departed()[i]).delivered().is_prefix_of(
                replay(self.history(), self.departed()[i].filter()),
            )
        &&& !self.pending() ==> self.subscribers().len() == 0
    }

    /// What the sends of a publication did, where `alive` tells of each subscriber
    /// whether its channel is still open to it. A channel is given up only when it
    /// has refused the chunk.
    pub open spec fn delivery(before: Actor, after: Actor, chunk: Chunk, alive: Seq<bool>) -> bool {
        &&& alive.len() == before.subscribers().len()
        &&& forall|i: int|
            0 <= i < alive.len() && !#[trigger] alive[i] ==> before.subscribers()[i].filter().admits(
                chunk,
            )
        &&& after.subscribers() == survivors(before.subscribers(), alive, chunk)
        &&& after.departed() == before.departed() + casualties(before.subscribers(), alive)
    }

    /// The state after `chunk` was published in state `before`, for some outcome of
    /// the sends. A chunk is published only while the output has not ended.
    pub open spec fn published(before: Actor, after: Actor, chunk: Chunk) -> bool {
        &&& before.pending()
        &&& after.history() == before.history().push(chunk)
        &&& after.pending() == before.pending()
        &&& after.listening() == before.listening()
        &&& exists|alive: Seq<bool>| #[trigger] Actor::delivery(before, after, chunk, alive)
    }

    /// The state after a consumer was served in state `before`, for some outcome of
    /// the sends. The consumer was sent its share of the history, as far as its
    /// channel took it. If the channel took all of it and the worker may still
    /// publish, the consumer has become the last of the live subscribers. Otherwise
    /// it is the last of those that were let go.
    pub open spec fn subscribed(
        before: Actor,
        after: Actor,
        sender: UnboundedSender<OutputBlob>,
        filter: OutputType,
    ) -> bool {
        let share = replay(before.history(), filter);
        &&& after.history() == before.history()
        &&& after.pending() == before.pending()
        &&& after.listening() == before.listening()
        &&& {
            ||| {
                &&& before.pending()
                &&& after.departed() == before.departed()
                &&& after.subscribers().len() == before.subscribers().len() + 1
                &&& after.subscribers().drop_last() == before.subscribers()
                &&& after.subscribers().last().sender() == sender
                &&& after.subscribers().last().filter() == filter
                &&& after.subscribers().last().delivered() == share
            }
            ||| {
                &&& after.subscribers() == before.subscribers()
                &&& after.departed().len() == before.departed().len() + 1
                &&& after.departed().drop_last() == before.departed()
                &&& after.departed().last().sender() == sender
                &&& after.departed().last().filter() == filter
                &&& after.departed().last().delivered().is_prefix_of(share)
                &&& before.pending() ==> after.departed().last().delivered() != share
            }
        }
    }

    /// The state after the output has ended: the history is frozen and every
    /// subscriber has been let go, which closes its channel.
    pub open spec fn closed(before: Actor, after: Actor) -> bool {
        &&& after.history() == before.history()
        &&& !after.pending()
        &&& after.listening() == before.listening()
        &&& after.subscribers().len() == 0
        &&& after.departed() == before.departed() + before.subscribers()
    }

    /// The state after the last handle to the broadcaster has gone: no request can
    /// come any more. The live subscribers stay; they are served until the output
    /// ends.
    pub open spec fn unattended(before: Actor, after: Actor) -> bool {
        &&& after.history() == before.history()
        &&& after.pending() == before.pending()
        &&& !after.listening()
        &&& after.subscribers() == before.subscribers()
        &&& after.departed() == before.departed()
    }

    /// A broadcaster for a job that has produced nothing yet.
    pub fn new() -> (actor: Actor)
        ensures
            actor.wf(),
            actor.pending(),
            actor.listening(),
            actor.history() == Seq::<Chunk>::empty(),
            actor.subscribers() == Seq::<Subscriber>::empty(),
            actor.departed() == Seq::<Subscriber>::empty(),
    {
        let actor = Actor {
            output_buffer: Vec::new(),
            subscribers: Vec::new(),
            output_pending: true,
            inbox_open: true,
            departed: Ghost(Seq::empty()),
        };
        assert(actor.history() =~= Seq::<Chunk>::empty());
        actor
    }

    /// Appends a chunk to the history and sends it to every live subscriber that
    /// asked for its stream. A subscriber whose channel refuses the chunk is let go.
    /// Once the output has ended the history is frozen, and a chunk is not taken.
    pub fn broadcast(&mut self, output: Output)
        requires
            old(self).wf(),
        ensures
            final(self).wf(),
            if old(self).pending() {
                Actor::published(*old(self), *final(self), output@)
            } else {
                *final(self) == *old(self)
            },
    {
        if !self.output_pending {
            return ;
        }
        let ghost chunk = output@;
        let ghost before = self.subscribers@;
        let ghost gone = self.departed@;
        let ghost past = self.history();
        self.output_buffer.push(output);
        let last = self.output_buffer.len() - 1;
        assert(self.history() =~= past.push(chunk));
        let ghost mut alive: Seq<bool> = Seq::empty();
        let mut i: usize = 0;
        assert(before.take(0) =~= Seq::<Subscriber>::empty());
        assert(self.subscribers@ =~= survivors(before.take(0), alive, chunk) + before.skip(0));
        assert(self.departed@ =~= gone + casualties(before.take(0), alive));
        while i < self.subscribers.len()
            invariant
                last == self.output_buffer.len() - 1,
                self.output_buffer@[last as int]@ == chunk,
                self.history() == past.push(chunk),
                self.output_pending == old(self).output_pending,
                self.inbox_open == old(self).inbox_open,
                before == old(self).subscribers@,
                gone == old(self).departed@,
                0 <= i <= self.subscribers.len(),
                0 <= alive.len() <= before.len(),
                i == survivors(before.take(alive.len() as int), alive, chunk).len(),
                self.subscribers@ == survivors(before.take(alive.len() as int), alive, chunk)
                    + before.skip(alive.len() as int),
                self.departed@ == gone + casualties(before.take(alive.len() as int), alive),
                forall|k: int|
                    0 <= k < alive.len() && !#[trigger] alive[k] ==> before[k].filter().admits(
                        chunk,
                    ),
            decreases self.subscribers.len() - i,
        {
            let ghost seen = alive;
            let ghost next = alive.len() as int;
            let ghost stayed = survivors(before.take(next), alive, chunk);
            let ghost left = casualties(before.take(next), alive);
            let ghost current = self.subscribers@;
            assert(next < before.len());
            assert(current[i as int] == before[next]);
            assert(before.take(next + 1).drop_last() =~= before.take(next));
            assert(before.take(next + 1).last() == before[next]);
            let stays = self.subscribers[i].offer(&self.output_buffer[last]);
            if stays {
                proof {
                    alive = alive.push(true);
                    assert(alive.drop_last() =~= seen);
                    assert(survivors(before.take(next + 1), alive, chunk) == stayed.push(
                        before[next].offered(chunk),
                    ));
                    assert(casualties(before.take(next + 1), alive) == left);
                    assert(self.subscribers@ =~= stayed.push(before[next].offered(chunk))
                        + before.skip(next + 1));
                }
                i += 1;
            } else {
                let dropped = self.subscribers.remove(i);
                proof {
                    alive = alive.push(false);
                    assert(alive.drop_last() =~= seen);
                    assert(survivors(before.take(next + 1), alive, chunk) == stayed);
                    assert(casualties(before.take(next + 1), alive) == left.push(before[next]));
                    assert(self.subscribers@ =~= stayed + before.skip(next + 1));
                    assert(gone + left.push(before[next]) =~= (gone + left).push(before[next]));
                }
                self.departed = Ghost(self.departed@.push(dropped));
            }
        }
        proof {
            assert(alive.len() == before.len()) by {
                assert(self.subscribers@.len() == i + before.skip(alive.len() as int).len());
            }
            assert(before.take(alive.len() as int) =~= before);
            assert(before.skip(alive.len() as int) =~= Seq::<Subscriber>::empty());
            assert(self.subscribers@ =~= survivors(before, alive, chunk));
            assert(Actor::delivery(*old(self), *self, chunk, alive));
            assert forall|j: int| 0 <= j < self.subscribers().len() implies (
            #[trigger] self.subscribers()[j]).delivered() == replay(
                self.history(),
                self.subscribers()[j].filter(),
            ) by {
                let k = lemma_survivor_origin(before, alive, chunk, j);
                let was = before[k];
                assert(was.delivered() == replay(past, was.filter()));
                lemma_replay_push(past, chunk, was.filter());
                was.lemma_receiving(chunk.payload());
            }
            assert forall|j: int| 0 <= j < self.departed().len() implies (
            #[trigger] self.departed()[j]).delivered().is_prefix_of(
                replay(self.history(), self.departed()[j].filter()),
            ) by {
                let gone_now = self.departed()[j];
                if j < gone.len() {
                    assert(gone_now == old(self).departed()[j]);
                } else {
                    let k = lemma_casualty_origin(before, alive, j - gone.len());
                    assert(gone_now == before[k]);
                    assert(before[k].delivered() == replay(past, before[k].filter()));
                }
                lemma_replay_push(past, chunk, gone_now.filter());
            }
        }
    }

    /// Sends a subscriber its share of the history, oldest chunk first, and stops at
    /// the first blob that the channel refuses.
    pub fn replay_history(&self, subscriber: &mut Subscriber) -> (complete: bool)
        ensures
            final(subscriber).sender() == old(subscriber).sender(),
            final(subscriber).filter() == old(subscriber).filter(),
            complete ==> final(subscriber).delivered() == old(subscriber).delivered() + replay(
                self.history(),
                old(subscriber).filter(),
            ),
            !complete ==> exists|n: int|
                0 <= n < replay(self.history(), old(subscriber).filter()).len()
                    && final(subscriber).delivered() == old(subscriber).delivered()
                    + #[trigger] replay(self.history(), old(subscriber).filter()).take(n),
    {
        let ghost start = subscriber.delivered();
        let ghost filter = subscriber.filter();
        let ghost history = self.history();
        let mut k: usize = 0;
        assert(history.take(0) =~= Seq::<Chunk>::empty());
        assert(start + replay(history.take(0), filter) =~= start);
        while k < self.output_buffer.len()
            invariant
                0 <= k <= self.output_buffer.len(),
                history == self.history(),
                history.len() == self.output_buffer.len(),
                start == old(subscriber).delivered(),
                filter == old(subscriber).filter(),
                subscriber.sender() == old(subscriber).sender(),
                subscriber.filter() == filter,
                subscriber.delivered() == start + replay(history.take(k as int), filter),
            decreases self.output_buffer.len() - k,
        {
            let ghost sent = replay(history.take(k as int), filter);
            proof {
                assert(history.take(k + 1) =~= history.take(k as int).push(history[k as int]));
                lemma_replay_push(history.take(k as int), history[k as int], filter);
                assert(history[k as int] == self.output_buffer@[k as int]@);
            }
            if subscriber.filter.selects(&self.output_buffer[k]) {
                let accepted = subscriber.send(self.output_buffer[k].blob().clone());
                if !accepted {
                    proof {
                        lemma_replay_prefix(history, k as int + 1, filter);
                        let whole = replay(history, filter);
                        let n = sent.len() as int;
                        assert(replay(history.take(k + 1), filter).len() == n + 1);
                        assert(whole.take(n + 1) == sent.push(history[k as int].payload()));
                        assert(whole.take(n) =~= whole.take(n + 1).take(n));
                        assert(whole.take(n) =~= sent);
                    }
                    return false;
                }
                assert(start + sent.push(history[k as int].payload()) =~= (start + sent).push(
                    history[k as int].payload(),
                ));
            }
            k += 1;
        }
        assert(history.take(k as int) =~= history);
        true
    }

    /// Serves a consumer: its share of the history is sent to it, and if its channel
    /// took all of that and the worker may still publish, it joins the live
    /// subscribers. Otherwise the consumer is let go at once.
    pub fn subscribe(&mut self, output_tx: UnboundedSender<OutputBlob>, filter: OutputType)
        requires
            old(self).wf(),
        ensures
            final(self).wf(),
            Actor::subscribed(*old(self), *final(self), output_tx, filter),
    {
        let mut subscriber = Subscriber::new(output_tx, filter);
        let complete = self.replay_history(&mut subscriber);
        let ghost share = replay(self.history(), filter);
        assert(Seq::<Seq<u8>>::empty() + share =~= share);
        if complete && self.output_pending {
            let ghost before = self.subscribers@;
            self.subscribers.push(subscriber);
            assert(self.subscribers@.drop_last() =~= before);
        } else {
            let ghost before = self.departed@;
            proof {
                if !complete {
                    let n = choose|n: int|
                        0 <= n < share.len() && subscriber.delivered() == Seq::<Seq<u8>>::empty()
                            + #[trigger] share.take(n);
                    assert(Seq::<Seq<u8>>::empty() + share.take(n) =~= share.take(n));
                }
            }
            self.departed = Ghost(self.departed@.push(subscriber));
            assert(self.departed@.drop_last() =~= before);
        }
    }

    /// Serves a consumer of the standard output.
    pub fn stream_stdout(&mut self, output_tx: UnboundedSender<OutputBlob>)
        requires
            old(self).wf(),
        ensures
            final(self).wf(),
            Actor::subscribed(*old(self), *final(self), output_tx, OutputType::Stdout),
    {
        self.subscribe(output_tx, OutputType::Stdout)
    }

    /// Serves a consumer of the standard error.
    pub fn stream_stderr(&mut self, output_tx: UnboundedSender<OutputBlob>)
        requires
            old(self).wf(),
        ensures
            final(self).wf(),
            Actor::subscribed(*old(self), *final(self), output_tx, OutputType::Stderr),
    {
        self.subscribe(output_tx, OutputType::Stderr)
    }

    /// Serves a consumer of both streams, in the order in which their chunks were
    /// published.
    pub fn stream_all(&mut self, output_tx: UnboundedSender<OutputBlob>)
        requires
            old(self).wf(),
        ensures
            final(self).wf(),
            Actor::subscribed(*old(self), *final(self), output_tx, OutputType::All),
    {
        self.subscribe(output_tx, OutputType::All)
    }

    /// Ends the output: lets every subscriber go and freezes the history.
    pub fn close_output(&mut self)
        requires
            old(self).wf(),
        ensures
            final(self).wf(),
            Actor::closed(*old(self), *final(self)),
    {
        self.departed = Ghost(self.departed@ + self.subscribers@);
        self.subscribers.clear();
        self.output_pending = false;
    }

    /// Serves one request.
    pub fn handle_request(&mut self, request: Message)
        requires
            old(self).wf(),
        ensures
            final(self).wf(),
            Actor::subscribed(*old(self), *final(self), request.subscriber(), request.filter()),
    {
        match request {
            Message::StreamStdout { subscriber } => self.stream_stdout(subscriber),
            Message::StreamStderr { subscriber } => self.stream_stderr(subscriber),
            Message::StreamAll { subscriber } => self.stream_all(subscriber),
        }
    }

    /// Takes what the inbox yielded: a request, or `None` once every handle to the
    /// broadcaster is gone. The answer tells whether the broadcaster has anything
    /// left to wait for.
    pub fn on_inbox(&mut self, received: Option<Message>) -> (alive: bool)
        requires
            old(self).wf(),
        ensures
            final(self).wf(),
            alive == final(self).alive(),
            match received {
                Some(request) => Actor::subscribed(
                    *old(self),
                    *final(self),
                    request.subscriber(),
                    request.filter(),
                ),
                None => Actor::unattended(*old(self), *final(self)),
            },
    {
        match received {
            Some(request) => self.handle_request(request),
            None => {
                self.inbox_open = false;
            },
        }
        self.inbox_open || self.output_pending
    }

    /// Takes what the worker's output channel yielded: a chunk, or `None` once both
    /// of the worker's readers are done. After the output has ended nothing more is
    /// taken. The answer tells whether the broadcaster has anything left to wait
    /// for.
    pub fn on_output(&mut self, received: Option<Output>) -> (alive: bool)
        requires
            old(self).wf(),
        ensures
            final(self).wf(),
            alive == final(self).alive(),
            !old(self).pending() ==> *final(self) == *old(self),
            old(self).pending() ==> match received {
                Some(output) => Actor::published(*old(self), *final(self), output@),
                None => Actor::closed(*old(self), *final(self)),
            },
    {
        if self.output_pending {
            match received {
                Some(output) => self.broadcast(output),
                None => self.close_output(),
            }
        }
        self.inbox_open || self.output_pending
    }

    /// Whether requests may still come.
    pub fn inbox_open(&self) -> (open: bool)
        ensures
            open == self.listening(),
    {
        self.inbox_open
    }

    /// Whether the worker may still publish output.
    pub fn output_pending(&self) -> (pending: bool)
        ensures
            pending == self.pending(),
    {
        self.output_pending
    }

    /// The number of chunks published so far.
    pub fn history_len(&self) -> (len: usize)
        ensures
            len == self.history().len(),
    {
        self.output_buffer.len()
    }

    /// The number of live subscribers.
    pub fn subscriber_count(&self) -> (count: usize)
        ensures
            count == self.subscribers().len(),
    {
        self.subscribers.len()
    }
}

impl Message {
    /// The channel of the consumer that asks.
    pub open spec fn subscriber(self) -> UnboundedSender<OutputBlob> {
        match self {
            Message::StreamStdout { subscriber } => subscriber,
            Message::StreamStderr { subscriber } => subscriber,
            Message::StreamAll { subscriber } => subscriber,
        }
    }

    /// The stream that the consumer asks for.
    pub open spec fn filter(self) -> OutputType {
        match self {
            Message::StreamStdout { .. } => OutputType::Stdout,
            Message::StreamStderr { .. } => OutputType::Stderr,
            Message::StreamAll { .. } => OutputType::All,
        }
    }
}

/// A live subscriber has been sent its share of the history as it stood when it
/// subscribed, followed by its share of the chunks published since then, in the
/// order in which they were published: nothing twice, nothing left out.
pub proof fn lemma_subscriber_receives_history_then_live(
    joined: Seq<Chunk>,
    since: Seq<Chunk>,
    now: Actor,
    i: int,
)
    requires
        now.wf(),
        now.history() == joined + since,
        0 <= i < now.subscribers().len(),
    ensures
        now.subscribers()[i].delivered() == replay(joined, now.subscribers()[i].filter())
            + replay(since, now.subscribers()[i].filter()),
{
    lemma_replay_concat(joined, since, now.subscribers()[i].filter());
}

/// A subscriber that stayed until the output ended was let go with its whole share
/// of the output delivered to it.
pub proof fn lemma_subscriber_at_the_end_has_its_whole_share(before: Actor, after: Actor, i: int)
    requires
        before.wf(),
        Actor::closed(before, after),
        0 <= i < before.subscribers().len(),
    ensures
        after.departed()[before.departed().len() + i] == before.subscribers()[i],
        before.subscribers()[i].delivered() == replay(
            after.history(),
            before.subscribers()[i].filter(),
        ),
{
}

/// Two consumers of the same stream, live or let go, were sent the same blobs in
/// the same order, as far as each of them got: what one of them was sent is a
/// beginning of what the other was sent.
pub proof fn lemma_same_filter_same_sequence(actor: Actor, a: Subscriber, b: Subscriber)
    requires
        actor.wf(),
        actor.subscribers().contains(a) || actor.departed().contains(a),
        actor.subscribers().contains(b) || actor.departed().contains(b),
        a.filter() == b.filter(),
    ensures
        a.delivered().is_prefix_of(b.delivered()) || b.delivered().is_prefix_of(a.delivered()),
        actor.subscribers().contains(a) && actor.subscribers().contains(b) ==> a.delivered()
            == b.delivered(),
{
    let share = replay(actor.history(), a.filter());
    assert(a.delivered().is_prefix_of(share));
    assert(b.delivered().is_prefix_of(share));
    if a.delivered().len() <= b.delivered().len() {
        assert(a.delivered().is_prefix_of(b.delivered()));
    } else {
        assert(b.delivered().is_prefix_of(a.delivered()));
    }
}

/// A live subscriber to both streams has been sent the whole output of the job so
/// far, blob by blob.
pub proof fn lemma_stream_all_reproduces_output(actor: Actor, i: int)
    requires
        actor.wf(),
        0 <= i < actor.subscribers().len(),
        actor.subscribers()[i].filter() == OutputType::All,
    ensures
        actor.subscribers()[i].delivered() == Seq::new(
            actor.history().len(),
            |k: int| actor.history()[k].payload(),
        ),
{
    lemma_replay_all(actor.history());
}

/// The history only grows: whatever the broadcaster does, what was published
/// before is still there, in the same places. The output ends once and for all.
pub proof fn lemma_history_only_grows(
    before: Actor,
    after: Actor,
    chunk: Chunk,
    sender: UnboundedSender<OutputBlob>,
    filter: OutputType,
)
    requires
        Actor::published(before, after, chunk) || Actor::subscribed(before, after, sender, filter)
            || Actor::closed(before, after) || Actor::unattended(before, after),
    ensures
        before.history().is_prefix_of(after.history()),
        !before.pending() ==> !after.pending() && after.history() == before.history(),
{
}

/// Publishing a chunk never adds a subscriber, and every subscriber that was live
/// before is live or let go afterwards.
pub proof fn lemma_publication_accounts_for_every_subscriber(
    before: Actor,
    after: Actor,
    chunk: Chunk,
)
    requires
        Actor::published(before, after, chunk),
    ensures
        after.subscribers().len() <= before.subscribers().len(),
        after.subscribers().len() + after.departed().len() == before.subscribers().len()
            + before.departed().len(),
{
    let alive = choose|alive: Seq<bool>| #[trigger] Actor::delivery(before, after, chunk, alive);
    lemma_survivors_and_casualties(before.subscribers(), alive, chunk);
}

} // verus!
