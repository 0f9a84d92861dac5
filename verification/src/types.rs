//! The values that travel through the engine.

use vstd::prelude::*;
use crate::events::{blob_bytes, OutputBlob};

verus! {

/// Name of the program to run, resolved through the search path.
pub type Program = String;

/// Arguments handed to the program.
pub type Args = Vec<String>;

/// Working directory of the program.
pub type Dir = String;

/// Environment of the program, as pairs of name and value.
pub type Envs = Vec<(String, String)>;

/// Identifier of a job: 128 bits, drawn at random when the job starts.
pub type JobId = u128;

/// Which of a job's streams a consumer asks for.
#[derive(Clone, Copy, Debug, PartialEq, Eq, PartialOrd, Ord, Structural)]
pub enum OutputType {
    Stdout,
    Stderr,
    All,
}

/// One chunk of a job's output, tagged with the stream it was read from.
pub enum Output {
    Stdout(OutputBlob),
    Stderr(OutputBlob),
}

impl Clone for Output {
    fn clone(&self) -> (copy: Output)
        ensures
            copy@ == self@,
    {
        match self {
            Output::Stdout(blob) => Output::Stdout(blob.clone()),
            Output::Stderr(blob) => Output::Stderr(blob.clone()),
        }
    }
}

/// A chunk as the contracts see it: the stream and the bytes.
pub ghost enum Chunk {
    Stdout(Seq<u8>),
    Stderr(Seq<u8>),
}

impl Chunk {
    /// The bytes of the chunk, whichever stream they came from.
    pub open spec fn payload(self) -> Seq<u8> {
        match self {
            Chunk::Stdout(b) => b,
            Chunk::Stderr(b) => b,
        }
    }
}

impl View for Output {
    type V = Chunk;

    open spec fn view(&self) -> Chunk {
        match *self {
            Output::Stdout(blob) => Chunk::Stdout(blob_bytes(blob)),
            Output::Stderr(blob) => Chunk::Stderr(blob_bytes(blob)),
        }
    }
}

impl OutputType {
    /// Whether a consumer that asked for this stream is sent the given chunk.
    pub open spec fn admits(self, chunk: Chunk) -> bool {
        match self {
            OutputType::Stdout => chunk is Stdout,
            OutputType::Stderr => chunk is Stderr,
            OutputType::All => true,
        }
    }

    /// Decides whether a chunk belongs to what the consumer asked for.
    pub fn selects(&self, output: &Output) -> (r: bool)
        ensures
            r == self.admits(output@),
    {
        match self {
            OutputType::Stdout => match output {
                Output::Stdout(_) => true,
                Output::Stderr(_) => false,
            },
            OutputType::Stderr => match output {
                Output::Stdout(_) => false,
                Output::Stderr(_) => true,
            },
            OutputType::All => true,
        }
    }
}

impl Output {
    /// The blob that the chunk carries.
    pub fn blob(&self) -> (blob: &OutputBlob)
        ensures
            blob_bytes(*blob) == self@.payload(),
    {
        match self {
            Output::Stdout(blob) => blob,
            Output::Stderr(blob) => blob,
        }
    }
}

/// The chunks of a history that a filter admits, as the blobs' bytes, in order.
pub open spec fn replay(history: Seq<Chunk>, filter: OutputType) -> Seq<Seq<u8>>
    decreases history.len(),
{
    if history.len() == 0 {
        Seq::empty()
    } else if filter.admits(history.last()) {
        replay(history.drop_last(), filter).push(history.last().payload())
    } else {
        replay(history.drop_last(), filter)
    }
}

/// Publishing one more chunk adds it to a consumer's share if the consumer asked for
/// its stream, and leaves the share as it was otherwise.
pub proof fn lemma_replay_push(history: Seq<Chunk>, chunk: Chunk, filter: OutputType)
    ensures
        replay(history.push(chunk), filter) == if filter.admits(chunk) {
            replay(history, filter).push(chunk.payload())
        } else {
            replay(history, filter)
        },
{
    assert(history.push(chunk).drop_last() =~= history);
}

/// What a consumer was due after the first `k` chunks is the beginning of what it is
/// due after all of them.
pub proof fn lemma_replay_prefix(history: Seq<Chunk>, k: int, filter: OutputType)
    requires
        0 <= k <= history.len(),
    ensures
        replay(history.take(k), filter).len() <= replay(history, filter).len(),
        replay(history, filter).take(replay(history.take(k), filter).len() as int) == replay(
            history.take(k),
            filter,
        ),
    decreases history.len(),
{
    if k == history.len() {
        assert(history.take(k) =~= history);
        assert(replay(history, filter).take(replay(history, filter).len() as int) =~= replay(
            history,
            filter,
        ));
    } else {
        let shorter = history.drop_last();
        assert(shorter.take(k) =~= history.take(k));
        lemma_replay_prefix(shorter, k, filter);
        let n = replay(history.take(k), filter).len() as int;
        assert(replay(history, filter).take(n) =~= replay(shorter, filter).take(n));
    }
}

/// A consumer's share of a history in two parts is its share of the first part
/// followed by its share of the second.
pub proof fn lemma_replay_concat(earlier: Seq<Chunk>, later: Seq<Chunk>, filter: OutputType)
    ensures
        replay(earlier + later, filter) == replay(earlier, filter) + replay(later, filter),
    decreases later.len(),
{
    if later.len() == 0 {
        assert(earlier + later =~= earlier);
        assert(replay(earlier, filter) + replay(later, filter) =~= replay(earlier, filter));
    } else {
        let shorter = later.drop_last();
        lemma_replay_concat(earlier, shorter, filter);
        assert((earlier + later).drop_last() =~= earlier + shorter);
        assert((earlier + later).last() == later.last());
        assert(replay(earlier, filter) + replay(shorter, filter).push(later.last().payload())
            =~= (replay(earlier, filter) + replay(shorter, filter)).push(later.last().payload()));
    }
}

/// A consumer of both streams is due every chunk of the history, in the order of the
/// history.
pub proof fn lemma_replay_all(history: Seq<Chunk>)
    ensures
        replay(history, OutputType::All) == Seq::new(
            history.len(),
            |i: int| history[i].payload(),
        ),
    decreases history.len(),
{
    if history.len() > 0 {
        lemma_replay_all(history.drop_last());
    }
    assert(replay(history, OutputType::All) =~= Seq::new(
        history.len(),
        |i: int| history[i].payload(),
    ));
}

} // verus!
