//! The server's decisions: which worker gets a connection, what a worker
//! does next, how a request is read off a non-blocking stream, and what the
//! server answers.
use crate::data::{decode, encoding, lemma_decode_encoding, ByteCursor, Data, DataError};
use crate::transfer::ReadOutcome;
use vstd::prelude::*;
use vstd::utf8::encode_utf8;

verus! {

/// Number of worker threads connections are spread over.
pub const WORKER_COUNT: usize = 3;

/// What the server answers every request with.
pub const RESPONSE: &'static str = "Hello, client!";

/// How long the server waits before it answers, in milliseconds.
pub const RESPONSE_DELAY_MS: u64 = 1000;

/// How long a reader waits when nothing has arrived yet, in milliseconds.
pub const READ_RETRY_MS: u64 = 10;

/// The worker after `index`, round robin.
pub fn next_worker(index: usize) -> (next: usize)
    requires
        index < WORKER_COUNT,
    ensures
        next == (index + 1) % (WORKER_COUNT as int),
        next < WORKER_COUNT,
{
    let next = index + 1;
    if next == WORKER_COUNT {
        0
    } else {
        next
    }
}

/// Where an accepted connection goes.
#[derive(Debug, Clone, Copy, PartialEq, Eq, Structural)]
pub struct Dispatch {
    /// The worker that gets the connection.
    pub worker: usize,
    /// Whether that worker sleeps and must be woken (and marked awake).
    pub unpark: bool,
    /// The worker that gets the next connection.
    pub next: usize,
}

/// Routes a connection to worker `index`, whose sleeping flag is `sleeping`.
pub fn dispatch(index: usize, sleeping: bool) -> (d: Dispatch)
    requires
        index < WORKER_COUNT,
    ensures
        d.worker == index,
        d.unpark == sleeping,
        d.next == (index + 1) % (WORKER_COUNT as int),
{
    Dispatch { worker: index, unpark: sleeping, next: next_worker(index) }
}

/// What a worker does in one turn of its loop, before it polls its executor.
#[derive(Debug, Clone, Copy, PartialEq, Eq, Structural)]
pub enum WorkerAction {
    /// Spawn a task for the connection just received.
    Spawn,
    /// Nothing to do: mark itself sleeping and park.
    Park,
    /// Go on polling.
    Poll,
}

/// A worker's next move: a received connection is spawned; with none and
/// no task left it parks; otherwise it polls.
pub fn worker_action(received: bool, idle: bool) -> (a: WorkerAction)
    ensures
        received ==> a == WorkerAction::Spawn,
        !received && idle ==> a == WorkerAction::Park,
        !received && !idle ==> a == WorkerAction::Poll,
{
    if received {
        WorkerAction::Spawn
    } else if idle {
        WorkerAction::Park
    } else {
        WorkerAction::Poll
    }
}

/// What a request reader does after a read.
#[derive(Debug, Clone, Copy, PartialEq, Eq, Structural)]
pub enum RequestStep {
    /// Read again.
    Continue,
    /// Nothing has arrived yet: wait [`READ_RETRY_MS`] and read again.
    Wait,
    /// The request is complete.
    Done,
}

/// The bytes of a request read so far.
pub struct RequestBuffer {
    buffer: Vec<u8>,
}

impl View for RequestBuffer {
    type V = Seq<u8>;

    closed spec fn view(&self) -> Seq<u8> {
        self.buffer@
    }
}

/// The step a request reader holding `received` takes on a read outcome.
pub open spec fn request_step(received: Seq<u8>, outcome: ReadOutcome) -> RequestStep {
    match outcome {
        ReadOutcome::Bytes(chunk) => if chunk@.len() == 0 {
            RequestStep::Done
        } else {
            RequestStep::Continue
        },
        ReadOutcome::WouldBlock => if received.len() == 0 {
            RequestStep::Wait
        } else {
            RequestStep::Done
        },
        ReadOutcome::Failed => RequestStep::Continue,
    }
}

impl RequestBuffer {
    /// Nothing read yet.
    pub fn new() -> (r: Self)
        ensures
            r@ == Seq::<u8>::empty(),
    {
        RequestBuffer { buffer: Vec::new() }
    }

    /// Takes in the outcome of a read: a chunk is appended and reading goes
    /// on, the end of the stream ends the request, a read that would block
    /// ends it once something has arrived and waits otherwise, and a failed
    /// read is reported and retried.
    pub fn on_read(&mut self, outcome: ReadOutcome) -> (step: RequestStep)
        ensures
            step == request_step(old(self)@, outcome),
            final(self)@ == (match outcome {
                ReadOutcome::Bytes(chunk) => old(self)@ + chunk@,
                _ => old(self)@,
            }),
    {
        match outcome {
            ReadOutcome::Bytes(mut chunk) => {
                if chunk.len() == 0 {
                    assert(self.buffer@ + chunk@ =~= self.buffer@);
                    RequestStep::Done
                } else {
                    self.buffer.append(&mut chunk);
                    RequestStep::Continue
                }
            },
            ReadOutcome::WouldBlock => {
                if self.buffer.len() == 0 {
                    RequestStep::Wait
                } else {
                    RequestStep::Done
                }
            },
            ReadOutcome::Failed => RequestStep::Continue,
        }
    }

    /// Reads the message at the start of the request.
    pub fn into_message(self) -> (r: Result<Data, DataError>)
        ensures
            match decode(self@) {
                Ok(m) => r matches Ok(d) && d@ == m,
                Err(e) => r matches Err(e2) && e2 == e,
            },
    {
        let mut cursor = ByteCursor::new(self.buffer);
        assert(cursor.remaining() =~= self@);
        Data::deserialize(&mut cursor)
    }
}

/// However a client's message is cut into chunks on its way, the request
/// the chunks add up to reads back as that message.
pub proof fn law_chunked_request_reads_back(
    field1: u32,
    field2: u16,
    text: Seq<char>,
    chunks: Seq<Seq<u8>>,
)
    requires
        encode_utf8(text).len() <= u32::MAX,
        chunks.flatten() == encoding(field1, field2, text),
    ensures
        decode(chunks.flatten()) == Ok::<(u32, u16, Seq<char>), DataError>((field1, field2, text)),
{
    lemma_decode_encoding(field1, field2, text, Seq::<u8>::empty());
    assert(encoding(field1, field2, text) + Seq::<u8>::empty() =~= encoding(field1, field2, text));
}

} // verus!
