//! Sending and receiving a whole message over a non-blocking stream, as a
//! pair of state machines. The caller performs each read or write, hands
//! its outcome in, and does what the returned step says.
use vstd::prelude::*;

verus! {

/// What one non-blocking read gave. An empty chunk means the peer closed
/// the stream.
pub enum ReadOutcome {
    Bytes(Vec<u8>),
    WouldBlock,
    Failed,
}

/// What the receiver does after a read.
#[derive(Debug, Clone, Copy, PartialEq, Eq, Structural)]
pub enum ReceiveStep {
    /// Read again.
    Continue,
    /// Nothing has arrived yet: wake the task later and wait.
    Pending,
    /// The message is complete: hand the buffer out.
    Complete,
    /// The read failed: hand its error out.
    Failed,
}

/// The bytes received so far.
pub struct ReceiveBuffer {
    buffer: Vec<u8>,
}

impl View for ReceiveBuffer {
    type V = Seq<u8>;

    closed spec fn view(&self) -> Seq<u8> {
        self.buffer@
    }
}

/// The step a receiver holding `received` takes on a read outcome.
pub open spec fn receive_step(received: Seq<u8>, outcome: ReadOutcome) -> ReceiveStep {
    match outcome {
        ReadOutcome::Bytes(chunk) => if chunk@.len() == 0 {
            ReceiveStep::Complete
        } else {
            ReceiveStep::Continue
        },
        ReadOutcome::WouldBlock => if received.len() == 0 {
            ReceiveStep::Pending
        } else {
            ReceiveStep::Complete
        },
        ReadOutcome::Failed => ReceiveStep::Failed,
    }
}

impl ReceiveBuffer {
    /// Nothing received yet.
    pub fn new() -> (r: Self)
        ensures
            r@ == Seq::<u8>::empty(),
    {
        ReceiveBuffer { buffer: Vec::new() }
    }

    /// A copy of the bytes received so far.
    pub fn contents(&self) -> (v: Vec<u8>)
        ensures
            v@ == self@,
    {
        let mut v: Vec<u8> = Vec::new();
        let mut i: usize = 0;
        while i < self.buffer.len()
            invariant
                i <= self.buffer@.len(),
                v@ == self.buffer@.take(i as int),
            decreases self.buffer@.len() - i,
        {
            v.push(self.buffer[i]);
            i = i + 1;
            assert(v@ =~= self.buffer@.take(i as int));
        }
        assert(self.buffer@.take(self.buffer@.len() as int) =~= self.buffer@);
        v
    }

    /// Number of bytes received so far.
    pub fn len(&self) -> (n: usize)
        ensures
            n == self@.len(),
    {
        self.buffer.len()
    }

    /// Takes in the outcome of a read: a chunk is appended, the end of the
    /// stream completes the message, a read that would block completes it
    /// when something has arrived and waits otherwise.
    pub fn on_read(&mut self, outcome: ReadOutcome) -> (step: ReceiveStep)
        ensures
            step == receive_step(old(self)@, outcome),
            final(self)@ == (match outcome {
                ReadOutcome::Bytes(chunk) => old(self)@ + chunk@,
                _ => old(self)@,
            }),
    {
        match outcome {
            ReadOutcome::Bytes(mut chunk) => {
                if chunk.len() == 0 {
                    assert(self.buffer@ + chunk@ =~= self.buffer@);
                    ReceiveStep::Complete
                } else {
                    self.buffer.append(&mut chunk);
                    ReceiveStep::Continue
                }
            },
            ReadOutcome::WouldBlock => {
                if self.buffer.len() == 0 {
                    ReceiveStep::Pending
                } else {
                    ReceiveStep::Complete
                }
            },
            ReadOutcome::Failed => ReceiveStep::Failed,
        }
    }
}

/// What one non-blocking write gave: the number of bytes taken, or why none.
#[derive(Debug, Clone, Copy, PartialEq, Eq, Structural)]
pub enum WriteOutcome {
    Wrote(usize),
    WouldBlock,
    Failed,
}

/// What the sender does after a write.
#[derive(Debug, Clone, Copy, PartialEq, Eq, Structural)]
pub enum SendStep {
    /// Write the rest, or finish if nothing is left.
    Continue,
    /// The stream is full: wake the task later and wait.
    Pending,
    /// The stream took no byte: fail with "write zero bytes".
    WriteZero,
    /// The write failed: hand its error out.
    Failed,
}

/// A message being written, and how much of it has been taken.
pub struct SendBuffer {
    buffer: Vec<u8>,
    written: usize,
}

impl SendBuffer {
    #[verifier::type_invariant]
    spec fn inv(self) -> bool {
        self.written <= self.buffer@.len()
    }

    /// The whole message.
    pub closed spec fn message(self) -> Seq<u8> {
        self.buffer@
    }

    /// How many bytes of the message the stream has taken.
    pub closed spec fn sent(self) -> int {
        self.written as int
    }

    /// The written count lies within the message.
    pub open spec fn in_bounds(self) -> bool {
        0 <= self.sent() <= self.message().len()
    }

    /// A message of which nothing has been written.
    pub fn new(buffer: Vec<u8>) -> (s: Self)
        ensures
            s.in_bounds(),
            s.message() == buffer@,
            s.sent() == 0,
    {
        SendBuffer { buffer, written: 0 }
    }

    /// How many bytes have been written.
    pub fn written(&self) -> (n: usize)
        ensures
            n == self.sent(),
            self.in_bounds(),
    {
        proof {
            use_type_invariant(self);
        }
        self.written
    }

    /// Whether the whole message has been written.
    pub fn is_complete(&self) -> (b: bool)
        ensures
            self.in_bounds(),
            b == (self.sent() >= self.message().len()),
            b == (self.sent() == self.message().len()),
    {
        proof {
            use_type_invariant(self);
        }
        self.written >= self.buffer.len()
    }

    /// The part of the message not written yet.
    pub fn unwritten(&self) -> (rest: &[u8])
        ensures
            self.in_bounds(),
            rest@ == self.message().subrange(self.sent(), self.message().len() as int),
    {
        proof {
            use_type_invariant(self);
        }
        let all = self.buffer.as_slice();
        &all[self.written..self.buffer.len()]
    }

    /// Takes in the outcome of writing the unwritten part. A write never
    /// takes more than it was given.
    pub fn on_write(&mut self, outcome: WriteOutcome) -> (step: SendStep)
        requires
            outcome matches WriteOutcome::Wrote(n) ==> n <= old(self).message().len() - old(
                self,
            ).sent(),
        ensures
            old(self).in_bounds(),
            final(self).in_bounds(),
            final(self).message() == old(self).message(),
            final(self).sent() == sent_after(old(self).sent(), outcome),
            match outcome {
                WriteOutcome::Wrote(n) => if n == 0 {
                    step == SendStep::WriteZero && final(self).sent() == old(self).sent()
                } else {
                    step == SendStep::Continue && final(self).sent() == old(self).sent() + n
                },
                WriteOutcome::WouldBlock => step == SendStep::Pending && final(self).sent() == old(
                    self,
                ).sent(),
                WriteOutcome::Failed => step == SendStep::Failed && final(self).sent() == old(
                    self,
                ).sent(),
            },
    {
        proof {
            use_type_invariant(&*self);
        }
        match outcome {
            WriteOutcome::Wrote(n) => {
                if n == 0 {
                    SendStep::WriteZero
                } else {
                    let len = self.buffer.len();
                    assert(n <= len - self.written);
                    self.written = self.written + n;
                    SendStep::Continue
                }
            },
            WriteOutcome::WouldBlock => SendStep::Pending,
            WriteOutcome::Failed => SendStep::Failed,
        }
    }
}

/// Each write that makes progress takes the next bytes of the message in
/// order, so the bytes taken are always a prefix of the message and, when
/// the sender completes, the whole of it.
pub proof fn law_writes_take_prefixes(message: Seq<u8>, sent: int, n: int)
    requires
        0 <= sent,
        0 < n,
        sent + n <= message.len(),
    ensures
        message.take(sent) + message.subrange(sent, message.len() as int).take(n) == message.take(
            sent + n,
        ),
        sent + n == message.len() ==> message.take(sent + n) == message,
{
    assert(message.take(sent) + message.subrange(sent, message.len() as int).take(n)
        =~= message.take(sent + n));
    if sent + n == message.len() {
        assert(message.take(sent + n) =~= message);
    }
}

/// How many bytes are written after one write outcome.
pub open spec fn sent_after(sent: int, outcome: WriteOutcome) -> int {
    match outcome {
        WriteOutcome::Wrote(n) => sent + n,
        _ => sent,
    }
}

/// Every write in the run takes no more than what is left of a message of
/// `len` bytes of which `sent` are written (what std's `Write` promises).
pub open spec fn writes_fit(len: int, sent: int, outcomes: Seq<WriteOutcome>) -> bool
    decreases outcomes.len(),
{
    if outcomes.len() == 0 {
        true
    } else {
        &&& (outcomes[0] matches WriteOutcome::Wrote(n) ==> n <= len - sent)
        &&& writes_fit(len, sent_after(sent, outcomes[0]), outcomes.drop_first())
    }
}

/// How many bytes are written after a run of write outcomes.
pub open spec fn sent_after_run(sent: int, outcomes: Seq<WriteOutcome>) -> int
    decreases outcomes.len(),
{
    if outcomes.len() == 0 {
        sent
    } else {
        sent_after_run(sent_after(sent, outcomes[0]), outcomes.drop_first())
    }
}

/// Over any run of writes, the count of written bytes never goes back and
/// never passes the end of the message; it grows only by what the stream
/// took.
pub proof fn law_sent_count_grows_within_message(len: int, sent: int, outcomes: Seq<WriteOutcome>)
    requires
        0 <= sent <= len,
        writes_fit(len, sent, outcomes),
    ensures
        sent <= sent_after_run(sent, outcomes) <= len,
    decreases outcomes.len(),
{
    if outcomes.len() > 0 {
        law_sent_count_grows_within_message(
            len,
            sent_after(sent, outcomes[0]),
            outcomes.drop_first(),
        );
    }
}

} // verus!
