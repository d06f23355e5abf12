//! The transport of a session, as far as it decides anything: what a read
//! from the socket means, and how the queue of outgoing bytes is written
//! out without holding up the reads.
//!
//! The host owns the socket and the channels. It tells here what came of
//! each read, write and flush, and is told what to do next. Times are
//! milliseconds on the host's monotonic clock.

use vstd::prelude::*;
use vstd::string::*;
use crate::moonlight_client::{elapsed, ConnectMode};
use crate::text::{decimal_of, owned, push_decimal, push_str};

verus! {

/// The name of the production service.
pub open spec fn prod_host() -> Seq<char> {
    "device.fostrom.dev"@
}

/// The port of the production service.
pub const PROD_PORT: u16 = 8484;

/// How many bytes one read takes at most.
pub const READ_CHUNK: usize = 8192;

/// How long a read may block, in milliseconds.
pub const READ_TIMEOUT_MS: u64 = 50;

/// How long a write may block, in milliseconds.
pub const WRITE_TIMEOUT_MS: u64 = 250;

/// How long a message may wait to be written out before the connection
/// counts as stalled, in milliseconds.
pub const MAX_PENDING_WRITE_AGE_MS: u64 = 10_000;

/// How many bytes are written in one round before the transport reads
/// again.
pub const WRITE_TICK_MAX_BYTES: usize = 65_536;

/// How many messages are completed in one round before the transport
/// reads again.
pub const WRITE_TICK_MAX_MESSAGES: usize = 32;

/// How long the transport pauses when the socket takes no more bytes, in
/// milliseconds.
pub const RETRY_SLEEP_MS: u64 = 5;

/// The address that the transport connects to: the production service at
/// its port, or this machine at the given port.
pub open spec fn address_text(mode: ConnectMode) -> Seq<char> {
    match mode {
        ConnectMode::Prod => prod_host() + ":"@ + decimal_of(PROD_PORT as nat),
        ConnectMode::Local(port) => "127.0.0.1:"@ + decimal_of(port as nat),
    }
}

/// The address that the transport connects to, as `host:port`.
pub fn address(mode: ConnectMode) -> (r: String)
    ensures
        r@ == address_text(mode),
{
    match mode {
        ConnectMode::Prod => {
            let mut s = owned("device.fostrom.dev");
            push_str(&mut s, ":");
            push_decimal(&mut s, PROD_PORT as u64);
            s
        },
        ConnectMode::Local(port) => {
            let mut s = owned("127.0.0.1:");
            push_decimal(&mut s, port as u64);
            s
        },
    }
}

/// Whether the transport speaks TLS: it does to the production service
/// and does not to a server on this machine.
pub fn uses_tls(mode: ConnectMode) -> (r: bool)
    ensures
        r == (mode is Prod),
{
    match mode {
        ConnectMode::Prod => true,
        ConnectMode::Local(_) => false,
    }
}

/// The kinds of failure of a read, a write or a flush that the transport
/// tells apart.
#[derive(Debug, Clone, Copy, PartialEq, Eq, Structural)]
pub enum IoFailure {
    WouldBlock,
    TimedOut,
    Interrupted,
    Other,
}

/// What came of a read or a write: the number of bytes, or a failure.
#[derive(Debug, Clone, Copy, PartialEq, Eq, Structural)]
pub enum IoOutcome {
    Done(usize),
    Failed(IoFailure),
}

/// What the transport does after a read.
#[derive(Debug, Clone, Copy, PartialEq, Eq, Structural)]
pub enum ReadStep {
    /// Hand this many bytes from the start of the read buffer to the
    /// session.
    Emit(usize),
    /// No data this round.
    Nothing,
    /// Read again at once.
    Retry,
    /// The connection has ended.
    Fatal,
}

/// What a read means: no bytes mean that the server has closed the
/// connection; a read that would block or has timed out means no data
/// this round; an interrupted read is made again; any other failure ends
/// the connection.
pub open spec fn read_step(outcome: IoOutcome) -> ReadStep {
    match outcome {
        IoOutcome::Done(n) => if n == 0 {
            ReadStep::Fatal
        } else {
            ReadStep::Emit(n)
        },
        IoOutcome::Failed(IoFailure::WouldBlock) => ReadStep::Nothing,
        IoOutcome::Failed(IoFailure::TimedOut) => ReadStep::Nothing,
        IoOutcome::Failed(IoFailure::Interrupted) => ReadStep::Retry,
        IoOutcome::Failed(IoFailure::Other) => ReadStep::Fatal,
    }
}

/// What the transport does after a read: see [`read_step`].
pub fn socket_read(outcome: IoOutcome) -> (step: ReadStep)
    ensures
        step == read_step(outcome),
{
    match outcome {
        IoOutcome::Done(n) => {
            if n == 0 {
                ReadStep::Fatal
            } else {
                ReadStep::Emit(n)
            }
        },
        IoOutcome::Failed(IoFailure::WouldBlock) => ReadStep::Nothing,
        IoOutcome::Failed(IoFailure::TimedOut) => ReadStep::Nothing,
        IoOutcome::Failed(IoFailure::Interrupted) => ReadStep::Retry,
        IoOutcome::Failed(IoFailure::Other) => ReadStep::Fatal,
    }
}

/// What came of taking a message from the queue of outgoing bytes.
#[derive(Debug, Clone, PartialEq, Eq)]
pub enum Taken {
    Message(Vec<u8>),
    Empty,
    Disconnected,
}

/// What the transport does next in a round of writing.
#[derive(Debug, Clone, Copy, PartialEq, Eq, Structural)]
pub enum WriteStep {
    /// Take the next message from the queue and tell of it.
    Take,
    /// Write the pending message from this offset on and tell of it.
    Write(usize),
    /// Pause for [`RETRY_SLEEP_MS`], then flush: the round is over.
    Pause,
    /// Flush: the round is over.
    Flush,
    /// The connection has ended.
    Fatal,
}

/// The writer's state, as the contracts speak of it.
pub struct WriterView {
    /// The message that is being written, if any.
    pub pending: Option<Seq<u8>>,
    /// How many of its bytes have been written.
    pub offset: int,
    /// When it was taken from the queue.
    pub since: u64,
    /// How many bytes have been written in this round.
    pub bytes_written: int,
    /// How many messages have been completed in this round.
    pub messages_completed: int,
}

/// The state of the writer: the message that is being written out, and
/// how far the current round has got.
pub struct Writer {
    pending: Option<Vec<u8>>,
    offset: usize,
    since: u64,
    bytes_written: usize,
    messages_completed: usize,
}

impl View for Writer {
    type V = WriterView;

    closed spec fn view(&self) -> WriterView {
        WriterView {
            pending: match self.pending {
                Some(bytes) => Some(bytes@),
                None => None,
            },
            offset: self.offset as int,
            since: self.since,
            bytes_written: self.bytes_written as int,
            messages_completed: self.messages_completed as int,
        }
    }
}

/// Whether the round has written as much as a round may.
pub open spec fn round_full(w: WriterView) -> bool {
    w.bytes_written >= WRITE_TICK_MAX_BYTES || w.messages_completed >= WRITE_TICK_MAX_MESSAGES
}

/// What the writer does first when it has a pending message or none:
/// with none it takes one; one that has waited for longer than
/// [`MAX_PENDING_WRITE_AGE_MS`] ends the connection; else it is written
/// from where the last write got to.
pub open spec fn next_step(w: WriterView, now: u64) -> WriteStep {
    match w.pending {
        None => WriteStep::Take,
        Some(_) => if elapsed(now, w.since) > MAX_PENDING_WRITE_AGE_MS {
            WriteStep::Fatal
        } else {
            WriteStep::Write(w.offset as usize)
        },
    }
}

/// The writer after a message was or was not taken from the queue, and
/// what it does next: an empty message is skipped, a message becomes the
/// pending one, an empty queue ends the round, and a queue that is gone
/// ends the connection.
pub open spec fn after_take(w: WriterView, taken: Taken, now: u64) -> (WriterView, WriteStep) {
    match taken {
        Taken::Message(bytes) => if bytes@.len() == 0 {
            (w, WriteStep::Take)
        } else {
            let next = WriterView { pending: Some(bytes@), offset: 0, since: now, ..w };
            (next, next_step(next, now))
        },
        Taken::Empty => (w, WriteStep::Flush),
        Taken::Disconnected => (w, WriteStep::Fatal),
    }
}

/// The writer after a write, and what it does next. Bytes that were
/// written are counted and move the offset, and a message that is written
/// out whole is done and counted; the counts stop at the largest number
/// that can be held. The round goes on until it is full. A write of no
/// bytes, of more bytes than were to be written, and a failure of another
/// kind end the connection; a write that would block or has timed out
/// ends the round after a pause; an interrupted write is made again.
pub open spec fn after_write(w: WriterView, outcome: IoOutcome, now: u64) -> (WriterView, WriteStep) {
    match outcome {
        IoOutcome::Done(n) => if n == 0 || w.pending is None || w.offset + n > w.pending->0.len() {
            (w, WriteStep::Fatal)
        } else {
            let whole = w.offset + n >= w.pending->0.len();
            let next = WriterView {
                pending: if whole {
                    None
                } else {
                    w.pending
                },
                offset: if whole {
                    0
                } else {
                    w.offset + n
                },
                bytes_written: if w.bytes_written + n > usize::MAX {
                    usize::MAX as int
                } else {
                    w.bytes_written + n
                },
                messages_completed: if whole && w.messages_completed < usize::MAX {
                    w.messages_completed + 1
                } else {
                    w.messages_completed
                },
                ..w
            };
            if round_full(next) {
                (next, WriteStep::Flush)
            } else {
                (next, next_step(next, now))
            }
        },
        IoOutcome::Failed(IoFailure::WouldBlock) => (w, WriteStep::Pause),
        IoOutcome::Failed(IoFailure::TimedOut) => (w, WriteStep::Pause),
        IoOutcome::Failed(IoFailure::Interrupted) => (w, next_step(w, now)),
        IoOutcome::Failed(IoFailure::Other) => (w, WriteStep::Fatal),
    }
}

/// Whether the connection goes on after a flush: it does unless the flush
/// failed in another way than by blocking, timing out or being
/// interrupted.
pub open spec fn flush_ok(outcome: Option<IoFailure>) -> bool {
    !(outcome == Some(IoFailure::Other))
}

impl Writer {
    /// Whether the writer's state is in order: the offset lies within the
    /// pending message, before its end, and is zero where nothing is
    /// pending.
    pub open spec fn wf(&self) -> bool {
        &&& self@.pending is Some ==> 0 <= self@.offset < self@.pending->0.len()
        &&& self@.pending is None ==> self@.offset == 0
        &&& 0 <= self@.bytes_written
        &&& 0 <= self@.messages_completed
    }

    /// A writer with nothing pending.
    pub fn new() -> (w: Writer)
        ensures
            w.wf(),
            w@ == (WriterView {
                pending: None,
                offset: 0,
                since: 0,
                bytes_written: 0,
                messages_completed: 0,
            }),
    {
        Writer { pending: None, offset: 0, since: 0, bytes_written: 0, messages_completed: 0 }
    }

    /// Whether a message is being written out.
    pub fn has_pending(&self) -> (r: bool)
        ensures
            r == (self@.pending is Some),
    {
        self.pending.is_some()
    }

    /// Whether the round has written as much as a round may.
    pub fn round_is_full(&self) -> (r: bool)
        ensures
            r == round_full(self@),
    {
        self.bytes_written >= WRITE_TICK_MAX_BYTES || self.messages_completed
            >= WRITE_TICK_MAX_MESSAGES
    }

    /// The bytes of the pending message that are still to be written.
    pub fn remaining(&self) -> (r: &[u8])
        requires
            self.wf(),
        ensures
            match self@.pending {
                Some(bytes) => r@ == bytes.subrange(self@.offset, bytes.len() as int),
                None => r@.len() == 0,
            },
    {
        match &self.pending {
            Some(bytes) => vstd::slice::slice_subrange(bytes.as_slice(), self.offset, bytes.len()),
            None => {
                let empty: &[u8] = &[];
                empty
            },
        }
    }

    /// How many bytes wait in the pending message.
    pub fn queued_bytes(&self) -> (n: usize)
        requires
            self.wf(),
        ensures
            n == match self@.pending {
                Some(bytes) => bytes.len() - self@.offset,
                None => 0,
            },
    {
        match &self.pending {
            Some(bytes) => bytes.len() - self.offset,
            None => 0,
        }
    }

    /// Starts a round of writing: the counts of the round start at zero.
    /// See [`next_step`].
    pub fn begin_round(&mut self, now: u64) -> (step: WriteStep)
        requires
            old(self).wf(),
        ensures
            final(self).wf(),
            final(self)@ == (WriterView { bytes_written: 0, messages_completed: 0, ..old(self)@ }),
            step == next_step(final(self)@, now),
    {
        self.bytes_written = 0;
        self.messages_completed = 0;
        self.step(now)
    }

    fn step(&self, now: u64) -> (step: WriteStep)
        requires
            self.wf(),
        ensures
            step == next_step(self@, now),
    {
        match &self.pending {
            None => WriteStep::Take,
            Some(_) => {
                if now >= self.since && now - self.since > MAX_PENDING_WRITE_AGE_MS {
                    WriteStep::Fatal
                } else {
                    WriteStep::Write(self.offset)
                }
            },
        }
    }

    /// Tells the writer what came of taking a message from the queue: see
    /// [`after_take`].
    pub fn on_take(&mut self, taken: Taken, now: u64) -> (step: WriteStep)
        requires
            old(self).wf(),
            old(self)@.pending is None,
        ensures
            final(self).wf(),
            final(self)@ == after_take(old(self)@, taken, now).0,
            step == after_take(old(self)@, taken, now).1,
    {
        match taken {
            Taken::Message(bytes) => {
                if bytes.len() == 0 {
                    WriteStep::Take
                } else {
                    self.pending = Some(bytes);
                    self.offset = 0;
                    self.since = now;
                    self.step(now)
                }
            },
            Taken::Empty => WriteStep::Flush,
            Taken::Disconnected => WriteStep::Fatal,
        }
    }

    /// Tells the writer what came of a write of the remaining bytes: see
    /// [`after_write`].
    pub fn on_write(&mut self, outcome: IoOutcome, now: u64) -> (step: WriteStep)
        requires
            old(self).wf(),
        ensures
            final(self).wf(),
            final(self)@ == after_write(old(self)@, outcome, now).0,
            step == after_write(old(self)@, outcome, now).1,
    {
        match outcome {
            IoOutcome::Done(n) => {
                let len = match &self.pending {
                    Some(bytes) => bytes.len(),
                    None => {
                        return WriteStep::Fatal;
                    },
                };
                if n == 0 || n > len - self.offset {
                    return WriteStep::Fatal;
                }
                self.bytes_written = if n > usize::MAX - self.bytes_written {
                    usize::MAX
                } else {
                    self.bytes_written + n
                };
                if self.offset + n >= len {
                    self.pending = None;
                    self.offset = 0;
                    if self.messages_completed < usize::MAX {
                        self.messages_completed = self.messages_completed + 1;
                    }
                } else {
                    self.offset = self.offset + n;
                }
                if self.bytes_written >= WRITE_TICK_MAX_BYTES || self.messages_completed
                    >= WRITE_TICK_MAX_MESSAGES {
                    WriteStep::Flush
                } else {
                    self.step(now)
                }
            },
            IoOutcome::Failed(IoFailure::WouldBlock) => WriteStep::Pause,
            IoOutcome::Failed(IoFailure::TimedOut) => WriteStep::Pause,
            IoOutcome::Failed(IoFailure::Interrupted) => self.step(now),
            IoOutcome::Failed(IoFailure::Other) => WriteStep::Fatal,
        }
    }

    /// Whether the connection goes on after the flush that ends a round:
    /// see [`flush_ok`].
    pub fn on_flush(outcome: Option<IoFailure>) -> (ok: bool)
        ensures
            ok == flush_ok(outcome),
    {
        match outcome {
            Some(IoFailure::Other) => false,
            _ => true,
        }
    }
}


/// How the wait for the server's answer to a close stands.
#[derive(Debug, Clone, Copy, PartialEq, Eq, Structural)]
pub enum CloseAck {
    /// Fewer bytes than the answer takes have come.
    Waiting,
    /// The server has closed the connection in its turn.
    Complete,
    /// The bytes that came are not the answer.
    Unexpected,
    /// More bytes have come than the answer takes.
    TooLong,
}

/// How the wait stands after these bytes: the answer to a close is the
/// frame by which the server closes the connection, which is the two
/// bytes 1 and 1.
pub open spec fn close_ack_spec(received: Seq<u8>) -> CloseAck {
    if received.len() < 2 {
        CloseAck::Waiting
    } else if received.len() > 2 {
        CloseAck::TooLong
    } else if received == crate::codec::encode_spec(
        crate::packet::Frame::CloseConnection { server: true },
    ) {
        CloseAck::Complete
    } else {
        CloseAck::Unexpected
    }
}

/// How the wait for the server's answer to a close stands after these
/// bytes: see [`close_ack_spec`].
pub fn close_ack(received: &[u8]) -> (r: CloseAck)
    ensures
        r == close_ack_spec(received@),
{
    if received.len() < 2 {
        CloseAck::Waiting
    } else if received.len() > 2 {
        CloseAck::TooLong
    } else if received[0] == 1 && received[1] == 1 {
        assert(received@ =~= seq![1u8, 1u8]);
        CloseAck::Complete
    } else {
        CloseAck::Unexpected
    }
}

} // verus!
