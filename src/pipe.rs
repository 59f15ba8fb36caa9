use vstd::prelude::*;

use crate::backoff::{advanced, BackoffState};
use crate::text::{trim, trim_of};

verus! {

/// Delay between attempts to open the broker's inbound pipe, in milliseconds.
pub const PIPE_RETRY_MS: u64 = 500;

/// First delay of a tenant's outbound-pipe reader, in milliseconds.
pub const READER_MIN_BACKOFF_MS: u64 = 500;

/// Largest delay of a tenant's outbound-pipe reader, in milliseconds.
pub const READER_MAX_BACKOFF_MS: u64 = 30_000;

/// The local single-tenant transport: publishes to standard output and
/// subscribes to the named pipe at `inbound_pipe`.
pub struct PipeBroker {
    pub inbound_pipe: String,
}

impl PipeBroker {
    pub fn new(inbound_pipe: String) -> (r: Self)
        ensures
            r.inbound_pipe == inbound_pipe,
    {
        PipeBroker { inbound_pipe }
    }

    /// The reader that serves `subscribe`: it retries a failed open after a
    /// fixed delay.
    pub fn reader(&self) -> (r: PipeReader)
        ensures
            r.wf(),
            r.phase == ReaderPhase::Opening,
            r.backoff.current == PIPE_RETRY_MS,
            r.backoff.min == PIPE_RETRY_MS,
            r.backoff.max == PIPE_RETRY_MS,
    {
        PipeReader::new(PIPE_RETRY_MS, PIPE_RETRY_MS)
    }
}

#[derive(PartialEq, Eq, Structural)]
pub enum ReaderPhase {
    /// The pipe is not open; the next step opens it.
    Opening,
    /// The pipe is open; the next step reads a line.
    Reading,
    /// The consumer is gone; the loop has ended for good.
    Stopped,
}

/// What happened on the pipe since the last action.
pub enum ReaderEvent {
    Opened,
    OpenFailed,
    /// A complete line, as read.
    Line(String),
    /// The writer closed its end.
    EndOfFile,
    ReadFailed,
    /// The line could not be handed on: nobody consumes the sequence.
    ConsumerGone,
}

/// What the loop does next.
pub enum ReaderAction {
    /// Open the pipe now.
    Open,
    /// Wait this many milliseconds, then open the pipe.
    RetryAfter(u64),
    /// Read the next line.
    ReadLine,
    /// Hand this payload to the consumer, then read the next line.
    Forward(String),
    /// End the loop.
    Stop,
}

/// The decisions of a loop that reads newline-delimited payloads from a named
/// pipe: reopen after the writer closes, retry a failed open after the
/// current backoff delay, skip blank lines, and stop only when the consumer is
/// gone.
pub struct PipeReader {
    pub phase: ReaderPhase,
    pub backoff: BackoffState,
}

impl PipeReader {
    pub open spec fn wf(&self) -> bool {
        self.backoff.wf()
    }

    pub fn new(min_ms: u64, max_ms: u64) -> (r: PipeReader)
        requires
            min_ms <= max_ms,
        ensures
            r.wf(),
            r.phase == ReaderPhase::Opening,
            r.backoff.current == min_ms,
            r.backoff.min == min_ms,
            r.backoff.max == max_ms,
    {
        PipeReader { phase: ReaderPhase::Opening, backoff: BackoffState::new(min_ms, max_ms) }
    }

    /// The reader of one tenant's outbound pipe.
    pub fn for_tenant() -> (r: PipeReader)
        ensures
            r.wf(),
            r.phase == ReaderPhase::Opening,
            r.backoff.current == READER_MIN_BACKOFF_MS,
            r.backoff.min == READER_MIN_BACKOFF_MS,
            r.backoff.max == READER_MAX_BACKOFF_MS,
    {
        PipeReader::new(READER_MIN_BACKOFF_MS, READER_MAX_BACKOFF_MS)
    }

    /// Takes one event and says what to do next.
    ///
    /// A failed open waits the current delay and doubles it; an open resets
    /// it. The end of the file or a read error reopens the pipe at once. A
    /// line whose trimmed form is empty is skipped; any other is forwarded
    /// trimmed. Once the consumer is gone the reader stops and stays stopped.
    pub fn on_event(&mut self, ev: ReaderEvent) -> (act: ReaderAction)
        requires
            old(self).wf(),
        ensures
            final(self).wf(),
            reader_step(*old(self), ev, *final(self), act),
    {
        if self.phase == ReaderPhase::Stopped {
            return ReaderAction::Stop;
        }
        match ev {
            ReaderEvent::ConsumerGone => {
                self.phase = ReaderPhase::Stopped;
                ReaderAction::Stop
            },
            ReaderEvent::OpenFailed => {
                let wait = self.backoff.current;
                self.backoff.advance();
                self.phase = ReaderPhase::Opening;
                ReaderAction::RetryAfter(wait)
            },
            ReaderEvent::Opened => {
                self.backoff.reset();
                self.phase = ReaderPhase::Reading;
                ReaderAction::ReadLine
            },
            ReaderEvent::EndOfFile => {
                self.phase = ReaderPhase::Opening;
                ReaderAction::Open
            },
            ReaderEvent::ReadFailed => {
                self.phase = ReaderPhase::Opening;
                ReaderAction::Open
            },
            ReaderEvent::Line(l) => {
                self.phase = ReaderPhase::Reading;
                let t = trim(l.as_str());
                if t.as_str().unicode_len() == 0 {
                    ReaderAction::ReadLine
                } else {
                    ReaderAction::Forward(t)
                }
            },
        }
    }
}

/// A writer closing its end never ends the subscription: whatever the reader's
/// delays, from the reading phase the end of the file leads to an immediate
/// reopen, the reopen to reading again, and the next non-blank line is
/// forwarded.
pub proof fn lemma_reopen_after_writer_closes(
    r0: PipeReader,
    r1: PipeReader,
    a1: ReaderAction,
    r2: PipeReader,
    a2: ReaderAction,
    r3: PipeReader,
    a3: ReaderAction,
    line: String,
)
    requires
        r0.wf(),
        r0.phase == ReaderPhase::Reading,
        reader_step(r0, ReaderEvent::EndOfFile, r1, a1),
        reader_step(r1, ReaderEvent::Opened, r2, a2),
        reader_step(r2, ReaderEvent::Line(line), r3, a3),
        trim_of(line@).len() > 0,
    ensures
        a1 is Open,
        r1.phase != ReaderPhase::Stopped,
        a2 is ReadLine,
        r2.phase == ReaderPhase::Reading,
        a3 matches ReaderAction::Forward(p) && p@ == trim_of(line@),
        r3.phase == ReaderPhase::Reading,
{
}

/// One step of the reader, as `on_event` takes it.
pub open spec fn reader_step(r: PipeReader, ev: ReaderEvent, n: PipeReader, act: ReaderAction) -> bool {
    &&& n.backoff.min == r.backoff.min
    &&& n.backoff.max == r.backoff.max
    &&& r.phase == ReaderPhase::Stopped ==> act is Stop && n.phase == ReaderPhase::Stopped
        && n.backoff == r.backoff
    &&& r.phase != ReaderPhase::Stopped ==> match ev {
        ReaderEvent::ConsumerGone => act is Stop && n.phase == ReaderPhase::Stopped,
        ReaderEvent::OpenFailed => act == ReaderAction::RetryAfter(r.backoff.current) && n.phase
            == ReaderPhase::Opening && n.backoff.current == advanced(
            r.backoff.current,
            r.backoff.max,
        ),
        ReaderEvent::Opened => act is ReadLine && n.phase == ReaderPhase::Reading
            && n.backoff.current == r.backoff.min,
        ReaderEvent::EndOfFile => act is Open && n.phase == ReaderPhase::Opening && n.backoff
            == r.backoff,
        ReaderEvent::ReadFailed => act is Open && n.phase == ReaderPhase::Opening && n.backoff
            == r.backoff,
        ReaderEvent::Line(l) => n.phase == ReaderPhase::Reading && n.backoff == r.backoff && (
        if trim_of(l@).len() == 0 {
            act is ReadLine
        } else {
            act matches ReaderAction::Forward(p) && p@ == trim_of(l@)
        }),
    }
}

} // verus!
