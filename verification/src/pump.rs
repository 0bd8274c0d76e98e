//! The inbound pump as a state machine.
//!
//! The pump itself performs no I/O. The loop that owns the socket asks it,
//! once per iteration, whether to go on and how much to read, performs the
//! read, and reports what came of it; the pump answers with what to do
//! next. Its decisions are a function of its state and of what it is told,
//! written down in [`poll_step`], [`after_poll`], [`read_step`] and
//! [`after_read`].

use crate::reader::{Intake, ReaderState};
use crate::wire::{absorbed, frame_complete, in_progress, oversized, payload_of, window};
use crate::codec::header_value;
use vstd::prelude::*;

verus! {

/// How long to wait, in milliseconds, before reading again after a read
/// found nothing ready.
pub const READ_RETRY_MILLIS: u64 = 100;

/// What one nonblocking read came to.
#[derive(Debug, PartialEq, Eq)]
pub enum ReadOutcome {
    /// The read returned these bytes. None at all means that the peer has
    /// closed the connection.
    Data(Vec<u8>),
    /// Nothing was ready.
    WouldBlock,
    /// The read failed for another reason, described here.
    Failed(String),
}

/// A [`ReadOutcome`] as a value of mathematics.
pub enum ReadOutcomeView {
    Data(Seq<u8>),
    WouldBlock,
    Failed(Seq<char>),
}

impl View for ReadOutcome {
    type V = ReadOutcomeView;

    open spec fn view(&self) -> ReadOutcomeView {
        match self {
            ReadOutcome::Data(bytes) => ReadOutcomeView::Data(bytes@),
            ReadOutcome::WouldBlock => ReadOutcomeView::WouldBlock,
            ReadOutcome::Failed(reason) => ReadOutcomeView::Failed(reason@),
        }
    }
}

/// Why a pump gave up.
#[derive(Debug, PartialEq, Eq)]
pub enum PumpFault {
    /// A read failed with something other than "would block".
    ReadFailed(String),
    /// A header announced this many payload bytes, more than can be held.
    FrameTooLarge(u64),
}

/// A [`PumpFault`] as a value of mathematics.
pub enum PumpFaultView {
    ReadFailed(Seq<char>),
    FrameTooLarge(u64),
}

impl View for PumpFault {
    type V = PumpFaultView;

    open spec fn view(&self) -> PumpFaultView {
        match self {
            PumpFault::ReadFailed(reason) => PumpFaultView::ReadFailed(reason@),
            PumpFault::FrameTooLarge(announced) => PumpFaultView::FrameTooLarge(*announced),
        }
    }
}

/// The pump's answer at the start of an iteration.
#[derive(Clone, Copy, Debug, PartialEq, Eq, Structural)]
pub enum PollStep {
    /// Leave the loop: the pump is over.
    Stop,
    /// Perform one nonblocking read of at most `capacity` bytes and report
    /// it with [`Pump::on_read`].
    Read { capacity: usize },
}

/// The pump's answer to a read.
#[derive(Debug, PartialEq, Eq)]
pub enum ReadStep {
    /// Nothing to hand on; start the next iteration.
    Continue,
    /// A frame is complete: hand this payload to the handler, then start
    /// the next iteration.
    Deliver(Vec<u8>),
    /// Wait this long, then start the next iteration.
    Sleep { millis: u64 },
    /// The peer closed the connection: tell the handler so, once. The pump
    /// is over.
    Disconnected,
    /// The pump is over for the reason given; report it.
    Fail(PumpFault),
    /// The pump was over before this read; it changes nothing.
    Halted,
}

/// A [`ReadStep`] as a value of mathematics.
pub enum ReadStepView {
    Continue,
    Deliver(Seq<u8>),
    Sleep { millis: u64 },
    Disconnected,
    Fail(PumpFaultView),
    Halted,
}

impl View for ReadStep {
    type V = ReadStepView;

    open spec fn view(&self) -> ReadStepView {
        match self {
            ReadStep::Continue => ReadStepView::Continue,
            ReadStep::Deliver(payload) => ReadStepView::Deliver(payload@),
            ReadStep::Sleep { millis } => ReadStepView::Sleep { millis: *millis },
            ReadStep::Disconnected => ReadStepView::Disconnected,
            ReadStep::Fail(fault) => ReadStepView::Fail(fault@),
            ReadStep::Halted => ReadStepView::Halted,
        }
    }
}

/// What a pump is, as far as its decisions go.
pub struct PumpModel {
    /// The bytes of the frame in progress that have arrived.
    pub partial: Seq<u8>,
    /// Whether the pump is over.
    pub stopped: bool,
}

/// A pump that has seen nothing yet.
pub open spec fn fresh() -> PumpModel {
    PumpModel { partial: Seq::empty(), stopped: false }
}

/// A pump between two reads that nothing has stopped but, possibly, a
/// header that announced more than can be held.
pub open spec fn steady(pump: PumpModel) -> bool {
    in_progress(pump.partial) && (pump.stopped <==> oversized(pump.partial))
}

/// The answer at the start of an iteration: stop once shutdown was asked
/// for or the pump is over, else read into the room that is left.
pub open spec fn poll_step(pump: PumpModel, shutdown_requested: bool) -> PollStep {
    if pump.stopped || shutdown_requested {
        PollStep::Stop
    } else {
        PollStep::Read { capacity: window(pump.partial) as usize }
    }
}

/// The pump after the start of an iteration: over if shutdown was asked
/// for, unchanged otherwise. Bytes of an unfinished frame are not handed
/// on.
pub open spec fn after_poll(pump: PumpModel, shutdown_requested: bool) -> PumpModel {
    PumpModel { partial: pump.partial, stopped: pump.stopped || shutdown_requested }
}

/// The answer to a read.
pub open spec fn read_step(pump: PumpModel, outcome: ReadOutcomeView) -> ReadStepView {
    if pump.stopped {
        ReadStepView::Halted
    } else {
        match outcome {
            ReadOutcomeView::Data(chunk) => {
                let taken = pump.partial + chunk;
                if chunk.len() == 0 {
                    ReadStepView::Disconnected
                } else if frame_complete(taken) {
                    ReadStepView::Deliver(payload_of(taken))
                } else if oversized(taken) {
                    ReadStepView::Fail(PumpFaultView::FrameTooLarge(header_value(taken) as u64))
                } else {
                    ReadStepView::Continue
                }
            },
            ReadOutcomeView::WouldBlock => ReadStepView::Sleep { millis: READ_RETRY_MILLIS },
            ReadOutcomeView::Failed(reason) => ReadStepView::Fail(
                PumpFaultView::ReadFailed(reason),
            ),
        }
    }
}

/// The pump after a read.
pub open spec fn after_read(pump: PumpModel, outcome: ReadOutcomeView) -> PumpModel {
    if pump.stopped {
        pump
    } else {
        match outcome {
            ReadOutcomeView::Data(chunk) => {
                let taken = pump.partial + chunk;
                PumpModel {
                    partial: absorbed(pump.partial, chunk),
                    stopped: chunk.len() == 0 || oversized(taken),
                }
            },
            ReadOutcomeView::WouldBlock => pump,
            ReadOutcomeView::Failed(_) => PumpModel { partial: pump.partial, stopped: true },
        }
    }
}

/// The inbound side of one connection.
pub struct Pump {
    reader: ReaderState,
    stopped: bool,
}

impl View for Pump {
    type V = PumpModel;

    closed spec fn view(&self) -> PumpModel {
        PumpModel { partial: self.reader@, stopped: self.stopped }
    }
}

impl Pump {
    /// The pump's buffer is in order, and a pump that met a header too
    /// large to hold is over.
    pub closed spec fn wf(&self) -> bool {
        self.reader.wf() && (oversized(self.reader@) ==> self.stopped)
    }

    /// A well-formed pump holds less than a whole frame, the room it asks
    /// to have filled can be counted, and while it runs it is steady.
    pub proof fn lemma_in_progress(&self)
        requires
            self.wf(),
        ensures
            in_progress(self@.partial),
            self@.partial.len() + window(self@.partial) <= usize::MAX,
            !self@.stopped ==> steady(self@),
    {
        self.reader.lemma_in_progress();
    }

    /// A pump for a connection that was just made.
    pub fn new() -> (pump: Self)
        ensures
            pump.wf(),
            pump@ == fresh(),
    {
        Pump { reader: ReaderState::new(), stopped: false }
    }

    /// Whether the pump is over.
    pub fn is_stopped(&self) -> (stopped: bool)
        ensures
            stopped == self@.stopped,
    {
        self.stopped
    }

    /// Starts an iteration. `shutdown_requested` is what polling the
    /// shutdown signal gave.
    pub fn poll(&mut self, shutdown_requested: bool) -> (step: PollStep)
        requires
            old(self).wf(),
        ensures
            final(self).wf(),
            final(self)@ == after_poll(old(self)@, shutdown_requested),
            step == poll_step(old(self)@, shutdown_requested),
    {
        if self.stopped || shutdown_requested {
            self.stopped = true;
            PollStep::Stop
        } else {
            PollStep::Read { capacity: self.reader.window() }
        }
    }

    /// Takes the outcome of the read that [`Pump::poll`] asked for.
    pub fn on_read(&mut self, outcome: ReadOutcome) -> (step: ReadStep)
        requires
            old(self).wf(),
            outcome matches ReadOutcome::Data(chunk) ==> chunk@.len() <= window(
                old(self)@.partial,
            ),
        ensures
            final(self).wf(),
            final(self)@ == after_read(old(self)@, outcome@),
            step@ == read_step(old(self)@, outcome@),
    {
        if self.stopped {
            return ReadStep::Halted;
        }
        match outcome {
            ReadOutcome::Data(chunk) => {
                if chunk.len() == 0 {
                    assert(self@.partial + chunk@ =~= self@.partial);
                    proof {
                        self.lemma_in_progress();
                    }
                    self.stopped = true;
                    ReadStep::Disconnected
                } else {
                    match self.reader.accept(chunk.as_slice()) {
                        Intake::Pending => ReadStep::Continue,
                        Intake::Frame(payload) => ReadStep::Deliver(payload),
                        Intake::TooLarge(announced) => {
                            self.stopped = true;
                            ReadStep::Fail(PumpFault::FrameTooLarge(announced))
                        },
                    }
                }
            },
            ReadOutcome::WouldBlock => ReadStep::Sleep { millis: READ_RETRY_MILLIS },
            ReadOutcome::Failed(reason) => {
                self.stopped = true;
                ReadStep::Fail(PumpFault::ReadFailed(reason))
            },
        }
    }
}

} // verus!
