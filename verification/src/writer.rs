//! The outbound writer as a state machine.
//!
//! Sending a payload means writing its header in full and then the payload
//! in full. A nonblocking socket may accept less than it is offered, or
//! nothing for the moment; the writer keeps count, so that what the socket
//! has accepted is at all times a prefix of the frame. Like the pump it
//! performs no I/O: it says which bytes to offer next and is told what the
//! write came to.

use crate::codec::{encode_header, header_bytes, HEADER_LEN};
use crate::wire::{frame, lemma_frame_len};
use vstd::prelude::*;
use vstd::slice::slice_subrange;

verus! {

/// How long to wait, in milliseconds, before writing again after the
/// socket could take nothing.
pub const WRITE_RETRY_MILLIS: u64 = 50;

/// Why a send was given up.
#[derive(Debug, PartialEq, Eq)]
pub enum SendError {
    /// A write failed with something other than "would block". The peer may
    /// have received part of a frame: the connection is of no further use.
    Io(String),
    /// The message could not be serialized. Nothing was written.
    Serialize(String),
}

/// A [`SendError`] as a value of mathematics.
pub enum SendErrorView {
    Io(Seq<char>),
    Serialize(Seq<char>),
}

impl View for SendError {
    type V = SendErrorView;

    open spec fn view(&self) -> SendErrorView {
        match self {
            SendError::Io(reason) => SendErrorView::Io(reason@),
            SendError::Serialize(reason) => SendErrorView::Serialize(reason@),
        }
    }
}

/// What one nonblocking write came to.
#[derive(Debug, PartialEq, Eq)]
pub enum WriteOutcome {
    /// The socket accepted this many of the bytes it was offered, from the
    /// first on.
    Wrote(usize),
    /// The socket could take nothing for the moment.
    WouldBlock,
    /// The write failed for another reason, described here.
    Failed(String),
}

/// A [`WriteOutcome`] as a value of mathematics.
pub enum WriteOutcomeView {
    Wrote(nat),
    WouldBlock,
    Failed(Seq<char>),
}

impl View for WriteOutcome {
    type V = WriteOutcomeView;

    open spec fn view(&self) -> WriteOutcomeView {
        match self {
            WriteOutcome::Wrote(count) => WriteOutcomeView::Wrote(*count as nat),
            WriteOutcome::WouldBlock => WriteOutcomeView::WouldBlock,
            WriteOutcome::Failed(reason) => WriteOutcomeView::Failed(reason@),
        }
    }
}

/// The writer's answer to a write.
#[derive(Debug, PartialEq, Eq)]
pub enum SendStep {
    /// More is to be written: offer [`FrameWriter::pending`] again.
    Write,
    /// Wait this long, then offer [`FrameWriter::pending`] again.
    Sleep { millis: u64 },
    /// The whole frame has been accepted.
    Done,
    /// The send is given up with this error.
    Abort(SendError),
}

/// A [`SendStep`] as a value of mathematics.
pub enum SendStepView {
    Write,
    Sleep { millis: u64 },
    Done,
    Abort(SendErrorView),
}

impl View for SendStep {
    type V = SendStepView;

    open spec fn view(&self) -> SendStepView {
        match self {
            SendStep::Write => SendStepView::Write,
            SendStep::Sleep { millis } => SendStepView::Sleep { millis: *millis },
            SendStep::Done => SendStepView::Done,
            SendStep::Abort(error) => SendStepView::Abort(error@),
        }
    }
}

/// What a writer is, as far as its decisions go.
pub struct WriterModel {
    /// The payload being sent.
    pub payload: Seq<u8>,
    /// How many bytes of the frame the socket has accepted.
    pub sent: nat,
}

/// A writer that has yet to write the first byte of the frame for
/// `payload`.
pub open spec fn start(payload: Seq<u8>) -> WriterModel {
    WriterModel { payload, sent: 0 }
}

/// The whole frame has been accepted.
pub open spec fn finished(writer: WriterModel) -> bool {
    writer.sent == 8 + writer.payload.len()
}

/// The bytes to offer to the next write: what is left of the header while
/// the header is incomplete, what is left of the payload after that. Header
/// and payload are never offered in one write.
pub open spec fn pending(writer: WriterModel) -> Seq<u8> {
    if writer.sent < 8 {
        frame(writer.payload).subrange(writer.sent as int, 8)
    } else {
        frame(writer.payload).subrange(writer.sent as int, 8 + writer.payload.len() as int)
    }
}

/// How many bytes the next write is offered.
pub proof fn lemma_pending_len(writer: WriterModel)
    requires
        writer.sent <= 8 + writer.payload.len(),
    ensures
        pending(writer).len() == if writer.sent < 8 {
            8 - writer.sent
        } else {
            8 + writer.payload.len() - writer.sent
        },
{
    lemma_frame_len(writer.payload);
}

/// The writer after a write: further on by what the socket accepted,
/// unchanged when it accepted nothing or failed.
pub open spec fn after_write(writer: WriterModel, outcome: WriteOutcomeView) -> WriterModel {
    match outcome {
        WriteOutcomeView::Wrote(count) => WriterModel {
            payload: writer.payload,
            sent: writer.sent + count,
        },
        _ => writer,
    }
}

/// The answer to a write.
pub open spec fn write_step(writer: WriterModel, outcome: WriteOutcomeView) -> SendStepView {
    match outcome {
        WriteOutcomeView::Wrote(_) => if finished(after_write(writer, outcome)) {
            SendStepView::Done
        } else {
            SendStepView::Write
        },
        WriteOutcomeView::WouldBlock => SendStepView::Sleep { millis: WRITE_RETRY_MILLIS },
        WriteOutcomeView::Failed(reason) => SendStepView::Abort(SendErrorView::Io(reason)),
    }
}

/// The progress of one send.
pub struct FrameWriter<'a> {
    payload: &'a [u8],
    header: [u8; 8],
    header_written: usize,
    body_written: usize,
}

impl<'a> View for FrameWriter<'a> {
    type V = WriterModel;

    closed spec fn view(&self) -> WriterModel {
        WriterModel { payload: self.payload@, sent: (self.header_written + self.body_written) as nat }
    }
}

impl<'a> FrameWriter<'a> {
    /// The header is the payload's, and the payload is not begun before the
    /// header is out.
    pub closed spec fn wf(&self) -> bool {
        &&& self.payload@.len() <= usize::MAX
        &&& self.header@ == header_bytes(self.payload@.len() as u64)
        &&& self.header_written <= 8
        &&& self.body_written <= self.payload@.len()
        &&& self.header_written < 8 ==> self.body_written == 0
    }

    /// A well-formed writer has sent no more than the frame.
    pub proof fn lemma_within_frame(&self)
        requires
            self.wf(),
        ensures
            self@.sent <= 8 + self@.payload.len(),
            self@.payload.len() <= usize::MAX,
    {
    }

    /// Begins the send of `payload`.
    pub fn new(payload: &'a [u8]) -> (writer: Self)
        ensures
            writer.wf(),
            writer@ == start(payload@),
    {
        let header = encode_header(payload.len() as u64);
        FrameWriter { payload, header, header_written: 0, body_written: 0 }
    }

    /// Whether the whole frame has been accepted.
    pub fn is_done(&self) -> (done: bool)
        requires
            self.wf(),
        ensures
            done == finished(self@),
    {
        self.header_written == HEADER_LEN && self.body_written == self.payload.len()
    }

    /// The bytes to offer to the next write. There are none only when the
    /// send is done.
    pub fn pending(&self) -> (bytes: &[u8])
        requires
            self.wf(),
        ensures
            bytes@ == pending(self@),
            bytes@.len() == 0 <==> finished(self@),
    {
        proof {
            lemma_frame_len(self.payload@);
        }
        if self.header_written < HEADER_LEN {
            let bytes = slice_subrange(self.header.as_slice(), self.header_written, HEADER_LEN);
            assert(bytes@ =~= pending(self@));
            bytes
        } else {
            let bytes = slice_subrange(self.payload, self.body_written, self.payload.len());
            assert(bytes@ =~= pending(self@));
            bytes
        }
    }

    /// Takes the outcome of a write of [`FrameWriter::pending`].
    pub fn on_write(&mut self, outcome: WriteOutcome) -> (step: SendStep)
        requires
            old(self).wf(),
            outcome matches WriteOutcome::Wrote(count) ==> count <= pending(old(self)@).len(),
        ensures
            final(self).wf(),
            final(self)@ == after_write(old(self)@, outcome@),
            step@ == write_step(old(self)@, outcome@),
    {
        proof {
            self.lemma_within_frame();
            lemma_pending_len(self@);
        }
        match outcome {
            WriteOutcome::Wrote(count) => {
                if self.header_written < HEADER_LEN {
                    self.header_written = self.header_written + count;
                } else {
                    self.body_written = self.body_written + count;
                }
                if self.header_written == HEADER_LEN && self.body_written == self.payload.len() {
                    SendStep::Done
                } else {
                    SendStep::Write
                }
            },
            WriteOutcome::WouldBlock => SendStep::Sleep { millis: WRITE_RETRY_MILLIS },
            WriteOutcome::Failed(reason) => SendStep::Abort(SendError::Io(reason)),
        }
    }
}

/// The writer after a succession of writes.
pub open spec fn progress(writer: WriterModel, outcomes: Seq<WriteOutcomeView>) -> WriterModel
    decreases outcomes.len(),
{
    if outcomes.len() == 0 {
        writer
    } else {
        progress(after_write(writer, outcomes[0]), outcomes.skip(1))
    }
}

/// No write accepted more than it was offered.
pub open spec fn within_offer(writer: WriterModel, outcomes: Seq<WriteOutcomeView>) -> bool
    decreases outcomes.len(),
{
    if outcomes.len() == 0 {
        true
    } else {
        &&& outcomes[0] matches WriteOutcomeView::Wrote(count) ==> count <= pending(writer).len()
        &&& within_offer(after_write(writer, outcomes[0]), outcomes.skip(1))
    }
}

/// The bytes that the socket accepted in the course of `outcomes`, in
/// order: of each write, as many of the bytes offered as it took.
pub open spec fn accepted(writer: WriterModel, outcomes: Seq<WriteOutcomeView>) -> Seq<u8>
    decreases outcomes.len(),
{
    if outcomes.len() == 0 {
        Seq::empty()
    } else {
        let now = match outcomes[0] {
            WriteOutcomeView::Wrote(count) => pending(writer).take(count as int),
            _ => Seq::empty(),
        };
        now + accepted(after_write(writer, outcomes[0]), outcomes.skip(1))
    }
}

/// No progress is lost and none is made up: whatever the writes came to,
/// what the socket accepted in their course is the stretch of the frame
/// from where the writer stood before them to where it stands after.
pub proof fn law_accepted_bytes_continue_the_frame(
    writer: WriterModel,
    outcomes: Seq<WriteOutcomeView>,
)
    requires
        writer.sent <= 8 + writer.payload.len(),
        within_offer(writer, outcomes),
    ensures
        progress(writer, outcomes).payload == writer.payload,
        writer.sent <= progress(writer, outcomes).sent <= 8 + writer.payload.len(),
        accepted(writer, outcomes) == frame(writer.payload).subrange(
            writer.sent as int,
            progress(writer, outcomes).sent as int,
        ),
    decreases outcomes.len(),
{
    lemma_frame_len(writer.payload);
    lemma_pending_len(writer);
    let whole = frame(writer.payload);
    if outcomes.len() == 0 {
        assert(accepted(writer, outcomes) =~= whole.subrange(
            writer.sent as int,
            writer.sent as int,
        ));
    } else {
        let next = after_write(writer, outcomes[0]);
        let rest = outcomes.skip(1);
        law_accepted_bytes_continue_the_frame(next, rest);
        let end = progress(writer, outcomes).sent as int;
        match outcomes[0] {
            WriteOutcomeView::Wrote(count) => {
                assert(pending(writer).take(count as int) =~= whole.subrange(
                    writer.sent as int,
                    next.sent as int,
                ));
                assert(whole.subrange(writer.sent as int, next.sent as int) + whole.subrange(
                    next.sent as int,
                    end,
                ) =~= whole.subrange(writer.sent as int, end));
            },
            _ => {
                assert(Seq::<u8>::empty() + accepted(next, rest) =~= accepted(next, rest));
            },
        }
    }
}

/// A send that reaches its end has put exactly one frame on the wire: the
/// header for the payload's length and then the payload, whether the
/// socket took the bytes all at once or one at a time, and however often it
/// could take none.
pub proof fn law_finished_send_wrote_the_frame(payload: Seq<u8>, outcomes: Seq<WriteOutcomeView>)
    requires
        within_offer(start(payload), outcomes),
        finished(progress(start(payload), outcomes)),
    ensures
        accepted(start(payload), outcomes) == frame(payload),
{
    law_accepted_bytes_continue_the_frame(start(payload), outcomes);
    lemma_frame_len(payload);
    assert(frame(payload).subrange(0, 8 + payload.len() as int) =~= frame(payload));
}

} // verus!
