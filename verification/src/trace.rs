//! Whole runs of the pump: what it answers, in order, to everything it is
//! told from the first iteration on, and what holds of every such run.

use crate::pump::{
    after_poll, after_read, fresh, poll_step, read_step, steady, PollStep, PumpModel,
    ReadOutcomeView, ReadStepView,
};
use crate::wire::{
    fits, frame, frame_complete, frames_in, in_progress, leads_with_frame, lemma_frames_in_wire,
    lemma_header_value_of_prefix, payload_of, residue, window, wire,
};
use crate::codec::{header_bytes, header_value, lemma_header_round_trip};
use vstd::prelude::*;

verus! {

/// One thing the pump is told.
pub enum PumpInput {
    /// An iteration starts; the shutdown signal was polled.
    Poll { shutdown_requested: bool },
    /// The read of this iteration returned.
    Read(ReadOutcomeView),
}

/// One answer of the pump.
pub enum PumpOutput {
    Polled(PollStep),
    Reacted(ReadStepView),
}

/// The pump after it was told `input`.
pub open spec fn step_state(pump: PumpModel, input: PumpInput) -> PumpModel {
    match input {
        PumpInput::Poll { shutdown_requested } => after_poll(pump, shutdown_requested),
        PumpInput::Read(outcome) => after_read(pump, outcome),
    }
}

/// The pump's answer to `input`.
pub open spec fn step_output(pump: PumpModel, input: PumpInput) -> PumpOutput {
    match input {
        PumpInput::Poll { shutdown_requested } => PumpOutput::Polled(
            poll_step(pump, shutdown_requested),
        ),
        PumpInput::Read(outcome) => PumpOutput::Reacted(read_step(pump, outcome)),
    }
}

/// The pump's answers to `inputs`, one for each, in order.
pub open spec fn run(pump: PumpModel, inputs: Seq<PumpInput>) -> Seq<PumpOutput>
    decreases inputs.len(),
{
    if inputs.len() == 0 {
        Seq::empty()
    } else {
        seq![step_output(pump, inputs[0])] + run(step_state(pump, inputs[0]), inputs.skip(1))
    }
}

/// The pump after all of `inputs`.
pub open spec fn end_state(pump: PumpModel, inputs: Seq<PumpInput>) -> PumpModel
    decreases inputs.len(),
{
    if inputs.len() == 0 {
        pump
    } else {
        end_state(step_state(pump, inputs[0]), inputs.skip(1))
    }
}

/// An answer that asks for nothing: no read, no delivery, no signal.
pub open spec fn quiet(output: PumpOutput) -> bool {
    output == PumpOutput::Polled(PollStep::Stop) || output == PumpOutput::Reacted(
        ReadStepView::Halted,
    )
}

/// The payloads handed to the handler in the course of `outputs`.
pub open spec fn deliveries(outputs: Seq<PumpOutput>) -> Seq<Seq<u8>>
    decreases outputs.len(),
{
    if outputs.len() == 0 {
        Seq::empty()
    } else {
        match outputs[0] {
            PumpOutput::Reacted(ReadStepView::Deliver(payload)) => seq![payload] + deliveries(
                outputs.skip(1),
            ),
            _ => deliveries(outputs.skip(1)),
        }
    }
}

/// All bytes that the reads among `inputs` returned, in order.
pub open spec fn received(inputs: Seq<PumpInput>) -> Seq<u8>
    decreases inputs.len(),
{
    if inputs.len() == 0 {
        Seq::empty()
    } else {
        match inputs[0] {
            PumpInput::Read(ReadOutcomeView::Data(chunk)) => chunk + received(inputs.skip(1)),
            _ => received(inputs.skip(1)),
        }
    }
}

/// A run in which the connection stays up: shutdown is never asked for, no
/// read fails, and every read that returns brings at least one byte and at
/// most as many as there was room for.
pub open spec fn orderly(pump: PumpModel, inputs: Seq<PumpInput>) -> bool
    decreases inputs.len(),
{
    if inputs.len() == 0 {
        true
    } else {
        &&& match inputs[0] {
            PumpInput::Poll { shutdown_requested } => !shutdown_requested,
            PumpInput::Read(ReadOutcomeView::Data(chunk)) => 0 < chunk.len() <= window(
                pump.partial,
            ),
            PumpInput::Read(ReadOutcomeView::WouldBlock) => true,
            PumpInput::Read(ReadOutcomeView::Failed(_)) => false,
        }
        &&& orderly(step_state(pump, inputs[0]), inputs.skip(1))
    }
}

/// A run can be cut in two: the answers are those to the first part,
/// followed by those that the pump gives to the rest from where the first
/// part left it.
pub proof fn lemma_run_split(pump: PumpModel, inputs: Seq<PumpInput>, at: int)
    requires
        0 <= at <= inputs.len(),
    ensures
        run(pump, inputs).len() == inputs.len(),
        run(pump, inputs) == run(pump, inputs.take(at)) + run(
            end_state(pump, inputs.take(at)),
            inputs.skip(at),
        ),
        end_state(pump, inputs) == end_state(end_state(pump, inputs.take(at)), inputs.skip(at)),
    decreases inputs.len(),
{
    if inputs.len() == 0 {
        assert(inputs.take(at) =~= inputs);
        assert(inputs.skip(at) =~= inputs);
    } else if at == 0 {
        assert(inputs.take(0) =~= Seq::<PumpInput>::empty());
        assert(inputs.skip(0) =~= inputs);
        lemma_run_split(step_state(pump, inputs[0]), inputs.skip(1), 0);
        assert(run(pump, inputs) =~= Seq::<PumpOutput>::empty() + run(pump, inputs));
    } else {
        let next = step_state(pump, inputs[0]);
        lemma_run_split(next, inputs.skip(1), at - 1);
        assert(inputs.take(at).skip(1) =~= inputs.skip(1).take(at - 1));
        assert(inputs.skip(1).skip(at - 1) =~= inputs.skip(at));
        assert(inputs.take(at)[0] == inputs[0]);
        assert(run(pump, inputs) =~= run(pump, inputs.take(at)) + run(
            end_state(pump, inputs.take(at)),
            inputs.skip(at),
        ));
    }
}

/// A pump that is over stays over, whatever it is told, and asks for
/// nothing more: no read and no delivery.
pub proof fn law_stopped_pump_is_silent(pump: PumpModel, inputs: Seq<PumpInput>)
    requires
        pump.stopped,
    ensures
        end_state(pump, inputs) == pump,
        run(pump, inputs).len() == inputs.len(),
        forall|k: int| 0 <= k < inputs.len() ==> quiet(#[trigger] run(pump, inputs)[k]),
        deliveries(run(pump, inputs)) == Seq::<Seq<u8>>::empty(),
    decreases inputs.len(),
{
    if inputs.len() > 0 {
        assert(step_state(pump, inputs[0]) == pump);
        law_stopped_pump_is_silent(pump, inputs.skip(1));
        let rest = run(pump, inputs.skip(1));
        assert(run(pump, inputs).skip(1) =~= rest);
        assert forall|k: int| 0 <= k < inputs.len() implies quiet(
            #[trigger] run(pump, inputs)[k],
        ) by {
            if k > 0 {
                assert(run(pump, inputs)[k] == rest[k - 1]);
            }
        }
    }
}

/// Once an iteration has found that shutdown was asked for, the pump asks
/// for nothing more: that iteration's answer is to stop, and so is every
/// later one.
pub proof fn law_shutdown_ends_the_pump(
    pump: PumpModel,
    inputs: Seq<PumpInput>,
    signal: int,
    later: int,
)
    requires
        0 <= signal <= later < inputs.len(),
        inputs[signal] == (PumpInput::Poll { shutdown_requested: true }),
    ensures
        run(pump, inputs).len() == inputs.len(),
        run(pump, inputs)[signal] == PumpOutput::Polled(PollStep::Stop),
        quiet(run(pump, inputs)[later]),
{
    lemma_run_split(pump, inputs, signal);
    let before = end_state(pump, inputs.take(signal));
    let tail = inputs.skip(signal);
    lemma_run_split(pump, inputs.take(signal), 0);
    assert(run(pump, inputs)[signal] == run(before, tail)[0]);
    assert(run(pump, inputs)[later] == run(before, tail)[later - signal]);
    let stopped = step_state(before, tail[0]);
    law_stopped_pump_is_silent(stopped, tail.skip(1));
    if later > signal {
        assert(run(before, tail)[later - signal] == run(stopped, tail.skip(1))[later - signal - 1]);
    }
}

/// A read that returns no bytes ends the pump: a pump that was running
/// answers it with the disconnect signal, one that was over with nothing,
/// and either way every later answer asks for nothing more.
pub proof fn law_zero_length_read_ends_the_pump(
    pump: PumpModel,
    inputs: Seq<PumpInput>,
    at: int,
    later: int,
)
    requires
        0 <= at < later < inputs.len(),
        inputs[at] matches PumpInput::Read(ReadOutcomeView::Data(chunk)) && chunk.len() == 0,
    ensures
        run(pump, inputs).len() == inputs.len(),
        run(pump, inputs)[at] == if end_state(pump, inputs.take(at)).stopped {
            PumpOutput::Reacted(ReadStepView::Halted)
        } else {
            PumpOutput::Reacted(ReadStepView::Disconnected)
        },
        quiet(run(pump, inputs)[later]),
{
    lemma_run_split(pump, inputs, at);
    let before = end_state(pump, inputs.take(at));
    let tail = inputs.skip(at);
    lemma_run_split(pump, inputs.take(at), 0);
    assert(run(pump, inputs)[at] == run(before, tail)[0]);
    assert(run(pump, inputs)[later] == run(before, tail)[later - at]);
    let stopped = step_state(before, tail[0]);
    assert(stopped.stopped);
    law_stopped_pump_is_silent(stopped, tail.skip(1));
    assert(run(before, tail)[later - at] == run(stopped, tail.skip(1))[later - at - 1]);
}

/// The disconnect signal is given at most once, and nothing follows it:
/// after the answer that reports the peer gone, the pump asks for no
/// further read and hands on nothing.
pub proof fn law_disconnect_is_signalled_once(
    pump: PumpModel,
    inputs: Seq<PumpInput>,
    signal: int,
    later: int,
)
    requires
        0 <= signal < later < inputs.len(),
        run(pump, inputs)[signal] == PumpOutput::Reacted(ReadStepView::Disconnected),
    ensures
        quiet(run(pump, inputs)[later]),
{
    lemma_run_split(pump, inputs, signal);
    let before = end_state(pump, inputs.take(signal));
    let tail = inputs.skip(signal);
    lemma_run_split(pump, inputs.take(signal), 0);
    assert(run(pump, inputs)[signal] == run(before, tail)[0]);
    assert(run(pump, inputs)[later] == run(before, tail)[later - signal]);
    let stopped = step_state(before, tail[0]);
    assert(stopped.stopped);
    law_stopped_pump_is_silent(stopped, tail.skip(1));
    assert(run(before, tail)[later - signal] == run(stopped, tail.skip(1))[later - signal - 1]);
}

/// What the handler is given depends on the bytes that arrived and on
/// nothing else: in an orderly run the deliveries are the payloads of the
/// whole frames in the stream of received bytes, in order, however the
/// reads cut that stream up and whatever came between them. The pump is
/// left holding what follows the last whole frame.
pub proof fn law_deliveries_follow_the_stream(pump: PumpModel, inputs: Seq<PumpInput>)
    requires
        steady(pump),
        orderly(pump, inputs),
    ensures
        deliveries(run(pump, inputs)) == frames_in(pump.partial + received(inputs)),
        end_state(pump, inputs).partial == residue(pump.partial + received(inputs)),
        steady(end_state(pump, inputs)),
    decreases inputs.len(),
{
    if inputs.len() == 0 {
        assert(pump.partial + received(inputs) =~= pump.partial);
    } else {
        let input = inputs[0];
        let next = step_state(pump, input);
        let rest = inputs.skip(1);
        let outputs = run(pump, inputs);
        assert(outputs[0] == step_output(pump, input));
        assert(outputs.skip(1) =~= run(next, rest));
        match input {
            PumpInput::Read(ReadOutcomeView::Data(chunk)) => {
                let taken = pump.partial + chunk;
                let stream = pump.partial + received(inputs);
                assert(stream =~= taken + received(rest));
                if frame_complete(taken) {
                    let end = 8 + header_value(taken);
                    lemma_header_value_of_prefix(taken, received(rest));
                    assert(leads_with_frame(stream));
                    assert(stream.subrange(8, end as int) =~= payload_of(taken));
                    assert(stream.skip(end as int) =~= next.partial + received(rest));
                    law_deliveries_follow_the_stream(next, rest);
                } else {
                    assert(in_progress(taken));
                    law_deliveries_follow_the_stream(next, rest);
                }
            },
            _ => {
                assert(next == pump);
                law_deliveries_follow_the_stream(next, rest);
            },
        }
    }
}

/// A frame with an empty payload is not handed on, and ends the reading:
/// once its header is in, the pump has no room to read into, so the read it
/// asks for next can return no bytes.
pub proof fn law_empty_payload_leaves_no_room(inputs: Seq<PumpInput>)
    requires
        orderly(fresh(), inputs),
        received(inputs) == frame(Seq::<u8>::empty()),
    ensures
        deliveries(run(fresh(), inputs)) == Seq::<Seq<u8>>::empty(),
        end_state(fresh(), inputs) == (PumpModel {
            partial: frame(Seq::<u8>::empty()),
            stopped: false,
        }),
        window(end_state(fresh(), inputs).partial) == 0,
{
    law_deliveries_follow_the_stream(fresh(), inputs);
    let stream = frame(Seq::<u8>::empty());
    lemma_header_round_trip(0);
    assert(stream =~= header_bytes(0));
    assert(fresh().partial + received(inputs) =~= stream);
    assert(!leads_with_frame(stream));
}

/// How the reads cut the stream up does not matter: two orderly runs of a
/// new pump that receive the same bytes hand on the same payloads in the
/// same order and leave the pump in the same state, be it one byte per
/// read in the one and as much as there is room for in the other.
pub proof fn law_chunking_is_immaterial(first: Seq<PumpInput>, second: Seq<PumpInput>)
    requires
        orderly(fresh(), first),
        orderly(fresh(), second),
        received(first) == received(second),
    ensures
        deliveries(run(fresh(), first)) == deliveries(run(fresh(), second)),
        end_state(fresh(), first) == end_state(fresh(), second),
{
    law_deliveries_follow_the_stream(fresh(), first);
    law_deliveries_follow_the_stream(fresh(), second);
}

/// Frames sent back to back arrive as they were sent: when the bytes that
/// an orderly run of a new pump receives are the frames of `payloads`, the
/// handler is given exactly those payloads, each once, in order and
/// unchanged, and the pump ends at a frame boundary, ready for more.
///
/// The payloads must not be empty: the header of an empty payload leaves no
/// room to read into, so the read after it returns no bytes, which is how a
/// closed connection shows.
pub proof fn law_frames_arrive_as_sent(payloads: Seq<Seq<u8>>, inputs: Seq<PumpInput>)
    requires
        forall|i: int|
            0 <= i < payloads.len() ==> 0 < #[trigger] payloads[i].len() && fits(
                payloads[i].len(),
            ),
        orderly(fresh(), inputs),
        received(inputs) == wire(payloads),
    ensures
        deliveries(run(fresh(), inputs)) == payloads,
        end_state(fresh(), inputs) == fresh(),
{
    law_deliveries_follow_the_stream(fresh(), inputs);
    lemma_frames_in_wire(payloads);
    assert(fresh().partial + received(inputs) =~= wire(payloads));
}

} // verus!
