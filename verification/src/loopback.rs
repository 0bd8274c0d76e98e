//! Both directions together: what one side sends, the other side's handler
//! is given.

use crate::pump::fresh;
use crate::trace::{
    deliveries, end_state, law_frames_arrive_as_sent, orderly, received, run, PumpInput,
};
use crate::wire::{fits, wire};
use crate::writer::{
    accepted, finished, law_finished_send_wrote_the_frame, progress, start, within_offer,
    WriteOutcomeView,
};
use vstd::prelude::*;

verus! {

/// Each payload was sent to the end, one send after the other: `sends`
/// holds, for each payload, what the writes of its send came to.
pub open spec fn sent_in_full(payloads: Seq<Seq<u8>>, sends: Seq<Seq<WriteOutcomeView>>) -> bool {
    &&& sends.len() == payloads.len()
    &&& forall|i: int|
        0 <= i < payloads.len() ==> within_offer(start(#[trigger] payloads[i]), sends[i])
            && finished(progress(start(payloads[i]), sends[i]))
}

/// The bytes that a succession of sends put on the wire, in order.
pub open spec fn sent_stream(payloads: Seq<Seq<u8>>, sends: Seq<Seq<WriteOutcomeView>>) -> Seq<u8>
    decreases payloads.len(),
{
    if payloads.len() == 0 {
        Seq::empty()
    } else {
        accepted(start(payloads[0]), sends[0]) + sent_stream(payloads.skip(1), sends.skip(1))
    }
}

/// Sends that each reached their end put the frames of their payloads on
/// the wire, back to back.
pub proof fn lemma_sends_make_the_wire(payloads: Seq<Seq<u8>>, sends: Seq<Seq<WriteOutcomeView>>)
    requires
        sent_in_full(payloads, sends),
    ensures
        sent_stream(payloads, sends) == wire(payloads),
    decreases payloads.len(),
{
    if payloads.len() > 0 {
        assert(within_offer(start(payloads[0]), sends[0]));
        law_finished_send_wrote_the_frame(payloads[0], sends[0]);
        let rest = payloads.skip(1);
        let rest_sends = sends.skip(1);
        assert forall|i: int| 0 <= i < rest.len() implies within_offer(
            start(#[trigger] rest[i]),
            rest_sends[i],
        ) && finished(progress(start(rest[i]), rest_sends[i])) by {
            assert(rest[i] == payloads[i + 1]);
            assert(rest_sends[i] == sends[i + 1]);
            assert(within_offer(start(payloads[i + 1]), sends[i + 1]));
        }
        lemma_sends_make_the_wire(rest, rest_sends);
    }
}

/// Round trip: when payloads are sent one after the other, each to the
/// end, and a new pump on the other side receives the bytes that the sends
/// put on the wire, then the handler there is given exactly those
/// payloads, each once, byte for byte and in the order of the sends. This
/// holds however the socket split the writes and however the reads split
/// the stream.
///
/// The payloads must not be empty: the header of an empty payload leaves no
/// room to read into, so the read after it returns no bytes, which is how a
/// closed connection shows.
pub proof fn law_round_trip(
    payloads: Seq<Seq<u8>>,
    sends: Seq<Seq<WriteOutcomeView>>,
    inputs: Seq<PumpInput>,
)
    requires
        forall|i: int|
            0 <= i < payloads.len() ==> 0 < #[trigger] payloads[i].len() && fits(
                payloads[i].len(),
            ),
        sent_in_full(payloads, sends),
        orderly(fresh(), inputs),
        received(inputs) == sent_stream(payloads, sends),
    ensures
        deliveries(run(fresh(), inputs)) == payloads,
        end_state(fresh(), inputs) == fresh(),
{
    lemma_sends_make_the_wire(payloads, sends);
    law_frames_arrive_as_sent(payloads, inputs);
}

} // verus!
