//! The typed variant of the transport: payloads are serialized messages.
//!
//! Turning a message into bytes and back is the codec's business and
//! happens outside. What is decided here is what follows from the codec's
//! answer: a payload that is no message reaches the handler as a
//! `MessageDeserializeError`, a closed connection as a `ConnectionDropped`,
//! and a message that cannot be serialized is not sent at all.

use crate::custom_types::{deserialize_error, Message, MessageView};
use crate::pump::fresh;
use crate::trace::{
    deliveries, end_state, law_frames_arrive_as_sent, orderly, received, run, PumpInput,
};
use crate::wire::{fits, wire};
use crate::writer::{start, FrameWriter, SendError, SendErrorView};
use vstd::prelude::*;

verus! {

/// What the codec made of a payload, as a value of mathematics.
pub open spec fn decoded_view(decoded: Option<Message>) -> Option<MessageView> {
    match decoded {
        Some(message) => Some(message@),
        None => None,
    }
}

/// The message that a handler is given for a frame: the one its payload
/// decodes to, or the report that it decodes to none.
pub open spec fn message_for(decoded: Option<MessageView>) -> MessageView {
    match decoded {
        Some(message) => message,
        None => deserialize_error(),
    }
}

/// The message to hand to the handler for a frame whose payload the codec
/// decoded to `decoded`, `None` standing for a payload that is no message.
pub fn delivered_message(decoded: Option<Message>) -> (message: Message)
    ensures
        message@ == message_for(decoded_view(decoded)),
{
    match decoded {
        Some(message) => message,
        None => Message::deserialize_error(),
    }
}

/// Begins the send of a message that the codec serialized to `encoded`.
///
/// Where the codec failed the send fails with the codec's reason, and
/// there is no writer, so nothing can have been written.
pub fn begin_send<'a>(encoded: Result<&'a [u8], String>) -> (result: Result<
    FrameWriter<'a>,
    SendError,
>)
    ensures
        match (encoded, result) {
            (Ok(bytes), Ok(writer)) => writer.wf() && writer@ == start(bytes@),
            (Err(reason), Err(error)) => error@ == SendErrorView::Serialize(reason@),
            _ => false,
        },
{
    match encoded {
        Ok(bytes) => Ok(FrameWriter::new(bytes)),
        Err(reason) => Err(SendError::Serialize(reason)),
    }
}

/// The messages that a handler is given for a succession of payloads: one
/// for each, in order.
pub open spec fn typed_deliveries(
    payloads: Seq<Seq<u8>>,
    decode: spec_fn(Seq<u8>) -> Option<MessageView>,
) -> Seq<MessageView> {
    Seq::new(payloads.len(), |i: int| message_for(decode(payloads[i])))
}

/// A frame whose payload is no message costs one message and no more: the
/// handler is given a `MessageDeserializeError` in its place, and every
/// other frame of the run reaches it as the message it decodes to, those
/// after the malformed one as well as those before. The pump ends at a
/// frame boundary, still running.
pub proof fn law_malformed_payload_is_reported_in_place(
    payloads: Seq<Seq<u8>>,
    inputs: Seq<PumpInput>,
    decode: spec_fn(Seq<u8>) -> Option<MessageView>,
    malformed: int,
)
    requires
        forall|i: int|
            0 <= i < payloads.len() ==> 0 < #[trigger] payloads[i].len() && fits(
                payloads[i].len(),
            ),
        orderly(fresh(), inputs),
        received(inputs) == wire(payloads),
        0 <= malformed < payloads.len(),
        decode(payloads[malformed]) is None,
    ensures
        typed_deliveries(deliveries(run(fresh(), inputs)), decode).len() == payloads.len(),
        typed_deliveries(deliveries(run(fresh(), inputs)), decode)[malformed]
            == deserialize_error(),
        forall|k: int|
            0 <= k < payloads.len() && k != malformed ==> #[trigger] typed_deliveries(
                deliveries(run(fresh(), inputs)),
                decode,
            )[k] == message_for(decode(payloads[k])),
        end_state(fresh(), inputs) == fresh(),
{
    law_frames_arrive_as_sent(payloads, inputs);
}

} // verus!
