//! The wire format as mathematics: what a stream of frames looks like, and
//! how much of it a reader has taken in.
//!
//! A reader is described by the bytes of the frame it is in the middle of.
//! Everything else about it (the length the header announced, the room left
//! to read into) follows from those bytes.

use crate::codec::{header_bytes, header_value, lemma_header_round_trip};
use vstd::prelude::*;

verus! {

/// Whether a frame whose payload has `len` bytes can be held in memory:
/// header and payload together must be indexable.
pub open spec fn fits(len: nat) -> bool {
    8 + len <= usize::MAX
}

/// One frame on the wire: the header for the payload's length, then the
/// payload.
pub open spec fn frame(payload: Seq<u8>) -> Seq<u8>
    recommends
        payload.len() <= u64::MAX,
{
    header_bytes(payload.len() as u64) + payload
}

/// Frames back to back, with nothing between them.
pub open spec fn wire(payloads: Seq<Seq<u8>>) -> Seq<u8>
    decreases payloads.len(),
{
    if payloads.len() == 0 {
        Seq::empty()
    } else {
        frame(payloads[0]) + wire(payloads.skip(1))
    }
}

/// The bytes taken in so far are one whole frame: header, and a payload
/// of the announced length, which is not zero.
pub open spec fn frame_complete(partial: Seq<u8>) -> bool {
    &&& partial.len() >= 8
    &&& header_value(partial) > 0
    &&& fits(header_value(partial))
    &&& partial.len() == 8 + header_value(partial)
}

/// The header is in and announces more than memory can hold.
pub open spec fn oversized(partial: Seq<u8>) -> bool {
    partial.len() >= 8 && !fits(header_value(partial))
}

/// How many bytes the next read may bring: up to the end of the header
/// while the header is incomplete, up to the end of the payload after that.
/// Nothing once the header announced an empty payload or one that does not
/// fit.
pub open spec fn window(partial: Seq<u8>) -> nat {
    if partial.len() < 8 {
        (8 - partial.len()) as nat
    } else if fits(header_value(partial)) && partial.len() <= 8 + header_value(partial) {
        (8 + header_value(partial) - partial.len()) as nat
    } else {
        0
    }
}

/// What a reader can hold between two reads: part of a header, or a header
/// with less than its payload, or a header that ends the reading.
pub open spec fn in_progress(partial: Seq<u8>) -> bool {
    ||| partial.len() < 8
    ||| partial.len() == 8 && (header_value(partial) == 0 || !fits(header_value(partial)))
    ||| fits(header_value(partial)) && partial.len() < 8 + header_value(partial)
}

/// The reader's bytes after it took in `chunk`: it starts afresh when the
/// chunk completed a frame, and has the chunk added otherwise.
pub open spec fn absorbed(partial: Seq<u8>, chunk: Seq<u8>) -> Seq<u8> {
    if frame_complete(partial + chunk) {
        Seq::empty()
    } else {
        partial + chunk
    }
}

/// The payload of a complete frame: what follows the header.
pub open spec fn payload_of(whole: Seq<u8>) -> Seq<u8> {
    whole.skip(8)
}

/// Whether `stream` begins with a whole frame that a reader hands on.
pub open spec fn leads_with_frame(stream: Seq<u8>) -> bool {
    &&& stream.len() >= 8
    &&& header_value(stream) > 0
    &&& fits(header_value(stream))
    &&& stream.len() >= 8 + header_value(stream)
}

/// The payloads of the whole frames that `stream` begins with, in order.
/// Reading ends at the first frame that is cut short, empty or too large.
pub open spec fn frames_in(stream: Seq<u8>) -> Seq<Seq<u8>>
    decreases stream.len(),
{
    if leads_with_frame(stream) {
        let end = 8 + header_value(stream);
        seq![stream.subrange(8, end as int)] + frames_in(stream.skip(end as int))
    } else {
        Seq::empty()
    }
}

/// What is left of `stream` after the whole frames it begins with.
pub open spec fn residue(stream: Seq<u8>) -> Seq<u8>
    decreases stream.len(),
{
    if leads_with_frame(stream) {
        residue(stream.skip(8 + header_value(stream) as int))
    } else {
        stream
    }
}

/// A frame is eight bytes longer than its payload.
pub proof fn lemma_frame_len(payload: Seq<u8>)
    ensures
        frame(payload).len() == 8 + payload.len(),
{
}

/// The header's value depends on the first eight bytes alone.
pub proof fn lemma_header_value_of_prefix(head: Seq<u8>, tail: Seq<u8>)
    requires
        head.len() >= 8,
    ensures
        header_value(head + tail) == header_value(head),
{
}

/// A stream made of frames is read back as the payloads it was made from,
/// with nothing left over, provided that no payload is empty and each fits
/// in memory.
pub proof fn lemma_frames_in_wire(payloads: Seq<Seq<u8>>)
    requires
        forall|i: int| 0 <= i < payloads.len() ==> 0 < #[trigger] payloads[i].len() && fits(payloads[i].len()),
    ensures
        frames_in(wire(payloads)) == payloads,
        residue(wire(payloads)) == Seq::<u8>::empty(),
    decreases payloads.len(),
{
    if payloads.len() > 0 {
        let first = payloads[0];
        let rest = payloads.skip(1);
        let stream = wire(payloads);
        lemma_header_round_trip(first.len() as u64);
        assert(header_value(stream) == first.len()) by {
            lemma_header_value_of_prefix(header_bytes(first.len() as u64), first + wire(rest));
            assert(stream =~= header_bytes(first.len() as u64) + (first + wire(rest)));
        }
        let end = 8 + first.len();
        assert(stream.subrange(8, end as int) =~= first);
        assert(stream.skip(end as int) =~= wire(rest));
        assert forall|i: int| 0 <= i < rest.len() implies 0 < #[trigger] rest[i].len() && fits(
            rest[i].len(),
        ) by {
            assert(rest[i] == payloads[i + 1]);
        }
        lemma_frames_in_wire(rest);
        assert(frames_in(stream) =~= payloads);
    }
}

} // verus!
