//! The frame codec: a payload length as eight little-endian bytes, and back.

use vstd::prelude::*;

verus! {

/// Number of bytes in a frame header.
pub const HEADER_LEN: usize = 8;

/// The header that announces a payload of `len` bytes: `len` in base 256,
/// least significant digit first.
pub open spec fn header_bytes(len: u64) -> Seq<u8> {
    seq![
        (len % 0x100) as u8,
        (len / 0x100 % 0x100) as u8,
        (len / 0x1_0000 % 0x100) as u8,
        (len / 0x100_0000 % 0x100) as u8,
        (len / 0x1_0000_0000 % 0x100) as u8,
        (len / 0x100_0000_0000 % 0x100) as u8,
        (len / 0x1_0000_0000_0000 % 0x100) as u8,
        (len / 0x100_0000_0000_0000 % 0x100) as u8,
    ]
}

/// The length that the first eight bytes of `bytes` announce.
pub open spec fn header_value(bytes: Seq<u8>) -> nat
    recommends
        bytes.len() >= 8,
{
    (bytes[0] as nat) + (bytes[1] as nat) * 0x100 + (bytes[2] as nat) * 0x1_0000 + (bytes[3] as nat)
        * 0x100_0000 + (bytes[4] as nat) * 0x1_0000_0000 + (bytes[5] as nat) * 0x100_0000_0000 + (
    bytes[6] as nat) * 0x1_0000_0000_0000 + (bytes[7] as nat) * 0x100_0000_0000_0000
}

/// Encodes a payload length as a frame header.
pub fn encode_header(len: u64) -> (header: [u8; 8])
    ensures
        header@ == header_bytes(len),
{
    let header: [u8; 8] = [
        (len % 0x100) as u8,
        (len / 0x100 % 0x100) as u8,
        (len / 0x1_0000 % 0x100) as u8,
        (len / 0x100_0000 % 0x100) as u8,
        (len / 0x1_0000_0000 % 0x100) as u8,
        (len / 0x100_0000_0000 % 0x100) as u8,
        (len / 0x1_0000_0000_0000 % 0x100) as u8,
        (len / 0x100_0000_0000_0000 % 0x100) as u8,
    ];
    assert(header@ =~= header_bytes(len));
    header
}

/// Decodes a frame header into the payload length it announces.
pub fn decode_header(bytes: [u8; 8]) -> (len: u64)
    ensures
        len == header_value(bytes@),
{
    (bytes[0] as u64) + (bytes[1] as u64) * 0x100 + (bytes[2] as u64) * 0x1_0000 + (bytes[3] as u64)
        * 0x100_0000 + (bytes[4] as u64) * 0x1_0000_0000 + (bytes[5] as u64) * 0x100_0000_0000 + (
    bytes[6] as u64) * 0x1_0000_0000_0000 + (bytes[7] as u64) * 0x100_0000_0000_0000
}

/// Dividing by 256 twice is dividing by 65536, and so on up the digits.
proof fn lemma_digits(len: u64)
    ensures
        len / 0x1_0000 == len / 0x100 / 0x100,
        len / 0x100_0000 == len / 0x1_0000 / 0x100,
        len / 0x1_0000_0000 == len / 0x100_0000 / 0x100,
        len / 0x100_0000_0000 == len / 0x1_0000_0000 / 0x100,
        len / 0x1_0000_0000_0000 == len / 0x100_0000_0000 / 0x100,
        len / 0x100_0000_0000_0000 == len / 0x1_0000_0000_0000 / 0x100,
        len / 0x100_0000_0000_0000 < 0x100,
{
}

/// A header decodes to the length it was made from.
pub proof fn lemma_header_round_trip(len: u64)
    ensures
        header_bytes(len).len() == 8,
        header_value(header_bytes(len)) == len,
{
    lemma_digits(len);
    let q1 = len / 0x100;
    let q2 = len / 0x1_0000;
    let q3 = len / 0x100_0000;
    let q4 = len / 0x1_0000_0000;
    let q5 = len / 0x100_0000_0000;
    let q6 = len / 0x1_0000_0000_0000;
    let q7 = len / 0x100_0000_0000_0000;
    assert(len == len % 0x100 + 0x100 * q1);
    assert(q1 == q1 % 0x100 + 0x100 * q2);
    assert(q2 == q2 % 0x100 + 0x100 * q3);
    assert(q3 == q3 % 0x100 + 0x100 * q4);
    assert(q4 == q4 % 0x100 + 0x100 * q5);
    assert(q5 == q5 % 0x100 + 0x100 * q6);
    assert(q6 == q6 % 0x100 + 0x100 * q7);
    assert(q7 == q7 % 0x100);
}

/// Eight bytes are the header of the length they decode to, and of no other.
pub proof fn lemma_header_unique(bytes: Seq<u8>)
    requires
        bytes.len() == 8,
    ensures
        header_value(bytes) <= u64::MAX,
        header_bytes(header_value(bytes) as u64) == bytes,
{
    let r7 = bytes[7] as int;
    let r6 = bytes[6] as int + 0x100 * r7;
    let r5 = bytes[5] as int + 0x100 * r6;
    let r4 = bytes[4] as int + 0x100 * r5;
    let r3 = bytes[3] as int + 0x100 * r4;
    let r2 = bytes[2] as int + 0x100 * r3;
    let r1 = bytes[1] as int + 0x100 * r2;
    let r0 = bytes[0] as int + 0x100 * r1;
    assert(r0 == header_value(bytes));
    let len = header_value(bytes) as u64;
    lemma_digits(len);
    assert(len / 0x100 == r1 && len % 0x100 == bytes[0]);
    assert(r1 / 0x100 == r2 && r1 % 0x100 == bytes[1]);
    assert(r2 / 0x100 == r3 && r2 % 0x100 == bytes[2]);
    assert(r3 / 0x100 == r4 && r3 % 0x100 == bytes[3]);
    assert(r4 / 0x100 == r5 && r4 % 0x100 == bytes[4]);
    assert(r5 / 0x100 == r6 && r5 % 0x100 == bytes[5]);
    assert(r6 / 0x100 == r7 && r6 % 0x100 == bytes[6]);
    assert(header_bytes(len) =~= bytes);
}

} // verus!
