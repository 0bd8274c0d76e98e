//! The reader's buffer: one growable region that holds the frame in
//! progress, header first, and is cut back to the header's size after each
//! frame.

use crate::codec::{decode_header, header_value, HEADER_LEN};
use crate::wire::{absorbed, fits, frame_complete, in_progress, oversized, payload_of, window};
use vstd::prelude::*;

verus! {

/// What taking in a chunk led to.
#[derive(Debug, PartialEq, Eq)]
pub enum Intake {
    /// The frame is still incomplete.
    Pending,
    /// The chunk completed a frame; this is its payload.
    Frame(Vec<u8>),
    /// The chunk completed a header that announces this many payload bytes,
    /// more than can be held in memory. The reader takes nothing further.
    TooLarge(u64),
}

/// The state of the reading side between two reads.
pub struct ReaderState {
    buffer: Vec<u8>,
    read_bytes: usize,
    expected_body_len: usize,
}

impl View for ReaderState {
    type V = Seq<u8>;

    /// The bytes of the frame in progress that have arrived.
    closed spec fn view(&self) -> Seq<u8> {
        self.buffer@.subrange(0, self.read_bytes as int)
    }
}

impl ReaderState {
    /// The buffer is as large as the frame in progress is known to be, and
    /// the announced length is the one the buffered header decodes to.
    pub closed spec fn wf(&self) -> bool {
        &&& self.read_bytes <= self.buffer.len()
        &&& self.read_bytes < 8 ==> self.buffer.len() == 8 && self.expected_body_len == 0
        &&& self.read_bytes >= 8 ==> if fits(header_value(self.buffer@)) {
            &&& self.expected_body_len == header_value(self.buffer@)
            &&& self.buffer.len() == 8 + self.expected_body_len
            &&& self.expected_body_len > 0 ==> self.read_bytes < self.buffer.len()
        } else {
            self.expected_body_len == 0 && self.buffer.len() == 8
        }
    }

    /// A well-formed reader holds less than a whole frame.
    pub proof fn lemma_in_progress(&self)
        requires
            self.wf(),
        ensures
            in_progress(self@),
            self@.len() + window(self@) <= usize::MAX,
    {
    }

    /// A reader at a frame boundary, with room for one header.
    pub fn new() -> (reader: Self)
        ensures
            reader.wf(),
            reader@ == Seq::<u8>::empty(),
    {
        let mut buffer: Vec<u8> = Vec::new();
        buffer.resize(HEADER_LEN, 0u8);
        ReaderState { buffer, read_bytes: 0, expected_body_len: 0 }
    }

    /// The number of bytes that the next read may bring.
    pub fn window(&self) -> (room: usize)
        requires
            self.wf(),
        ensures
            room == window(self@),
    {
        self.buffer.len() - self.read_bytes
    }

    /// Takes in the bytes that one read brought.
    ///
    /// The bytes join the frame in progress. When they complete a frame the
    /// payload is handed out and the reader is back at a frame boundary.
    pub fn accept(&mut self, chunk: &[u8]) -> (intake: Intake)
        requires
            old(self).wf(),
            chunk@.len() <= window(old(self)@),
        ensures
            final(self).wf(),
            final(self)@ == absorbed(old(self)@, chunk@),
            match intake {
                Intake::Frame(payload) => frame_complete(old(self)@ + chunk@) && payload@
                    == payload_of(old(self)@ + chunk@),
                Intake::TooLarge(announced) => oversized(old(self)@ + chunk@) && chunk@.len() > 0
                    && announced == header_value(old(self)@ + chunk@),
                Intake::Pending => !frame_complete(old(self)@ + chunk@) && !(oversized(
                    old(self)@ + chunk@,
                ) && chunk@.len() > 0),
            },
    {
        let count: usize = chunk.len();
        if count == 0 {
            assert(old(self)@ + chunk@ =~= old(self)@);
            return Intake::Pending;
        }
        let start: usize = self.read_bytes;
        let mut copied: usize = 0;
        while copied < count
            invariant
                copied <= count,
                count == chunk@.len(),
                start + count <= self.buffer.len(),
                self.buffer.len() == old(self).buffer.len(),
                self.read_bytes == start,
                self.expected_body_len == old(self).expected_body_len,
                self.buffer@.subrange(0, start as int) == old(self)@,
                self.buffer@.subrange(start as int, start + copied) == chunk@.subrange(
                    0,
                    copied as int,
                ),
            decreases count - copied,
        {
            self.buffer.set(start + copied, chunk[copied]);
            copied = copied + 1;
            assert(self.buffer@.subrange(0, start as int) =~= old(self)@);
            assert(self.buffer@.subrange(start as int, start + copied) =~= chunk@.subrange(
                0,
                copied as int,
            ));
        }
        self.read_bytes = start + count;
        assert(self@ =~= old(self)@ + chunk@) by {
            let head = self.buffer@.subrange(0, start as int);
            let tail = self.buffer@.subrange(start as int, start + count);
            assert(self@ =~= head + tail);
            assert(chunk@.subrange(0, count as int) =~= chunk@);
        }
        if self.read_bytes == HEADER_LEN {
            let header: [u8; 8] = [
                self.buffer[0],
                self.buffer[1],
                self.buffer[2],
                self.buffer[3],
                self.buffer[4],
                self.buffer[5],
                self.buffer[6],
                self.buffer[7],
            ];
            let announced: u64 = decode_header(header);
            assert(header_value(header@) == header_value(self.buffer@));
            if announced > (usize::MAX - HEADER_LEN) as u64 {
                return Intake::TooLarge(announced);
            }
            self.expected_body_len = announced as usize;
            if self.buffer.len() != HEADER_LEN + self.expected_body_len {
                self.buffer.resize(HEADER_LEN + self.expected_body_len, 0u8);
            }
            assert(self@ =~= old(self)@ + chunk@);
            return Intake::Pending;
        }
        if self.expected_body_len > 0 && self.read_bytes == HEADER_LEN + self.expected_body_len {
            let mut payload: Vec<u8> = Vec::new();
            let mut at: usize = HEADER_LEN;
            while at < self.read_bytes
                invariant
                    8 <= at <= self.read_bytes == self.buffer.len(),
                    payload@ == self.buffer@.subrange(8, at as int),
                decreases self.read_bytes - at,
            {
                payload.push(self.buffer[at]);
                at = at + 1;
                assert(payload@ =~= self.buffer@.subrange(8, at as int));
            }
            assert(payload@ =~= payload_of(old(self)@ + chunk@));
            self.buffer.truncate(HEADER_LEN);
            self.read_bytes = 0;
            self.expected_body_len = 0;
            assert(self@ =~= Seq::<u8>::empty());
            return Intake::Frame(payload);
        }
        Intake::Pending
    }
}

} // verus!
