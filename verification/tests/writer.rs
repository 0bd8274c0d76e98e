use framed_client::codec::encode_header;
use framed_client::pump::{PollStep, Pump, ReadOutcome, ReadStep};
use framed_client::writer::{FrameWriter, SendError, SendStep, WriteOutcome, WRITE_RETRY_MILLIS};

/// Plays the part of a socket that accepts at most `per_write` bytes per
/// write and can take nothing on every `block_every`-th call. Gives the
/// bytes it accepted and the number of sleeps the writer asked for.
fn send_through(payload: &[u8], per_write: usize, block_every: usize) -> (Vec<u8>, usize) {
    let mut writer = FrameWriter::new(payload);
    let mut wire = Vec::new();
    let mut sleeps = 0;
    let mut calls = 0;
    loop {
        calls += 1;
        let outcome = if block_every > 0 && calls % block_every == 0 {
            WriteOutcome::WouldBlock
        } else {
            let offered = writer.pending();
            let count = offered.len().min(per_write);
            wire.extend_from_slice(&offered[..count]);
            WriteOutcome::Wrote(count)
        };
        match writer.on_write(outcome) {
            SendStep::Write => {}
            SendStep::Sleep { millis } => {
                assert_eq!(millis, 50);
                sleeps += 1;
            }
            SendStep::Done => break,
            SendStep::Abort(error) => panic!("unexpected {:?}", error),
        }
    }
    assert!(writer.is_done());
    (wire, sleeps)
}

fn frame_of(payload: &[u8]) -> Vec<u8> {
    let mut bytes = encode_header(payload.len() as u64).to_vec();
    bytes.extend_from_slice(payload);
    bytes
}

#[test]
fn writer_offers_the_header_first() {
    let payload = [9u8, 8, 7];
    let writer = FrameWriter::new(&payload);
    assert!(!writer.is_done());
    assert_eq!(writer.pending(), &[3u8, 0, 0, 0, 0, 0, 0, 0][..]);
}

#[test]
fn writer_offers_the_payload_after_the_header() {
    let payload = [9u8, 8, 7];
    let mut writer = FrameWriter::new(&payload);
    assert_eq!(writer.on_write(WriteOutcome::Wrote(8)), SendStep::Write);
    assert_eq!(writer.pending(), &payload[..]);
    assert_eq!(writer.on_write(WriteOutcome::Wrote(3)), SendStep::Done);
    assert!(writer.is_done());
    assert!(writer.pending().is_empty());
}

#[test]
fn header_and_payload_are_never_offered_together() {
    let payload = [1u8, 2];
    let mut writer = FrameWriter::new(&payload);
    assert_eq!(writer.on_write(WriteOutcome::Wrote(5)), SendStep::Write);
    assert_eq!(writer.pending(), &[0u8, 0, 0][..]);
    assert_eq!(writer.on_write(WriteOutcome::Wrote(3)), SendStep::Write);
    assert_eq!(writer.pending(), &[1u8, 2][..]);
}

#[test]
fn partial_writes_add_up() {
    let payload = b"partial write".to_vec();
    let mut writer = FrameWriter::new(&payload);
    assert_eq!(writer.on_write(WriteOutcome::Wrote(8)), SendStep::Write);
    assert_eq!(writer.on_write(WriteOutcome::Wrote(4)), SendStep::Write);
    assert_eq!(writer.pending(), &payload[4..]);
    assert_eq!(writer.on_write(WriteOutcome::Wrote(0)), SendStep::Write);
    assert_eq!(writer.pending(), &payload[4..]);
    assert_eq!(writer.on_write(WriteOutcome::Wrote(9)), SendStep::Done);
}

#[test]
fn would_block_sleeps_and_loses_nothing() {
    assert_eq!(WRITE_RETRY_MILLIS, 50);
    let payload = [1u8, 2, 3, 4];
    let mut writer = FrameWriter::new(&payload);
    assert_eq!(writer.on_write(WriteOutcome::Wrote(8)), SendStep::Write);
    assert_eq!(writer.on_write(WriteOutcome::Wrote(1)), SendStep::Write);
    assert_eq!(writer.on_write(WriteOutcome::WouldBlock), SendStep::Sleep { millis: 50 });
    assert_eq!(writer.pending(), &[2u8, 3, 4][..]);
}

#[test]
fn failed_write_aborts_with_the_reason() {
    let payload = [1u8, 2, 3, 4];
    let mut writer = FrameWriter::new(&payload);
    assert_eq!(writer.on_write(WriteOutcome::Wrote(3)), SendStep::Write);
    assert_eq!(
        writer.on_write(WriteOutcome::Failed("broken pipe".to_string())),
        SendStep::Abort(SendError::Io("broken pipe".to_string()))
    );
    assert!(!writer.is_done());
}

#[test]
fn empty_payload_is_sent_as_a_bare_header() {
    let (wire, sleeps) = send_through(&[], usize::MAX, 0);
    assert_eq!(wire, vec![0u8; 8]);
    assert_eq!(sleeps, 0);
}

#[test]
fn send_puts_one_frame_on_the_wire() {
    let payload = b"some payload".to_vec();
    let (wire, _) = send_through(&payload, usize::MAX, 0);
    assert_eq!(wire, frame_of(&payload));
}

#[test]
fn one_byte_per_write_puts_the_same_frame_on_the_wire() {
    let payload: Vec<u8> = (0..200u8).collect();
    let (slow, _) = send_through(&payload, 1, 0);
    let (fast, _) = send_through(&payload, usize::MAX, 0);
    assert_eq!(slow, frame_of(&payload));
    assert_eq!(slow, fast);
}

#[test]
fn blocking_socket_gets_the_same_frame() {
    let payload: Vec<u8> = (0..100u8).collect();
    let (wire, sleeps) = send_through(&payload, 7, 3);
    assert_eq!(wire, frame_of(&payload));
    assert!(sleeps > 0);
}

#[test]
fn sends_are_received_in_order_over_a_loopback() {
    let payloads = vec![b"one".to_vec(), vec![0u8; 1024], b"x".to_vec(), b"last one".to_vec()];
    let mut stream = Vec::new();
    for payload in &payloads {
        let (wire, _) = send_through(payload, 5, 4);
        stream.extend_from_slice(&wire);
    }
    let mut pump = Pump::new();
    let mut delivered = Vec::new();
    let mut at = 0;
    while at < stream.len() {
        let capacity = match pump.poll(false) {
            PollStep::Read { capacity } => capacity,
            PollStep::Stop => panic!("pump stopped"),
        };
        let count = capacity.min(3).min(stream.len() - at);
        if let ReadStep::Deliver(payload) =
            pump.on_read(ReadOutcome::Data(stream[at..at + count].to_vec()))
        {
            delivered.push(payload);
        }
        at += count;
    }
    assert_eq!(delivered, payloads);
    assert_eq!(pump.poll(false), PollStep::Read { capacity: 8 });
}
