use framed_client::connection::{connect_outcome, ConnectError, ShutdownSignal};
use framed_client::custom_types::{Message, MessageType};
use framed_client::envelope::{begin_send, delivered_message};
use framed_client::pump::{PollStep, Pump, ReadOutcome, ReadStep};
use framed_client::writer::{SendError, SendStep, WriteOutcome};

/// A codec for these tests: one byte for the kind, eight for the index
/// where the kind has one, one that says whether a body follows, and the
/// body.
fn encode(message: &Message) -> Vec<u8> {
    let mut bytes = Vec::new();
    let (tag, index) = match message.message_type {
        MessageType::YouAreKicked => (0u8, None),
        MessageType::YouAreTimedout => (1, None),
        MessageType::ConnectionDropped => (2, None),
        MessageType::ClientSentMessage(index) => (3, Some(index)),
        MessageType::ClientDisconnected(index) => (4, Some(index)),
        MessageType::MessageDeserializeError => (5, None),
    };
    bytes.push(tag);
    if let Some(index) = index {
        bytes.extend_from_slice(&(index as u64).to_le_bytes());
    }
    match &message.body {
        Some(body) => {
            bytes.push(1);
            bytes.extend_from_slice(body);
        }
        None => bytes.push(0),
    }
    bytes
}

fn decode(bytes: &[u8]) -> Option<Message> {
    let (&tag, rest) = bytes.split_first()?;
    let (message_type, rest) = match tag {
        0 => (MessageType::YouAreKicked, rest),
        1 => (MessageType::YouAreTimedout, rest),
        2 => (MessageType::ConnectionDropped, rest),
        3 | 4 => {
            if rest.len() < 8 {
                return None;
            }
            let mut raw = [0u8; 8];
            raw.copy_from_slice(&rest[..8]);
            let index = u64::from_le_bytes(raw) as usize;
            if tag == 3 {
                (MessageType::ClientSentMessage(index), &rest[8..])
            } else {
                (MessageType::ClientDisconnected(index), &rest[8..])
            }
        }
        5 => (MessageType::MessageDeserializeError, rest),
        _ => return None,
    };
    let (&flag, body) = rest.split_first()?;
    match flag {
        0 if body.is_empty() => Some(Message { message_type, body: None }),
        1 => Some(Message { message_type, body: Some(body.to_vec()) }),
        _ => None,
    }
}

/// Sends `payload` through a writer into `stream`.
fn send_raw(payload: &[u8], stream: &mut Vec<u8>) {
    let mut writer = begin_send(Ok(payload)).expect("payload was given");
    loop {
        let offered = writer.pending();
        let count = offered.len().min(4);
        stream.extend_from_slice(&offered[..count]);
        if writer.on_write(WriteOutcome::Wrote(count)) == SendStep::Done {
            break;
        }
    }
}

/// Runs a pump over `stream` as the typed variant does and gives the
/// messages that the handler is handed. `closed` says whether the peer
/// closes the connection after the stream.
fn receive_typed(pump: &mut Pump, stream: &[u8], closed: bool) -> Vec<Message> {
    let mut handed = Vec::new();
    let mut at = 0;
    loop {
        let capacity = match pump.poll(false) {
            PollStep::Stop => break,
            PollStep::Read { capacity } => capacity,
        };
        if at == stream.len() && !closed {
            break;
        }
        let count = capacity.min(6).min(stream.len() - at);
        match pump.on_read(ReadOutcome::Data(stream[at..at + count].to_vec())) {
            ReadStep::Deliver(payload) => handed.push(delivered_message(decode(&payload))),
            ReadStep::Disconnected => handed.push(Message::connection_dropped()),
            _ => {}
        }
        at += count;
    }
    handed
}

#[test]
fn decoded_message_is_handed_on_unchanged() {
    let message = Message { message_type: MessageType::ClientSentMessage(3), body: Some(vec![1, 2]) };
    assert_eq!(delivered_message(Some(message.clone())), message);
}

#[test]
fn undecodable_payload_becomes_a_deserialize_error() {
    let message = delivered_message(None);
    assert_eq!(message.message_type, MessageType::MessageDeserializeError);
    assert_eq!(message.body, None);
}

#[test]
fn lifecycle_messages_have_no_body() {
    let dropped = Message::connection_dropped();
    assert_eq!(dropped.message_type, MessageType::ConnectionDropped);
    assert_eq!(dropped.body, None);
    let malformed = Message::deserialize_error();
    assert_eq!(malformed.message_type, MessageType::MessageDeserializeError);
    assert_eq!(malformed.body, None);
}

#[test]
fn serialization_failure_is_reported_before_anything_is_written() {
    match begin_send(Err("not serializable".to_string())) {
        Err(error) => assert_eq!(error, SendError::Serialize("not serializable".to_string())),
        Ok(_) => panic!("a writer was made for a message that has no bytes"),
    }
}

#[test]
fn serialized_message_is_sent_as_one_frame() {
    let bytes = [1u8, 2, 3];
    let writer = begin_send(Ok(&bytes)).expect("payload was given");
    assert_eq!(writer.pending(), &[3u8, 0, 0, 0, 0, 0, 0, 0][..]);
}

#[test]
fn malformed_frame_is_reported_and_the_next_frames_arrive() {
    let good_before = Message { message_type: MessageType::YouAreKicked, body: None };
    let good_after =
        Message { message_type: MessageType::ClientDisconnected(7), body: Some(vec![4, 5, 6]) };
    let mut stream = Vec::new();
    send_raw(&encode(&good_before), &mut stream);
    send_raw(&[200, 1, 2, 3], &mut stream);
    send_raw(&encode(&good_after), &mut stream);
    let mut pump = Pump::new();
    let handed = receive_typed(&mut pump, &stream, false);
    assert_eq!(
        handed,
        vec![good_before, Message { message_type: MessageType::MessageDeserializeError, body: None }, good_after]
    );
    assert!(!pump.is_stopped());
}

#[test]
fn closed_connection_is_reported_as_connection_dropped() {
    let message = Message { message_type: MessageType::YouAreTimedout, body: None };
    let mut stream = Vec::new();
    send_raw(&encode(&message), &mut stream);
    let mut pump = Pump::new();
    let handed = receive_typed(&mut pump, &stream, true);
    assert_eq!(
        handed,
        vec![message, Message { message_type: MessageType::ConnectionDropped, body: None }]
    );
    assert!(pump.is_stopped());
}

#[test]
fn typed_message_survives_an_echo_and_disconnect_ends_the_pump() {
    let message =
        Message { message_type: MessageType::ClientSentMessage(3), body: Some(b"hi".to_vec()) };
    let mut to_peer = Vec::new();
    send_raw(&encode(&message), &mut to_peer);

    let mut peer = Pump::new();
    let at_peer = receive_typed(&mut peer, &to_peer, false);
    assert_eq!(at_peer.len(), 1);
    assert_eq!(at_peer[0].message_type, MessageType::ClientSentMessage(3));
    assert_eq!(at_peer[0].body, Some(b"hi".to_vec()));
    assert_eq!(at_peer[0], message);

    let mut echoed = Vec::new();
    send_raw(&encode(&at_peer[0]), &mut echoed);
    let mut pump = Pump::new();
    let back = receive_typed(&mut pump, &echoed, false);
    assert_eq!(back, vec![message]);

    let mut signal = ShutdownSignal::new();
    assert!(!signal.poll());
    assert!(signal.disconnect(true));
    assert_eq!(pump.poll(signal.poll()), PollStep::Stop);
    assert!(pump.is_stopped());
    assert_eq!(pump.on_read(ReadOutcome::Data(to_peer.clone())), ReadStep::Halted);
    assert_eq!(pump.poll(false), PollStep::Stop);
}

#[test]
fn failed_socket_shutdown_leaves_the_pump_running() {
    let mut signal = ShutdownSignal::new();
    assert!(!signal.disconnect(false));
    assert!(!signal.poll());
    let mut pump = Pump::new();
    assert_eq!(pump.poll(signal.poll()), PollStep::Read { capacity: 8 });
}

#[test]
fn shutdown_signal_stays_raised() {
    let mut signal = ShutdownSignal::new();
    signal.signal_shutdown();
    assert!(signal.poll());
    assert!(signal.poll());
    assert!(!signal.disconnect(false));
    assert!(signal.poll());
}

#[test]
fn connect_errors_read_as_text() {
    assert_eq!(
        ConnectError::Unreachable("connection refused".to_string()).message(),
        "Error on connection: connection refused"
    );
    assert_eq!(
        ConnectError::NonblockingSetup.message(),
        "Couldn't set socket to nonblocking mode"
    );
}

#[test]
fn connecting_fails_at_the_first_step_that_fails() {
    assert_eq!(connect_outcome(Ok(()), true), Ok(()));
    assert_eq!(connect_outcome(Ok(()), false), Err(ConnectError::NonblockingSetup));
    assert_eq!(
        connect_outcome(Err("no route".to_string()), true),
        Err(ConnectError::Unreachable("no route".to_string()))
    );
    assert_eq!(
        connect_outcome(Err("no route".to_string()), false),
        Err(ConnectError::Unreachable("no route".to_string()))
    );
}
