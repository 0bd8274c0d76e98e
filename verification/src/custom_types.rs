//! The typed envelope: a message kind and, for the kinds that carry one, a
//! body.

use vstd::prelude::*;

verus! {

/// The kinds of message.
#[derive(Clone, Copy, Debug, PartialEq, Eq, Structural)]
pub enum MessageType {
    YouAreKicked,
    YouAreTimedout,
    /// The connection is gone. Made by the receiving side itself when a
    /// read finds the peer closed.
    ConnectionDropped,
    /// A client, known by its index, sent the body.
    ClientSentMessage(usize),
    /// A client, known by its index, left.
    ClientDisconnected(usize),
    /// A frame arrived whose payload is no message. Made by the receiving
    /// side itself.
    MessageDeserializeError,
}

/// A message: its kind, and its body where the kind carries one.
#[derive(Clone, Debug, PartialEq, Eq)]
pub struct Message {
    pub message_type: MessageType,
    pub body: Option<Vec<u8>>,
}

/// A [`Message`] as a value of mathematics.
pub struct MessageView {
    pub message_type: MessageType,
    pub body: Option<Seq<u8>>,
}

impl View for Message {
    type V = MessageView;

    open spec fn view(&self) -> MessageView {
        MessageView {
            message_type: self.message_type,
            body: match self.body {
                Some(bytes) => Some(bytes@),
                None => None,
            },
        }
    }
}

/// The message that tells a handler that the peer closed the connection.
pub open spec fn connection_dropped() -> MessageView {
    MessageView { message_type: MessageType::ConnectionDropped, body: None }
}

/// The message that stands in for a frame whose payload is no message.
pub open spec fn deserialize_error() -> MessageView {
    MessageView { message_type: MessageType::MessageDeserializeError, body: None }
}

impl Message {
    /// The message that tells a handler that the peer closed the
    /// connection. It has no body.
    pub fn connection_dropped() -> (message: Self)
        ensures
            message@ == connection_dropped(),
    {
        Message { message_type: MessageType::ConnectionDropped, body: None }
    }

    /// The message that stands in for a frame whose payload is no message.
    /// It has no body.
    pub fn deserialize_error() -> (message: Self)
        ensures
            message@ == deserialize_error(),
    {
        Message { message_type: MessageType::MessageDeserializeError, body: None }
    }
}

} // verus!
