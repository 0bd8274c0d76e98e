//! Client side of a length-prefixed message transport.
//!
//! Every message travels as a frame: eight bytes that hold the payload's
//! length, little-endian, followed by the payload itself. Frames follow
//! one another on one stream with nothing between them.
//!
//! The library performs no I/O. It holds the rules of the transport as
//! state machines that a loop around a nonblocking socket consults:
//!
//! - [`codec`] turns a length into a header and back;
//! - [`wire`] says what a stream of frames is, in mathematics;
//! - [`reader`] and [`pump`] rebuild frames from whatever pieces the reads
//!   bring, and decide when the inbound loop delivers, sleeps or ends;
//! - [`writer`] keeps count of what the socket has accepted of a frame;
//! - [`trace`] and [`loopback`] state what holds of whole runs;
//! - [`custom_types`] and [`envelope`] are the typed variant, in which
//!   payloads are serialized messages;
//! - [`connection`] holds the errors of connecting and the shutdown signal.

pub mod codec;
pub mod connection;
pub mod custom_types;
pub mod envelope;
pub mod loopback;
pub mod pump;
pub mod reader;
pub mod trace;
pub mod wire;
pub mod writer;
