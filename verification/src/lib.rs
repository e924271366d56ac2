//! Client side of a length-prefixed remote console protocol, without the transport.
//!
//! [`raw_packet`] holds the packet type and its wire codec, [`client`] the handshake and
//! the execution of commands, [`wire`] the integer and text encodings the codec is built
//! from, [`error`] the failures that operations report.
pub mod client;
pub mod error;
pub mod raw_packet;
pub mod wire;
