//! A point-to-point protocol that carries raw RGB pixel buffers over an
//! ordered, reliable byte stream.
//!
//! The crate performs no I/O. A [`duplex::Duplex`] holds, in memory, the bytes
//! that a transport has delivered and the bytes that wait to be written to it;
//! the caller moves bytes between it and the real stream. Everything else is
//! decided here and proved: the layout of a frame, what a receiver accepts,
//! and what the two roles of a session do with the messages they exchange.

pub mod wire;
pub mod error;
pub mod message;
pub mod duplex;
pub mod frame;
pub mod pixels;
pub mod server;
pub mod client;
