//! The closed set of ways in which an operation of this crate can fail.

use vstd::prelude::*;

verus! {

/// Which of the two kinds a message is.
#[derive(Debug, Clone, Copy, PartialEq, Eq)]
pub enum MessageKind {
    /// The frame geometry of the session.
    Dimensions,
    /// One frame of pixels.
    RgbImage,
}

/// What the byte stream did when it failed.
#[derive(Debug, Clone, Copy, PartialEq, Eq)]
pub enum IoErrorKind {
    /// The stream held fewer bytes than a whole frame needs.
    UnexpectedEof,
}

/// Why a byte string is not the encoding of a message.
#[derive(Debug, Clone, Copy, PartialEq, Eq)]
pub enum Malformed {
    /// The length that a frame declares does not fit the machine's `usize`.
    Length,
    /// The variant tag names no message kind.
    Tag(u32),
    /// The bytes end before the fields of the declared variant do.
    Truncated,
}

/// A failed operation, by kind.
#[derive(Debug, Clone, Copy, PartialEq, Eq)]
pub enum Error {
    /// The byte stream failed.
    Io(IoErrorKind),
    /// A message could not be turned into bytes.
    Serialization,
    /// The bytes of a frame are not the encoding of a message.
    Deserialization(Malformed),
    /// A well-formed message arrived that the state of the session does not
    /// allow.
    Protocol {
        /// The kind that the receiver was waiting for.
        expected: MessageKind,
        /// The kind that arrived.
        found: MessageKind,
    },
    /// A pixel buffer arrived whose length is not that of a
    /// `width` by `height` RGB image.
    Decode {
        /// The negotiated width, in pixels.
        width: u32,
        /// The negotiated height, in pixels.
        height: u32,
        /// The number of bytes that arrived.
        length: usize,
    },
}

} // verus!
