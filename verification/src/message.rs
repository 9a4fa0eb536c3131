//! The messages of the protocol and their encoding.

use vstd::prelude::*;
use crate::duplex::{Duplex, DuplexView};
use crate::error::{Error, IoErrorKind, Malformed, MessageKind};
use crate::frame::{deserialize_length, frame_bytes, receive, seal, HEADER_LEN};
use crate::wire::{
    get_le, le_bytes, le_value, lemma_le_bytes_len, lemma_le_bytes_of_value,
    lemma_le_value_bound, lemma_le_value_of_bytes, lemma_radix_pow_widths, put_le,
};

verus! {

/// The variant tag of a dimensions message.
pub const TAG_DIMENSIONS: u32 = 0;

/// The variant tag of a pixel-buffer message.
pub const TAG_RGB_IMAGE: u32 = 1;

/// One message of the protocol.
#[derive(Debug, PartialEq, Eq)]
pub enum Message {
    /// The width and height, in pixels, of every frame of the session.
    Dimensions((u32, u32)),
    /// One frame: interleaved RGB samples, row by row, three bytes a pixel.
    RgbImage(Vec<u8>),
}

/// A message as a mathematical value.
pub enum MessageView {
    /// The width and height of every frame of the session.
    Dimensions((u32, u32)),
    /// The bytes of one frame.
    RgbImage(Seq<u8>),
}

impl View for Message {
    type V = MessageView;

    open spec fn view(&self) -> MessageView {
        match self {
            Message::Dimensions(dimensions) => MessageView::Dimensions(*dimensions),
            Message::RgbImage(data) => MessageView::RgbImage(data@),
        }
    }
}

impl Clone for Message {
    fn clone(&self) -> (copy: Message)
        ensures
            copy@ == self@,
    {
        match self {
            Message::Dimensions(dimensions) => Message::Dimensions(*dimensions),
            Message::RgbImage(data) => {
                let copy = data.clone();
                assert(copy@ =~= data@);
                Message::RgbImage(copy)
            },
        }
    }
}

impl MessageView {
    /// The kind of the message.
    pub open spec fn kind(self) -> MessageKind {
        match self {
            MessageView::Dimensions(_) => MessageKind::Dimensions,
            MessageView::RgbImage(_) => MessageKind::RgbImage,
        }
    }
}

/// The encoding of a message: a four-byte variant tag, then for dimensions the
/// width and the height in four bytes each, for a pixel buffer the number of
/// its bytes in eight bytes and the bytes themselves. All numbers are
/// little-endian.
pub open spec fn payload_bytes(message: MessageView) -> Seq<u8> {
    match message {
        MessageView::Dimensions((width, height)) => le_bytes(TAG_DIMENSIONS as nat, 4) + le_bytes(
            width as nat,
            4,
        ) + le_bytes(height as nat, 4),
        MessageView::RgbImage(data) => le_bytes(TAG_RGB_IMAGE as nat, 4) + le_bytes(data.len(), 8)
            + data,
    }
}

/// The message that `bytes` starts with, or why there is none. Bytes that
/// follow the message are not looked at.
pub open spec fn parse_payload(bytes: Seq<u8>) -> Result<MessageView, Malformed> {
    if bytes.len() < 4 {
        Err(Malformed::Truncated)
    } else {
        let tag = le_value(bytes.subrange(0, 4));
        if tag == TAG_DIMENSIONS {
            if bytes.len() < 12 {
                Err(Malformed::Truncated)
            } else {
                Ok(
                    MessageView::Dimensions(
                        (
                            le_value(bytes.subrange(4, 8)) as u32,
                            le_value(bytes.subrange(8, 12)) as u32,
                        ),
                    ),
                )
            }
        } else if tag == TAG_RGB_IMAGE {
            if bytes.len() < 12 {
                Err(Malformed::Truncated)
            } else {
                let length = le_value(bytes.subrange(4, 12));
                if bytes.len() - 12 < length {
                    Err(Malformed::Truncated)
                } else {
                    Ok(MessageView::RgbImage(bytes.subrange(12, 12 + length as int)))
                }
            }
        } else {
            Err(Malformed::Tag(tag as u32))
        }
    }
}

impl Message {
    /// The kind of the message.
    pub fn kind(&self) -> (kind: MessageKind)
        ensures
            kind == self@.kind(),
    {
        match self {
            Message::Dimensions(_) => MessageKind::Dimensions,
            Message::RgbImage(_) => MessageKind::RgbImage,
        }
    }

    /// Encodes the message.
    pub fn encode(&self) -> (bytes: Vec<u8>)
        ensures
            bytes@ == payload_bytes(self@),
    {
        let mut bytes: Vec<u8> = Vec::new();
        match self {
            Message::Dimensions((width, height)) => {
                put_le(&mut bytes, TAG_DIMENSIONS as u64, 4);
                put_le(&mut bytes, *width as u64, 4);
                put_le(&mut bytes, *height as u64, 4);
            },
            Message::RgbImage(data) => {
                put_le(&mut bytes, TAG_RGB_IMAGE as u64, 4);
                put_le(&mut bytes, data.len() as u64, 8);
                let ghost head = bytes@;
                bytes.extend_from_slice(data.as_slice());
                assert(bytes@ =~= head + data@);
            },
        }
        bytes
    }

    /// Decodes the message that `bytes` starts with.
    pub fn decode(bytes: &[u8]) -> (result: Result<Message, Malformed>)
        ensures
            match result {
                Ok(message) => parse_payload(bytes@) == Ok::<MessageView, Malformed>(message@),
                Err(fault) => parse_payload(bytes@) == Err::<MessageView, Malformed>(fault),
            },
    {
        if bytes.len() < 4 {
            return Err(Malformed::Truncated);
        }
        let tag = get_le(bytes, 0, 4);
        proof {
            lemma_le_value_bound(bytes@.subrange(0, 4));
            lemma_le_value_bound(bytes@.subrange(4, 8));
            lemma_le_value_bound(bytes@.subrange(8, 12));
            lemma_radix_pow_widths();
        }
        if tag == TAG_DIMENSIONS as u64 {
            if bytes.len() < 12 {
                return Err(Malformed::Truncated);
            }
            let width = get_le(bytes, 4, 4);
            let height = get_le(bytes, 8, 4);
            Ok(Message::Dimensions((width as u32, height as u32)))
        } else if tag == TAG_RGB_IMAGE as u64 {
            if bytes.len() < 12 {
                return Err(Malformed::Truncated);
            }
            let length = get_le(bytes, 4, 8);
            let available = bytes.len() - 12;
            if length > available as u64 {
                return Err(Malformed::Truncated);
            }
            let end = 12 + length as usize;
            let mut data: Vec<u8> = Vec::new();
            data.extend_from_slice(&bytes[12..end]);
            assert(data@ =~= bytes@.subrange(12, 12 + length as int));
            Ok(Message::RgbImage(data))
        } else {
            Err(Malformed::Tag(tag as u32))
        }
    }
}

/// The framing engine of one end of a session. It owns the stream, writes
/// each message to it as one frame and reads frames back into messages.
#[derive(Debug)]
pub struct Messenger {
    stream: Duplex,
}

impl View for Messenger {
    type V = DuplexView;

    closed spec fn view(&self) -> DuplexView {
        self.stream@
    }
}

impl Messenger {
    /// A messenger on `stream`.
    pub fn new(stream: Duplex) -> (messenger: Messenger)
        ensures
            messenger@ == stream@,
    {
        Messenger { stream }
    }

    /// The stream, for the transport to deliver bytes to and to take bytes
    /// from.
    pub fn stream_mut(&mut self) -> (stream: &mut Duplex)
        ensures
            stream@ == old(self)@,
            final(self)@ == final(stream)@,
    {
        &mut self.stream
    }

    /// Writes `message` to the stream as one frame and returns the number of
    /// bytes written, header included.
    pub fn send(&mut self, message: &Message) -> (result: Result<usize, Error>)
        ensures
            result == Ok::<usize, Error>(frame_bytes(message@).len() as usize),
            frame_bytes(message@).len() <= usize::MAX,
            final(self)@.outbound == old(self)@.outbound + frame_bytes(message@),
            final(self)@.inbound == old(self)@.inbound,
    {
        let payload = message.encode();
        match seal(payload.as_slice()) {
            Ok(frame) => {
                self.stream.write_all(frame.as_slice());
                Ok(frame.len())
            },
            Err(error) => Err(error),
        }
    }

    /// Reads one frame from the stream and decodes the message in it.
    pub fn recv(&mut self) -> (result: Result<Message, Error>)
        ensures
            final(self)@.outbound == old(self)@.outbound,
            final(self)@.inbound == receive(old(self)@.inbound).1,
            match result {
                Ok(message) => receive(old(self)@.inbound).0 == Ok::<MessageView, Error>(
                    message@,
                ),
                Err(error) => receive(old(self)@.inbound).0 == Err::<MessageView, Error>(error),
            },
    {
        let declared = match self.stream.peek(HEADER_LEN) {
            None => {
                return Err(Error::Io(IoErrorKind::UnexpectedEof));
            },
            Some(header) => {
                assert(header@.take(8) =~= self.stream@.inbound.take(8));
                deserialize_length(header)
            },
        };
        let length = match declared {
            Ok(length) => length,
            Err(_) => {
                return match self.stream.read_exact(HEADER_LEN) {
                    Ok(_) => Err(Error::Deserialization(Malformed::Length)),
                    Err(error) => Err(error),
                };
            },
        };
        if self.stream.available() - HEADER_LEN < length {
            return Err(Error::Io(IoErrorKind::UnexpectedEof));
        }
        let ghost inbound = self.stream@.inbound;
        match self.stream.read_exact(HEADER_LEN) {
            Ok(_) => {},
            Err(error) => {
                return Err(error);
            },
        }
        let payload = match self.stream.read_exact(length) {
            Ok(payload) => payload,
            Err(error) => {
                return Err(error);
            },
        };
        proof {
            assert(payload@ =~= inbound.subrange(8, 8 + length));
            assert(self.stream@.inbound =~= inbound.skip(8 + length));
        }
        match Message::decode(payload.as_slice()) {
            Ok(message) => Ok(message),
            Err(fault) => Err(Error::Deserialization(fault)),
        }
    }
}

/// Decoding undoes encoding, whatever bytes follow the encoded message.
pub proof fn lemma_payload_round_trip(message: MessageView, rest: Seq<u8>)
    requires
        message matches MessageView::RgbImage(data) ==> data.len() <= u64::MAX,
    ensures
        parse_payload(payload_bytes(message) + rest) == Ok::<MessageView, Malformed>(message),
{
    let bytes = payload_bytes(message) + rest;
    lemma_radix_pow_widths();
    match message {
        MessageView::Dimensions((width, height)) => {
            let tag = le_bytes(TAG_DIMENSIONS as nat, 4);
            let w = le_bytes(width as nat, 4);
            let h = le_bytes(height as nat, 4);
            lemma_le_bytes_len(TAG_DIMENSIONS as nat, 4);
            lemma_le_bytes_len(width as nat, 4);
            lemma_le_bytes_len(height as nat, 4);
            lemma_le_value_of_bytes(TAG_DIMENSIONS as nat, 4);
            lemma_le_value_of_bytes(width as nat, 4);
            lemma_le_value_of_bytes(height as nat, 4);
            assert(bytes.subrange(0, 4) =~= tag);
            assert(bytes.subrange(4, 8) =~= w);
            assert(bytes.subrange(8, 12) =~= h);
        },
        MessageView::RgbImage(data) => {
            let tag = le_bytes(TAG_RGB_IMAGE as nat, 4);
            let length = le_bytes(data.len(), 8);
            lemma_le_bytes_len(TAG_RGB_IMAGE as nat, 4);
            lemma_le_bytes_len(data.len(), 8);
            lemma_le_value_of_bytes(TAG_RGB_IMAGE as nat, 4);
            lemma_le_value_of_bytes(data.len(), 8);
            assert(bytes.subrange(0, 4) =~= tag);
            assert(bytes.subrange(4, 12) =~= length);
            assert(bytes.subrange(12, 12 + data.len() as int) =~= data);
        },
    }
}

/// Encoding undoes decoding: the bytes that a message was decoded from start
/// with the encoding of that message. So no message has two encodings.
pub proof fn lemma_payload_canonical(bytes: Seq<u8>)
    ensures
        parse_payload(bytes) matches Ok(message) ==> {
            &&& payload_bytes(message).len() <= bytes.len()
            &&& payload_bytes(message) == bytes.take(payload_bytes(message).len() as int)
        },
{
    if let Ok(message) = parse_payload(bytes) {
        let tag = bytes.subrange(0, 4);
        lemma_radix_pow_widths();
        lemma_le_bytes_of_value(tag);
        match message {
            MessageView::Dimensions((width, height)) => {
                let w = bytes.subrange(4, 8);
                let h = bytes.subrange(8, 12);
                lemma_le_value_bound(w);
                lemma_le_value_bound(h);
                lemma_le_bytes_of_value(w);
                lemma_le_bytes_of_value(h);
                assert(tag + w + h =~= bytes.take(12));
            },
            MessageView::RgbImage(data) => {
                let length = bytes.subrange(4, 12);
                lemma_le_bytes_of_value(length);
                assert(tag + length + data =~= bytes.take(12 + data.len() as int));
            },
        }
    }
}

} // verus!
