//! The frame: an eight-byte length, then that many bytes of payload.
//!
//! The length field is written and read by `bincode`, which lays a `usize`
//! out as a little-endian `u64`.

use vstd::prelude::*;
use crate::duplex::Duplex;
use crate::error::{Error, IoErrorKind, Malformed};
use crate::message::{
    lemma_payload_round_trip, parse_payload, payload_bytes, MessageView, TAG_DIMENSIONS,
    TAG_RGB_IMAGE,
};
use crate::wire::{
    le_bytes, le_value, lemma_le_bytes_len, lemma_le_value_of_bytes, lemma_radix_pow_widths,
};

verus! {

/// The number of bytes of the length field.
pub const HEADER_LEN: usize = 8;

/// `bincode::ErrorKind`, the reason that bincode gives for a failure. Nothing
/// here reads it.
#[verifier::external_type_specification]
#[verifier::external_body]
pub struct ExErrorKind(bincode::ErrorKind);

/// `bincode::serialize`, on a `usize` and with the size limit `Bounded(8)`.
///
/// bincode hands a `usize` to its serializer as a `u64` and writes that as
/// eight bytes, least significant first. The limit of eight bytes is the size
/// of what is written and the writer is a `Vec`, so the call does not fail.
#[verifier::external_body]
pub(crate) fn serialize_length(length: usize) -> (result: Result<Vec<u8>, bincode::Error>)
    ensures
        result is Ok,
        result matches Ok(bytes) ==> bytes@ == le_bytes(length as nat, 8),
{
    bincode::serialize(&length, bincode::Bounded(8))
}

/// `bincode::deserialize`, to a `usize`.
///
/// bincode reads the first eight bytes as a little-endian `u64` and fails where
/// there are fewer; bytes after the eighth are not looked at. The number is
/// then converted to `usize`, which fails where it does not fit.
#[verifier::external_body]
pub(crate) fn deserialize_length(bytes: &[u8]) -> (result: Result<usize, bincode::Error>)
    ensures
        result matches Ok(length) ==> bytes@.len() >= 8 && length as nat == le_value(
            bytes@.take(8),
        ),
        result is Err ==> bytes@.len() < 8 || le_value(bytes@.take(8)) > usize::MAX,
{
    bincode::deserialize(bytes)
}

/// The frame that carries `payload`.
pub open spec fn sealed(payload: Seq<u8>) -> Seq<u8> {
    le_bytes(payload.len(), 8) + payload
}

/// The frame that carries `message`.
pub open spec fn frame_bytes(message: MessageView) -> Seq<u8> {
    sealed(payload_bytes(message))
}

/// The payload length that the first eight bytes of `inbound` declare.
pub open spec fn declared_length(inbound: Seq<u8>) -> nat {
    le_value(inbound.take(8))
}

/// What receiving one message does to a stream whose unread bytes are
/// `inbound`: the outcome, and the bytes that are unread afterwards.
///
/// A frame is taken whole or not at all: where the stream ends before the
/// header or before the declared number of payload bytes, nothing is read.
/// A header that declares more than a `usize` can hold is read and refused.
/// A whole frame is read, exactly as many bytes as it declares, before its
/// payload is decoded; it stays read where the payload is malformed.
pub open spec fn receive(inbound: Seq<u8>) -> (Result<MessageView, Error>, Seq<u8>) {
    if inbound.len() < 8 {
        (Err(Error::Io(IoErrorKind::UnexpectedEof)), inbound)
    } else if declared_length(inbound) > usize::MAX {
        (Err(Error::Deserialization(Malformed::Length)), inbound.skip(8))
    } else if inbound.len() - 8 < declared_length(inbound) {
        (Err(Error::Io(IoErrorKind::UnexpectedEof)), inbound)
    } else {
        let end = 8 + declared_length(inbound) as int;
        match parse_payload(inbound.subrange(8, end)) {
            Ok(message) => (Ok(message), inbound.skip(end)),
            Err(fault) => (Err(Error::Deserialization(fault)), inbound.skip(end)),
        }
    }
}

/// The number of bytes that the transport still has to deliver before a
/// message can be received from a stream whose unread bytes are `inbound`:
/// the rest of the header, or else the rest of the payload that the header
/// declares.
pub open spec fn needed_bytes(inbound: Seq<u8>) -> nat {
    if inbound.len() < 8 {
        (8 - inbound.len()) as nat
    } else if declared_length(inbound) > usize::MAX {
        0
    } else if inbound.len() - 8 < declared_length(inbound) {
        (declared_length(inbound) - (inbound.len() - 8)) as nat
    } else {
        0
    }
}

/// Puts the length field in front of `payload`.
pub fn seal(payload: &[u8]) -> (result: Result<Vec<u8>, Error>)
    ensures
        result is Ok,
        result matches Ok(frame) ==> frame@ == sealed(payload@),
{
    match serialize_length(payload.len()) {
        Ok(mut frame) => {
            let ghost header = frame@;
            frame.extend_from_slice(payload);
            assert(frame@ =~= header + payload@);
            Ok(frame)
        },
        Err(_) => Err(Error::Serialization),
    }
}

/// The number of bytes to read from the transport, and to deliver to `stream`,
/// before the next message can be received from it.
pub fn needed(stream: &Duplex) -> (count: usize)
    ensures
        count == needed_bytes(stream@.inbound),
{
    match stream.peek(HEADER_LEN) {
        None => HEADER_LEN - stream.available(),
        Some(header) => {
            assert(header@.take(8) =~= stream@.inbound.take(8));
            match deserialize_length(header) {
                Ok(declared) => {
                    let buffered = stream.available() - HEADER_LEN;
                    if buffered < declared {
                        declared - buffered
                    } else {
                        0
                    }
                },
                Err(_) => 0,
            }
        },
    }
}

/// The header of a frame declares the length of its payload.
pub proof fn lemma_sealed_declares_length(payload: Seq<u8>, rest: Seq<u8>)
    requires
        payload.len() <= u64::MAX,
    ensures
        sealed(payload).len() == 8 + payload.len(),
        declared_length(sealed(payload) + rest) == payload.len(),
        (sealed(payload) + rest).subrange(8, 8 + payload.len() as int) == payload,
        (sealed(payload) + rest).skip(8 + payload.len() as int) == rest,
{
    let bytes = sealed(payload) + rest;
    lemma_le_bytes_len(payload.len(), 8);
    lemma_radix_pow_widths();
    lemma_le_value_of_bytes(payload.len(), 8);
    assert(bytes.take(8) =~= le_bytes(payload.len(), 8));
    assert(bytes.subrange(8, 8 + payload.len() as int) =~= payload);
    assert(bytes.skip(8 + payload.len() as int) =~= rest);
}

/// The frame of a dimensions message is twenty bytes long.
pub proof fn lemma_dimensions_frame_len(dimensions: (u32, u32))
    ensures
        payload_bytes(MessageView::Dimensions(dimensions)).len() == 12,
        frame_bytes(MessageView::Dimensions(dimensions)).len() == 20,
{
    lemma_le_bytes_len(TAG_DIMENSIONS as nat, 4);
    lemma_le_bytes_len(dimensions.0 as nat, 4);
    lemma_le_bytes_len(dimensions.1 as nat, 4);
    lemma_le_bytes_len(12, 8);
}

/// The frame of a pixel buffer is twenty bytes longer than the buffer.
pub proof fn lemma_image_frame_len(data: Seq<u8>)
    ensures
        payload_bytes(MessageView::RgbImage(data)).len() == 12 + data.len(),
        frame_bytes(MessageView::RgbImage(data)).len() == 20 + data.len(),
{
    lemma_le_bytes_len(TAG_RGB_IMAGE as nat, 4);
    lemma_le_bytes_len(data.len(), 8);
    lemma_le_bytes_len(12 + data.len(), 8);
}

/// Receiving undoes sending: from a stream that starts with the frame of a
/// message, that message is received, and what is left unread is exactly what
/// followed the frame.
pub proof fn lemma_frame_round_trip(message: MessageView, rest: Seq<u8>)
    requires
        payload_bytes(message).len() <= usize::MAX,
    ensures
        receive(frame_bytes(message) + rest) == (Ok::<MessageView, Error>(message), rest),
        needed_bytes(frame_bytes(message) + rest) == 0,
{
    let payload = payload_bytes(message);
    lemma_sealed_declares_length(payload, rest);
    match message {
        MessageView::Dimensions(_) => {},
        MessageView::RgbImage(data) => {
            lemma_le_bytes_len(TAG_RGB_IMAGE as nat, 4);
            lemma_le_bytes_len(data.len(), 8);
        },
    }
    lemma_payload_round_trip(message, Seq::empty());
    assert(payload + Seq::<u8>::empty() =~= payload);
}

/// No bytes are asked for exactly when receiving does not find the stream
/// ended early.
pub proof fn lemma_needed_nothing_iff_received(inbound: Seq<u8>)
    ensures
        needed_bytes(inbound) == 0 <==> receive(inbound).0 != Err::<MessageView, Error>(
            Error::Io(IoErrorKind::UnexpectedEof),
        ),
{
}

/// Delivering what is asked for brings a stream with a whole header to a
/// whole frame.
pub proof fn lemma_needed_completes_frame(inbound: Seq<u8>, more: Seq<u8>)
    requires
        inbound.len() >= 8,
        more.len() == needed_bytes(inbound),
    ensures
        needed_bytes(inbound + more) == 0,
{
    assert((inbound + more).take(8) =~= inbound.take(8));
}

} // verus!
