//! The client role: it learns the dimensions and sends images.

use vstd::prelude::*;
use crate::duplex::{Duplex, DuplexView};
use crate::error::{Error, MessageKind};
use crate::frame::{
    frame_bytes, lemma_dimensions_frame_len, lemma_frame_round_trip, lemma_image_frame_len,
    receive,
};
use crate::message::{Message, MessageView, Messenger};
use crate::pixels::PixelBuffer;

verus! {

/// The end of a session that is told the dimensions and sends the images.
#[derive(Debug)]
pub struct Client {
    messenger: Messenger,
    dimensions: (u32, u32),
}

/// What a [`Client`] holds.
pub struct ClientView {
    /// The stream to the server.
    pub stream: DuplexView,
    /// The width and height that the server announced.
    pub dimensions: (u32, u32),
}

impl View for Client {
    type V = ClientView;

    closed spec fn view(&self) -> ClientView {
        ClientView { stream: self.messenger@, dimensions: self.dimensions }
    }
}

/// What a client makes of a stream whose unread bytes are `inbound` when it
/// opens the session: the dimensions in the first frame, where that frame
/// holds a dimensions message.
pub open spec fn greeting(inbound: Seq<u8>) -> Result<(u32, u32), Error> {
    match receive(inbound).0 {
        Ok(MessageView::Dimensions(dimensions)) => Ok(dimensions),
        Ok(MessageView::RgbImage(_)) => Err(
            Error::Protocol { expected: MessageKind::Dimensions, found: MessageKind::RgbImage },
        ),
        Err(error) => Err(error),
    }
}

impl Client {
    /// Opens the session on `stream`: reads the first message from it, which
    /// has to announce the dimensions.
    pub fn new(stream: Duplex) -> (result: Result<Client, Error>)
        ensures
            match result {
                Ok(client) => {
                    &&& greeting(stream@.inbound) == Ok::<(u32, u32), Error>(client@.dimensions)
                    &&& client@.stream.inbound == receive(stream@.inbound).1
                    &&& client@.stream.outbound == stream@.outbound
                },
                Err(error) => greeting(stream@.inbound) == Err::<(u32, u32), Error>(error),
            },
    {
        let mut messenger = Messenger::new(stream);
        let dimensions = match messenger.recv() {
            Ok(message) => match message {
                Message::Dimensions(dimensions) => dimensions,
                Message::RgbImage(_) => {
                    return Err(
                        Error::Protocol {
                            expected: MessageKind::Dimensions,
                            found: MessageKind::RgbImage,
                        },
                    );
                },
            },
            Err(error) => {
                return Err(error);
            },
        };
        Ok(Client { messenger, dimensions })
    }

    /// The stream, for the transport to deliver bytes to and to take bytes
    /// from.
    pub fn stream_mut(&mut self) -> (stream: &mut Duplex)
        ensures
            stream@ == old(self)@.stream,
            final(self)@.stream == final(stream)@,
            final(self)@.dimensions == old(self)@.dimensions,
    {
        self.messenger.stream_mut()
    }

    /// The width and height that the server announced.
    pub fn dimensions(&self) -> (dimensions: (u32, u32))
        ensures
            dimensions == self@.dimensions,
    {
        self.dimensions
    }

    /// Sends one image, as one frame, and returns the number of bytes written.
    /// Whether the image has the dimensions of the session is not looked at
    /// here: the server does that.
    pub fn send(&mut self, image: PixelBuffer) -> (result: Result<usize, Error>)
        ensures
            result == Ok::<usize, Error>(
                frame_bytes(MessageView::RgbImage(image@.data)).len() as usize,
            ),
            frame_bytes(MessageView::RgbImage(image@.data)).len() <= usize::MAX,
            final(self)@.dimensions == old(self)@.dimensions,
            final(self)@.stream.inbound == old(self)@.stream.inbound,
            final(self)@.stream.outbound == old(self)@.stream.outbound + frame_bytes(
                MessageView::RgbImage(image@.data),
            ),
    {
        let image_data = image.into_raw();
        let message = Message::RgbImage(image_data);
        self.messenger.send(&message)
    }
}

/// The client learns what the server announced: where the stream starts with
/// the frame of a dimensions message, the session opens with exactly those
/// dimensions.
pub proof fn lemma_handshake(dimensions: (u32, u32), rest: Seq<u8>)
    ensures
        greeting(frame_bytes(MessageView::Dimensions(dimensions)) + rest) == Ok::<
            (u32, u32),
            Error,
        >(dimensions),
        receive(frame_bytes(MessageView::Dimensions(dimensions)) + rest).1 == rest,
{
    lemma_dimensions_frame_len(dimensions);
    lemma_frame_round_trip(MessageView::Dimensions(dimensions), rest);
}

/// A session cannot open on a pixel buffer.
pub proof fn lemma_handshake_refuses_image(data: Seq<u8>, rest: Seq<u8>)
    requires
        frame_bytes(MessageView::RgbImage(data)).len() <= usize::MAX,
    ensures
        greeting(frame_bytes(MessageView::RgbImage(data)) + rest) == Err::<(u32, u32), Error>(
            Error::Protocol { expected: MessageKind::Dimensions, found: MessageKind::RgbImage },
        ),
{
    lemma_image_frame_len(data);
    lemma_frame_round_trip(MessageView::RgbImage(data), rest);
}

} // verus!
