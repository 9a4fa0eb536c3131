//! The server role: it announces the dimensions and takes in images.

use vstd::prelude::*;
use crate::duplex::{Duplex, DuplexView};
use crate::error::{Error, MessageKind};
use crate::frame::{
    frame_bytes, lemma_dimensions_frame_len, lemma_frame_round_trip, lemma_image_frame_len,
    receive,
};
use crate::message::{Message, MessageView, Messenger};
use crate::pixels::{pixel_bytes, PixelBuffer};

verus! {

/// The end of a session that fixes the dimensions and receives the images.
#[derive(Debug)]
pub struct Server {
    messenger: Messenger,
    dimensions: (u32, u32),
}

/// What a [`Server`] holds.
pub struct ServerView {
    /// The stream to the client.
    pub stream: DuplexView,
    /// The width and height announced to the client.
    pub dimensions: (u32, u32),
}

impl View for Server {
    type V = ServerView;

    closed spec fn view(&self) -> ServerView {
        ServerView { stream: self.messenger@, dimensions: self.dimensions }
    }
}

/// What a server of the given dimensions makes of a stream whose unread bytes
/// are `inbound`: the samples of the image in the next frame, where that frame
/// holds a pixel buffer of exactly `width * height * 3` bytes.
pub open spec fn accept(dimensions: (u32, u32), inbound: Seq<u8>) -> Result<Seq<u8>, Error> {
    match receive(inbound).0 {
        Ok(MessageView::RgbImage(data)) => if data.len() == pixel_bytes(
            dimensions.0,
            dimensions.1,
        ) {
            Ok(data)
        } else {
            Err(
                Error::Decode {
                    width: dimensions.0,
                    height: dimensions.1,
                    length: data.len() as usize,
                },
            )
        },
        Ok(MessageView::Dimensions(_)) => Err(
            Error::Protocol { expected: MessageKind::RgbImage, found: MessageKind::Dimensions },
        ),
        Err(error) => Err(error),
    }
}

impl Server {
    /// Opens the session on `stream`: writes the dimensions to it as the first
    /// message.
    pub fn new(stream: Duplex, dimensions: (u32, u32)) -> (result: Result<Server, Error>)
        ensures
            result is Ok,
            result matches Ok(server) ==> {
                &&& server@.dimensions == dimensions
                &&& server@.stream.inbound == stream@.inbound
                &&& server@.stream.outbound == stream@.outbound + frame_bytes(
                    MessageView::Dimensions(dimensions),
                )
            },
    {
        let mut messenger = Messenger::new(stream);
        match messenger.send(&Message::Dimensions(dimensions)) {
            Ok(_) => Ok(Server { messenger, dimensions }),
            Err(error) => Err(error),
        }
    }

    /// The stream, for the transport to deliver bytes to and to take bytes
    /// from.
    pub fn stream_mut(&mut self) -> (stream: &mut Duplex)
        ensures
            stream@ == old(self)@.stream,
            final(self)@.stream == final(stream)@,
            final(self)@.dimensions == old(self)@.dimensions,
    {
        self.messenger.stream_mut()
    }

    /// The width and height announced to the client.
    pub fn dimensions(&self) -> (dimensions: (u32, u32))
        ensures
            dimensions == self@.dimensions,
    {
        self.dimensions
    }

    /// Receives one image. The next frame is read whole; it has to hold a
    /// pixel buffer, of exactly as many bytes as the dimensions ask for.
    pub fn recv(&mut self) -> (result: Result<PixelBuffer, Error>)
        ensures
            final(self)@.dimensions == old(self)@.dimensions,
            final(self)@.stream.outbound == old(self)@.stream.outbound,
            final(self)@.stream.inbound == receive(old(self)@.stream.inbound).1,
            match result {
                Ok(image) => {
                    &&& accept(old(self)@.dimensions, old(self)@.stream.inbound) == Ok::<
                        Seq<u8>,
                        Error,
                    >(image@.data)
                    &&& (image@.width, image@.height) == old(self)@.dimensions
                },
                Err(error) => accept(old(self)@.dimensions, old(self)@.stream.inbound) == Err::<
                    Seq<u8>,
                    Error,
                >(error),
            },
    {
        let message = match self.messenger.recv() {
            Ok(message) => message,
            Err(error) => {
                return Err(error);
            },
        };
        match message {
            Message::RgbImage(raw) => {
                let (width, height) = self.dimensions;
                let length = raw.len();
                match PixelBuffer::from_raw(width, height, raw) {
                    Some(image) => Ok(image),
                    None => Err(Error::Decode { width, height, length }),
                }
            },
            Message::Dimensions(_) => Err(
                Error::Protocol { expected: MessageKind::RgbImage, found: MessageKind::Dimensions },
            ),
        }
    }
}

/// An image sent is the image received: where the stream starts with the
/// frame of a pixel buffer of exactly `width * height * 3` bytes, the server
/// accepts those bytes, each as it was sent.
pub proof fn lemma_image_round_trip(dimensions: (u32, u32), data: Seq<u8>, rest: Seq<u8>)
    requires
        data.len() == pixel_bytes(dimensions.0, dimensions.1),
        frame_bytes(MessageView::RgbImage(data)).len() <= usize::MAX,
    ensures
        accept(dimensions, frame_bytes(MessageView::RgbImage(data)) + rest) == Ok::<
            Seq<u8>,
            Error,
        >(data),
        receive(frame_bytes(MessageView::RgbImage(data)) + rest).1 == rest,
{
    lemma_image_frame_len(data);
    lemma_frame_round_trip(MessageView::RgbImage(data), rest);
}

/// A pixel buffer of any other length is refused, and the refusal names the
/// length that arrived.
pub proof fn lemma_mismatch_refused(dimensions: (u32, u32), data: Seq<u8>, rest: Seq<u8>)
    requires
        data.len() != pixel_bytes(dimensions.0, dimensions.1),
        frame_bytes(MessageView::RgbImage(data)).len() <= usize::MAX,
    ensures
        accept(dimensions, frame_bytes(MessageView::RgbImage(data)) + rest) == Err::<
            Seq<u8>,
            Error,
        >(
            Error::Decode {
                width: dimensions.0,
                height: dimensions.1,
                length: data.len() as usize,
            },
        ),
{
    lemma_image_frame_len(data);
    lemma_frame_round_trip(MessageView::RgbImage(data), rest);
}

/// A second dimensions message is refused.
pub proof fn lemma_dimensions_refused(
    dimensions: (u32, u32),
    announced: (u32, u32),
    rest: Seq<u8>,
)
    ensures
        accept(dimensions, frame_bytes(MessageView::Dimensions(announced)) + rest) == Err::<
            Seq<u8>,
            Error,
        >(Error::Protocol { expected: MessageKind::RgbImage, found: MessageKind::Dimensions }),
{
    lemma_dimensions_frame_len(announced);
    lemma_frame_round_trip(MessageView::Dimensions(announced), rest);
}

} // verus!
