//! The two directions of a byte stream, held in memory.

use vstd::prelude::*;
use crate::error::{Error, IoErrorKind};

verus! {

/// One end of a duplex byte stream.
///
/// `inbound` holds the bytes that the transport has delivered and that nobody
/// has read yet, oldest first; `outbound` the bytes that were written and that
/// the transport has not been handed yet.
#[derive(Debug)]
pub struct Duplex {
    inbound: Vec<u8>,
    outbound: Vec<u8>,
}

/// What a [`Duplex`] holds.
pub struct DuplexView {
    /// The bytes delivered and not yet read.
    pub inbound: Seq<u8>,
    /// The bytes written and not yet handed to the transport.
    pub outbound: Seq<u8>,
}

impl View for Duplex {
    type V = DuplexView;

    closed spec fn view(&self) -> DuplexView {
        DuplexView { inbound: self.inbound@, outbound: self.outbound@ }
    }
}

impl Duplex {
    /// A stream on which nothing has been delivered or written.
    pub fn new() -> (stream: Duplex)
        ensures
            stream@.inbound == Seq::<u8>::empty(),
            stream@.outbound == Seq::<u8>::empty(),
    {
        Duplex { inbound: Vec::new(), outbound: Vec::new() }
    }

    /// Takes in bytes that the transport has read from the peer.
    pub fn deliver(&mut self, bytes: &[u8])
        ensures
            final(self)@.inbound == old(self)@.inbound + bytes@,
            final(self)@.outbound == old(self)@.outbound,
    {
        let ghost before = self.inbound@;
        self.inbound.extend_from_slice(bytes);
        assert(self.inbound@ =~= before + bytes@);
    }

    /// Hands over, for the transport to send, all that has been written.
    pub fn take_outbound(&mut self) -> (bytes: Vec<u8>)
        ensures
            bytes@ == old(self)@.outbound,
            final(self)@.outbound == Seq::<u8>::empty(),
            final(self)@.inbound == old(self)@.inbound,
    {
        let mut bytes: Vec<u8> = Vec::new();
        core::mem::swap(&mut bytes, &mut self.outbound);
        bytes
    }

    /// The number of bytes that can be read.
    pub fn available(&self) -> (count: usize)
        ensures
            count == self@.inbound.len(),
    {
        self.inbound.len()
    }

    /// The number of bytes that wait for the transport.
    pub fn pending(&self) -> (count: usize)
        ensures
            count == self@.outbound.len(),
    {
        self.outbound.len()
    }

    /// Writes `bytes` to the stream.
    pub fn write_all(&mut self, bytes: &[u8])
        ensures
            final(self)@.outbound == old(self)@.outbound + bytes@,
            final(self)@.inbound == old(self)@.inbound,
    {
        let ghost before = self.outbound@;
        self.outbound.extend_from_slice(bytes);
        assert(self.outbound@ =~= before + bytes@);
    }

    /// The next `count` bytes, which stay in the stream; `None` where fewer
    /// can be read.
    pub fn peek(&self, count: usize) -> (bytes: Option<&[u8]>)
        ensures
            bytes is Some <==> count <= self@.inbound.len(),
            bytes matches Some(head) ==> head@ == self@.inbound.take(count as int),
    {
        if count <= self.inbound.len() {
            Some(&self.inbound[0..count])
        } else {
            None
        }
    }

    /// Reads the next `count` bytes. Where fewer can be read the stream has
    /// ended early: nothing is taken from it.
    pub fn read_exact(&mut self, count: usize) -> (result: Result<Vec<u8>, Error>)
        ensures
            final(self)@.outbound == old(self)@.outbound,
            match result {
                Ok(bytes) => {
                    &&& count <= old(self)@.inbound.len()
                    &&& bytes@ == old(self)@.inbound.take(count as int)
                    &&& final(self)@.inbound == old(self)@.inbound.skip(count as int)
                },
                Err(error) => {
                    &&& count > old(self)@.inbound.len()
                    &&& error == Error::Io(IoErrorKind::UnexpectedEof)
                    &&& final(self)@.inbound == old(self)@.inbound
                },
            },
    {
        if count > self.inbound.len() {
            return Err(Error::Io(IoErrorKind::UnexpectedEof));
        }
        let mut bytes = self.inbound.split_off(count);
        core::mem::swap(&mut bytes, &mut self.inbound);
        Ok(bytes)
    }
}

} // verus!
