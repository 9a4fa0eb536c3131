//! The pixel buffer: one image as raw bytes of known geometry.

use vstd::prelude::*;

verus! {

/// The number of samples of one pixel: red, green and blue.
pub const CHANNELS: usize = 3;

/// The number of bytes of an RGB image of `width` by `height` pixels.
pub open spec fn pixel_bytes(width: u32, height: u32) -> nat {
    (width as nat) * (height as nat) * 3
}

/// An RGB image: `width * height * 3` bytes, row by row, three bytes a pixel.
#[derive(Debug, PartialEq, Eq)]
pub struct PixelBuffer {
    width: u32,
    height: u32,
    data: Vec<u8>,
}

/// What a [`PixelBuffer`] holds.
pub struct PixelBufferView {
    /// The width, in pixels.
    pub width: u32,
    /// The height, in pixels.
    pub height: u32,
    /// The samples.
    pub data: Seq<u8>,
}

impl View for PixelBuffer {
    type V = PixelBufferView;

    closed spec fn view(&self) -> PixelBufferView {
        PixelBufferView { width: self.width, height: self.height, data: self.data@ }
    }
}

/// Whether `length` bytes are exactly an image of `width` by `height` pixels.
pub fn fits(width: u32, height: u32, length: usize) -> (exact: bool)
    ensures
        exact <==> length == pixel_bytes(width, height),
{
    assert((width as nat) * (height as nat) <= 0xffff_ffff * 0xffff_ffff) by (nonlinear_arith)
        requires
            width <= 0xffff_ffff,
            height <= 0xffff_ffff,
    ;
    let pixels: u128 = (width as u128) * (height as u128);
    length as u128 == pixels * (CHANNELS as u128)
}

impl PixelBuffer {
    #[verifier::type_invariant]
    spec fn well_formed(self) -> bool {
        self.data@.len() == pixel_bytes(self.width, self.height)
    }

    /// The image of `width` by `height` pixels whose samples are `data`;
    /// `None` where `data` is not exactly `width * height * 3` bytes long.
    pub fn from_raw(width: u32, height: u32, data: Vec<u8>) -> (image: Option<PixelBuffer>)
        ensures
            image is Some <==> data@.len() == pixel_bytes(width, height),
            image matches Some(buffer) ==> buffer@ == (PixelBufferView {
                width,
                height,
                data: data@,
            }),
    {
        if fits(width, height, data.len()) {
            Some(PixelBuffer { width, height, data })
        } else {
            None
        }
    }

    /// The width, in pixels.
    pub fn width(&self) -> (width: u32)
        ensures
            width == self@.width,
    {
        self.width
    }

    /// The height, in pixels.
    pub fn height(&self) -> (height: u32)
        ensures
            height == self@.height,
    {
        self.height
    }

    /// The width and the height, in pixels.
    pub fn dimensions(&self) -> (dimensions: (u32, u32))
        ensures
            dimensions == (self@.width, self@.height),
    {
        (self.width, self.height)
    }

    /// The samples, row by row.
    pub fn as_raw(&self) -> (data: &[u8])
        ensures
            data@ == self@.data,
            data@.len() == pixel_bytes(self@.width, self@.height),
    {
        proof {
            use_type_invariant(self);
        }
        self.data.as_slice()
    }

    /// Gives up the image for its samples.
    pub fn into_raw(self) -> (data: Vec<u8>)
        ensures
            data@ == self@.data,
            data@.len() == pixel_bytes(self@.width, self@.height),
    {
        proof {
            use_type_invariant(&self);
        }
        self.data
    }
}

impl Clone for PixelBuffer {
    fn clone(&self) -> (copy: PixelBuffer)
        ensures
            copy@ == self@,
    {
        proof {
            use_type_invariant(self);
        }
        let data = self.data.clone();
        assert(data@ =~= self.data@);
        PixelBuffer { width: self.width, height: self.height, data }
    }
}

} // verus!
