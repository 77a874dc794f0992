//! Trusted view of the grayscale frame.
//!
//! A `Frame` owns an `image::GrayImage`, the 8-bit single-channel pixel
//! buffer of the `image` crate that the acquisition side hands over. The
//! buffer is opaque here: its dimensions and its intensity samples are given
//! names, and the functions below state what the crate's own constructor and
//! accessors do in terms of those names. Everything the detector does with a
//! frame is proved against these contracts.

use vstd::prelude::*;

verus! {

/// One grayscale frame: a read-only view over a rectangular grid of 8-bit
/// intensity samples, addressed by `(x, y)` with origin top-left.
#[verifier::external_body]
pub struct Frame {
    inner: image::GrayImage,
}

/// The width in pixels that a frame reports.
pub uninterp spec fn gray_width(f: Frame) -> nat;

/// The height in pixels that a frame reports.
pub uninterp spec fn gray_height(f: Frame) -> nat;

/// The intensity samples of a frame, keyed by pixel coordinate.
pub uninterp spec fn gray_pixels(f: Frame) -> Map<(int, int), u8>;

impl Frame {
    /// Relies on image::ImageBuffer::from_raw, which accepts a row-major
    /// sample buffer exactly when it holds at least `width * height`
    /// samples, and on the buffer's row-major layout: the sample of pixel
    /// `(x, y)` is `data[y * width + x]`.
    #[verifier::external_body]
    pub fn from_raw(width: u32, height: u32, data: Vec<u8>) -> (r: Option<Frame>)
        ensures
            (r is Some) <==> width as int * height as int <= data@.len(),
            r matches Some(f) ==> gray_width(f) == width as nat && gray_height(f)
                == height as nat && forall|x: int, y: int|
                0 <= x < width as int && 0 <= y < height as int ==> gray_pixels(f)[(x, y)]
                    == data@[y * width as int + x],
    {
        match image::GrayImage::from_raw(width, height, data) {
            Some(img) => Some(Frame { inner: img }),
            None => None,
        }
    }

    /// Relies on image::ImageBuffer::width: the width of the frame.
    #[verifier::external_body]
    pub(crate) fn width(&self) -> (r: u32)
        ensures
            r as nat == gray_width(*self),
    {
        self.inner.width()
    }

    /// Relies on image::ImageBuffer::height: the height of the frame.
    #[verifier::external_body]
    pub(crate) fn height(&self) -> (r: u32)
        ensures
            r as nat == gray_height(*self),
    {
        self.inner.height()
    }

    /// Relies on image::ImageBuffer::get_pixel, which panics outside the
    /// bounds `(width, height)` and otherwise returns the pixel at `(x, y)`;
    /// the one channel of a `Luma<u8>` pixel is its intensity sample.
    #[verifier::external_body]
    pub(crate) fn get(&self, x: u32, y: u32) -> (r: u8)
        requires
            (x as nat) < gray_width(*self),
            (y as nat) < gray_height(*self),
        ensures
            r == gray_pixels(*self)[(x as int, y as int)],
    {
        self.inner.get_pixel(x, y).0[0]
    }
}

} // verus!
