//! Frames as pictures for the screen and for files.
//!
//! A frame is shown on screen as a colour image of the user interface, and
//! written to disk as a PNG by way of an image buffer. Both are built from
//! the frame's size and bytes, and both refuse bytes that do not fit the
//! size: the first by stopping the program, the second by giving nothing
//! back. The function for the screen tests the size first, so that nothing
//! stops.

use crate::frame::{pixel_bytes, Frame};
use vstd::prelude::*;
use vstd::string::StringExecFns;

verus! {

/// The colour image of the user interface, `egui::ColorImage`.
#[verifier::external_type_specification]
#[verifier::external_body]
pub struct ExColorImage(eframe::egui::ColorImage);

/// The width and the height of a colour image: its field `size`.
pub uninterp spec fn color_image_size(picture: eframe::egui::ColorImage) -> (usize, usize);

/// The pixels of a colour image, row by row: its field `pixels`, each
/// colour as the four bytes that `Color32::to_array` gives, which are red,
/// green and blue multiplied by alpha, and alpha.
pub uninterp spec fn color_image_pixels(picture: eframe::egui::ColorImage) -> Seq<
    (u8, u8, u8, u8),
>;

/// The colour that a pixel of four bytes is shown as, as far as it does not
/// depend on rounding: an opaque pixel keeps its bytes, a fully transparent
/// one becomes all zero, and every pixel keeps its alpha.
pub open spec fn shown_as(color: (u8, u8, u8, u8), r: u8, g: u8, b: u8, a: u8) -> bool {
    &&& color.3 == a
    &&& a == 255 ==> color == (r, g, b, a)
    &&& a == 0 ==> color == (0u8, 0u8, 0u8, 0u8)
}

/// Calls `egui::ColorImage::from_rgba_unmultiplied`, which stops the
/// program unless `rgba` holds four bytes for each of `width` by `height`
/// pixels. It gives an image of that size with one colour for every four
/// bytes, made by `Color32::from_rgba_unmultiplied`: the bytes themselves
/// where alpha is 255, transparent black where alpha is 0, and otherwise
/// red, green and blue scaled by alpha, with alpha kept.
#[verifier::external_body]
fn color_image_from_rgba(width: usize, height: usize, rgba: &[u8]) -> (picture:
    eframe::egui::ColorImage)
    requires
        width * height * 4 == rgba@.len(),
    ensures
        color_image_size(picture) == (width, height),
        color_image_pixels(picture).len() == width * height,
        forall|i: int|
            0 <= i < width * height ==> shown_as(
                #[trigger] color_image_pixels(picture)[i],
                rgba@[4 * i],
                rgba@[4 * i + 1],
                rgba@[4 * i + 2],
                rgba@[4 * i + 3],
            ),
{
    eframe::egui::ColorImage::from_rgba_unmultiplied([width, height], rgba)
}

/// An RGBA image buffer of the `image` crate, `image::RgbaImage`.
#[verifier::external_body]
pub struct StillImage {
    pub buffer: image::RgbaImage,
}

/// The width and the height of an image buffer.
pub uninterp spec fn still_size(picture: StillImage) -> (u32, u32);

/// The bytes that an image buffer holds.
pub uninterp spec fn still_bytes(picture: StillImage) -> Seq<u8>;

/// A buffer of `len` bytes can hold a picture of `width` by `height` pixels
/// of four bytes each: the bytes of one row can be counted on this machine,
/// and `len` is at least the bytes of all rows.
pub open spec fn buffer_fits(width: u32, height: u32, len: nat) -> bool {
    4 * width <= usize::MAX && pixel_bytes(width, height) <= len
}

/// Calls `image::ImageBuffer::from_raw` for RGBA pixels of one byte a
/// channel. It counts the bytes needed as four times the width, times the
/// height, and gives up where either product is beyond the largest `usize`.
/// It gives a buffer exactly when the count can be made and `data` holds at
/// least that many bytes, and the buffer then has that size and holds
/// `data` itself.
#[verifier::external_body]
fn rgba_buffer_from_raw(width: u32, height: u32, data: Vec<u8>) -> (picture: Option<StillImage>)
    ensures
        picture is Some <==> buffer_fits(width, height, data@.len()),
        picture matches Some(p) ==> still_size(p) == (width, height) && still_bytes(p) == data@,
{
    match image::RgbaImage::from_raw(width, height, data) {
        Some(buffer) => Some(StillImage { buffer }),
        None => None,
    }
}

/// What is answered where the bytes do not fill the picture.
pub open spec fn buffer_too_small() -> Seq<char> {
    "Failed to create image buffer"@
}

/// Makes the image buffer of a picture of `width` by `height` pixels from
/// its bytes, for writing it to a file. This fails where `data` holds fewer
/// than four bytes for each pixel, or where the bytes of one row cannot be
/// counted on this machine.
pub fn still_image(width: u32, height: u32, data: Vec<u8>) -> (picture: Result<StillImage, String>)
    ensures
        match picture {
            Ok(p) => buffer_fits(width, height, data@.len()) && still_size(p) == (width, height)
                && still_bytes(p) == data@,
            Err(message) => !buffer_fits(width, height, data@.len()) && message@
                == buffer_too_small(),
        },
{
    match rgba_buffer_from_raw(width, height, data) {
        Some(p) => Ok(p),
        None => Err(String::from_str("Failed to create image buffer")),
    }
}

impl Frame {
    /// Tells whether the pixel buffer has four bytes for each pixel of the
    /// frame.
    pub fn is_well_formed(&self) -> (r: bool)
        ensures
            r == self.wf(),
    {
        let w: u64 = self.width as u64;
        let h: u64 = self.height as u64;
        assert(w * h <= 0xffff_ffff * 0xffff_ffff) by (nonlinear_arith)
            requires
                w <= 0xffff_ffff,
                h <= 0xffff_ffff,
        ;
        let need: u128 = ((w * h) as u128) * 4;
        need == self.pixels.len() as u128
    }

    /// Makes the colour image that shows the frame on screen. `None` where
    /// the pixel buffer does not have four bytes for each pixel of the
    /// frame.
    pub fn to_color_image(&self) -> (picture: Option<eframe::egui::ColorImage>)
        ensures
            picture is Some <==> self.wf(),
            picture matches Some(p) ==> {
                &&& color_image_size(p) == (self.width as usize, self.height as usize)
                &&& color_image_pixels(p).len() == self.width * self.height
                &&& forall|i: int|
                    0 <= i < self.width * self.height ==> shown_as(
                        #[trigger] color_image_pixels(p)[i],
                        self.pixels@[4 * i],
                        self.pixels@[4 * i + 1],
                        self.pixels@[4 * i + 2],
                        self.pixels@[4 * i + 3],
                    )
            },
    {
        if self.is_well_formed() {
            let width: usize = self.width as usize;
            let height: usize = self.height as usize;
            Some(color_image_from_rgba(width, height, self.pixels.as_slice()))
        } else {
            None
        }
    }
}

} // verus!
