//! Frames as images that egui draws.

use crate::convert;
use crate::convert::to_rgba8;
use crate::error::{Error, ErrorView};
use crate::types::{Frame, FrameView};
use egui::ColorImage;
use vstd::prelude::*;

verus! {

/// An image in memory, as egui takes it for a texture.
#[verifier::external_type_specification]
#[verifier::external_body]
pub struct ExColorImage(ColorImage);

/// Width and height of an image, in pixels.
pub uninterp spec fn image_size(image: ColorImage) -> (int, int);

/// The pixels of an image, row by row from the top: red, green and blue, each multiplied
/// with the opacity, and the opacity.
pub uninterp spec fn image_pixels(image: ColorImage) -> Seq<Seq<u8>>;

/// A colour value at an opacity, out of 255 and rounded to the nearest.
pub open spec fn premultiplied(value: u8, alpha: u8) -> u8 {
    ((value * alpha + 127) / 255) as u8
}

/// Pixel `i` of packed RGBA with separate alpha, as it stands in an image.
pub open spec fn drawn_pixel(rgba: Seq<u8>, i: int) -> Seq<u8> {
    let alpha = rgba[4 * i + 3];
    seq![
        premultiplied(rgba[4 * i], alpha),
        premultiplied(rgba[4 * i + 1], alpha),
        premultiplied(rgba[4 * i + 2], alpha),
        alpha,
    ]
}

/// All pixels of packed RGBA with separate alpha, as they stand in an image.
pub open spec fn drawn(rgba: Seq<u8>) -> Seq<Seq<u8>> {
    Seq::new((rgba.len() / 4) as nat, |i: int| drawn_pixel(rgba, i))
}

/// Whether an image shows packed RGBA of this size.
pub open spec fn shows(image: ColorImage, width: int, height: int, rgba: Seq<u8>) -> bool {
    &&& image_size(image) == (width, height)
    &&& image_pixels(image) == drawn(rgba)
}

/// `ColorImage::from_rgba_unmultiplied`: an image of this size whose pixels are those of the
/// data, each colour multiplied with its alpha and rounded. It panics where the data is not
/// four bytes for each pixel.
#[verifier::external_body]
fn from_rgba_unmultiplied(width: usize, height: usize, rgba: &[u8]) -> (image: ColorImage)
    requires
        width * height * 4 == rgba@.len(),
    ensures
        image_size(image) == (width as int, height as int),
        image_pixels(image) == drawn(rgba@),
{
    ColorImage::from_rgba_unmultiplied([width, height], rgba)
}

/// Whether a frame, once converted, has four bytes for each of its pixels. A compressed
/// frame may say another size than its data has.
pub open spec fn fills_its_size(frame: FrameView) -> bool {
    convert::rgba8(frame) matches Ok(rgba) ==> frame.width * frame.height * 4 == rgba.len()
}

/// Convert a frame into an egui image (RGBA8).
pub fn frame_to_color_image(frame: &Frame) -> (result: Result<ColorImage, Error>)
    requires
        convert::complete(frame@),
        fills_its_size(frame@),
    ensures
        match result {
            Ok(image) => convert::rgba8(frame@) matches Ok(rgba) && shows(
                image,
                frame.width as int,
                frame.height as int,
                rgba,
            ),
            Err(error) => convert::rgba8(frame@) == Err::<Seq<u8>, ErrorView>(error@),
        },
{
    match to_rgba8(frame) {
        Ok(rgba) => Ok(
            from_rgba_unmultiplied(frame.width as usize, frame.height as usize, rgba.as_slice()),
        ),
        Err(error) => Err(error),
    }
}

/// Convert a frame into an egui image where its data fills its size; nothing where it does
/// not.
pub fn color_image_if_filled(frame: &Frame) -> (result: Result<Option<ColorImage>, Error>)
    requires
        convert::complete(frame@),
    ensures
        match result {
            Ok(Some(image)) => convert::rgba8(frame@) matches Ok(rgba) && fills_its_size(frame@)
                && shows(image, frame.width as int, frame.height as int, rgba),
            Ok(None) => !fills_its_size(frame@),
            Err(error) => convert::rgba8(frame@) == Err::<Seq<u8>, ErrorView>(error@),
        },
{
    match to_rgba8(frame) {
        Ok(rgba) => {
            assert(frame.width * frame.height <= u32::MAX * u32::MAX) by (nonlinear_arith)
                requires
                    frame.width <= u32::MAX,
                    frame.height <= u32::MAX,
            ;
            let pixels: u64 = frame.width as u64 * frame.height as u64;
            if pixels as u128 * 4 != rgba.len() as u128 {
                return Ok(None);
            }
            match frame_to_color_image(frame) {
                Ok(image) => Ok(Some(image)),
                Err(error) => Err(error),
            }
        },
        Err(error) => Err(error),
    }
}

} // verus!
