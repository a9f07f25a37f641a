//! From a pixel buffer to the bytes of a still image.
//!
//! The pixel bytes are laid out here; the PNG container around them is
//! written by the `image` crate.

use image::codecs::png::PngEncoder;
use image::ColorType;
use image::ImageEncoder;
use image::ImageError;
use vstd::prelude::*;
use crate::color::Color;

verus! {

/// The channel of `color` at position `k` of its three bytes: red, green,
/// blue.
pub open spec fn channel(color: Color, k: int) -> u8 {
    if k == 0 {
        color.r
    } else if k == 1 {
        color.g
    } else {
        color.b
    }
}

/// The pixels as contiguous RGB bytes: three bytes per pixel, in the order
/// of the buffer, with nothing between pixels or rows.
pub open spec fn rgb_bytes(pixels: Seq<Color>) -> Seq<u8> {
    Seq::new(3 * pixels.len(), |i: int| channel(pixels[i / 3], i % 3))
}

/// Flattens a pixel buffer into its RGB bytes.
pub fn colors_to_u8s(pixels: &[Color]) -> (bytes: Vec<u8>)
    ensures
        bytes@ == rgb_bytes(pixels@),
        bytes@.len() == 3 * pixels@.len(),
{
    let mut bytes: Vec<u8> = Vec::new();
    let mut i: usize = 0;
    while i < pixels.len()
        invariant
            i <= pixels@.len(),
            bytes@.len() == 3 * i,
            forall|j: int| 0 <= j < 3 * i ==> bytes@[j] == channel(pixels@[j / 3], j % 3),
        decreases pixels@.len() - i,
    {
        let color = pixels[i];
        bytes.push(color.r);
        bytes.push(color.g);
        bytes.push(color.b);
        i += 1;
    }
    assert(bytes@ =~= rgb_bytes(pixels@));
    bytes
}

/// The error of the `image` crate's encoders.
#[verifier::external_type_specification]
#[verifier::external_body]
pub struct ExImageError(ImageError);

/// The PNG stream that the `image` crate writes for an RGB8 image of the
/// given bytes and dimensions; `None` where it refuses the image.
pub uninterp spec fn png_stream(rgb: Seq<u8>, width: u32, height: u32) -> Option<Seq<u8>>;

/// Calls `PngEncoder::write_image` of the `image` crate on an in-memory
/// writer, with colour type `Rgb8`.
///
/// The encoder panics unless the buffer holds exactly three bytes per
/// pixel, hence the precondition. What it writes depends on the bytes and
/// the dimensions alone; the contract gives that stream its name and says
/// nothing of its content.
#[verifier::external_body]
fn write_rgb_png(rgb: &[u8], width: u32, height: u32) -> (r: Result<Vec<u8>, ImageError>)
    requires
        rgb@.len() == width * height * 3,
    ensures
        match r {
            Ok(stream) => png_stream(rgb@, width, height) == Some(stream@),
            Err(_) => png_stream(rgb@, width, height) is None,
        },
{
    let mut stream = Vec::new();
    PngEncoder::new(&mut stream).write_image(rgb, width, height, ColorType::Rgb8)?;
    Ok(stream)
}

/// Why a pixel buffer could not be encoded.
#[derive(Clone, Copy, Debug, PartialEq, Eq, Structural)]
pub enum EncodeError {
    /// The width or the height does not fit the 32 bits of a PNG header.
    TooLarge,
    /// The width or the height is zero.
    EmptyImage,
    /// The encoder refused the image.
    Rejected,
}

/// What the encoder handed back, with its error replaced by this
/// library's own.
pub fn encoded(outcome: Result<Vec<u8>, ImageError>) -> (r: Result<Vec<u8>, EncodeError>)
    ensures
        match outcome {
            Ok(stream) => r == Ok::<Vec<u8>, EncodeError>(stream),
            Err(_) => r == Err::<Vec<u8>, EncodeError>(EncodeError::Rejected),
        },
{
    match outcome {
        Ok(stream) => Ok(stream),
        Err(_) => Err(EncodeError::Rejected),
    }
}

/// The outcome of encoding `pixels` as an image of the given bounds.
pub open spec fn png_of(pixels: Seq<Color>, bounds: (usize, usize)) -> Result<
    Seq<u8>,
    EncodeError,
> {
    if bounds.0 > u32::MAX || bounds.1 > u32::MAX {
        Err(EncodeError::TooLarge)
    } else if bounds.0 == 0 || bounds.1 == 0 {
        Err(EncodeError::EmptyImage)
    } else {
        match png_stream(rgb_bytes(pixels), bounds.0 as u32, bounds.1 as u32) {
            Some(stream) => Ok(stream),
            None => Err(EncodeError::Rejected),
        }
    }
}

/// Encodes a rendered buffer as a PNG image, RGB without alpha, of exactly
/// `bounds.0` by `bounds.1` pixels, and returns the bytes of the file.
///
/// Nothing is written anywhere: the caller stores the bytes once the
/// whole image is there.
pub fn encode_png(pixels: &[Color], bounds: (usize, usize)) -> (r: Result<Vec<u8>, EncodeError>)
    requires
        pixels@.len() == bounds.0 * bounds.1,
    ensures
        match r {
            Ok(stream) => png_of(pixels@, bounds) == Ok::<Seq<u8>, EncodeError>(stream@),
            Err(e) => png_of(pixels@, bounds) == Err::<Seq<u8>, EncodeError>(e),
        },
{
    let (width, height) = bounds;
    if width > u32::MAX as usize || height > u32::MAX as usize {
        return Err(EncodeError::TooLarge);
    }
    if width == 0 || height == 0 {
        return Err(EncodeError::EmptyImage);
    }
    let rgb = colors_to_u8s(pixels);
    assert(rgb@.len() == width * height * 3) by (nonlinear_arith)
        requires
            rgb@.len() == 3 * (width * height),
    ;
    encoded(write_rgb_png(rgb.as_slice(), width as u32, height as u32))
}

} // verus!
