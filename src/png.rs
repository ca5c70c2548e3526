//! Storing a payload as a PNG image through the `image` crate's lossless codec,
//! and getting it back.
use image::ImageDecoder;
use vstd::prelude::*;

use crate::error::PixelError;
use crate::geometry::{grid_bytes, grid_height, grid_width, lemma_grid_fits, pixel_count};
use crate::packing::{pack, packed_buffer, unpack, unpacks_to, MAX_PAYLOAD};

verus! {

/// Largest grid, in bytes, that decoding reads: twice what the longest
/// payload's grid takes, with room to spare.
pub const MAX_IMAGE_BYTES: u64 = 0x4_0000_0000;

/// The PNG file that `image` writes for an RGB grid of eight-bit channels.
pub uninterp spec fn png_rgb8_file(pixels: Seq<u8>, width: u32, height: u32) -> Seq<u8>;

/// What `image` reads from the header of a PNG file, when it accepts it: width,
/// height, and whether the pixels are eight-bit RGB.
pub uninterp spec fn png_header(file: Seq<u8>) -> Option<(u32, u32, bool)>;

/// The pixel bytes that `image` reads out of an eight-bit RGB PNG file, when
/// it accepts it.
pub uninterp spec fn png_rgb8_pixels(file: Seq<u8>) -> Option<Seq<u8>>;

/// A header whose pixels decoding reads: eight-bit RGB, and a grid of at most
/// `MAX_IMAGE_BYTES` bytes that a buffer can hold.
pub open spec fn readable_header(h: (u32, u32, bool)) -> bool {
    &&& h.2
    &&& h.0 as nat * h.1 as nat * 3 <= MAX_IMAGE_BYTES
    &&& h.0 as nat * h.1 as nat * 3 <= isize::MAX
}

/// `file` has a header that `image` accepts and decoding reads.
pub open spec fn readable(file: Seq<u8>) -> bool {
    png_header(file) matches Some(h) && readable_header(h)
}

/// Relies on `image::codecs::png::PngEncoder::encode`, writing into memory with
/// `ColorType::Rgb8`: the bytes written depend on the pixels and the grid alone.
/// The encoder fails only on a zero width or height, a buffer that does not
/// fill the grid, or a failing writer; none of these can happen here.
#[verifier::external_body]
fn png_encode(pixels: &Vec<u8>, width: u32, height: u32) -> (r: Result<Vec<u8>, image::ImageError>)
    requires
        1 <= width,
        1 <= height,
        pixels@.len() == width * height * 3,
    ensures
        r is Ok,
        r matches Ok(file) ==> file@ == png_rgb8_file(pixels@, width, height),
{
    let mut file: Vec<u8> = Vec::new();
    let encoder = image::codecs::png::PngEncoder::new(&mut file);
    let written = encoder.encode(pixels, width, height, image::ColorType::Rgb8);
    written.map(|()| file)
}

/// Relies on `image::codecs::png::PngDecoder::new`, reading from memory, and on
/// the decoder's `dimensions` and `color_type`: whether the header is accepted,
/// and what it holds, depend on the file's bytes alone.
#[verifier::external_body]
fn png_read_header(file: &Vec<u8>) -> (r: Result<(u32, u32, bool), image::ImageError>)
    ensures
        r is Ok <==> png_header(file@) is Some,
        r matches Ok(h) ==> png_header(file@) == Some(h),
{
    let decoder = image::codecs::png::PngDecoder::new(file.as_slice())?;
    let (width, height) = decoder.dimensions();
    let rgb8 = match decoder.color_type() {
        image::ColorType::Rgb8 => true,
        _ => false,
    };
    Ok((width, height, rgb8))
}

/// Relies on `image::codecs::png::PngDecoder::new`, reading from memory, and on
/// `ImageDecoder::total_bytes` and `ImageDecoder::read_image`: for an eight-bit
/// RGB file the pixel bytes, and whether reading them succeeds, depend on the
/// file's bytes alone. The header was read before, so the buffer of
/// `total_bytes` bytes can be allocated.
#[verifier::external_body]
fn png_read_rgb8(file: &Vec<u8>) -> (r: Result<Vec<u8>, image::ImageError>)
    requires
        readable(file@),
    ensures
        r is Ok <==> png_rgb8_pixels(file@) is Some,
        r matches Ok(pixels) ==> png_rgb8_pixels(file@) == Some(pixels@),
{
    let decoder = image::codecs::png::PngDecoder::new(file.as_slice())?;
    let mut pixels: Vec<u8> = vec![0u8; decoder.total_bytes() as usize];
    decoder.read_image(&mut pixels)?;
    Ok(pixels)
}

/// The grid chosen for any payload that the header can describe fits within
/// `MAX_IMAGE_BYTES`, so decoding never refuses an image by its size alone when
/// the image was made by packing.
pub proof fn lemma_packed_grid_readable(len: nat)
    requires
        4 <= len <= MAX_PAYLOAD + 4,
    ensures
        grid_bytes(len) <= MAX_IMAGE_BYTES,
{
    lemma_grid_fits(len);
    assert(3 * pixel_count(len) <= len + 2);
}

/// Packs `payload` into a near-square RGB grid and encodes the grid as a PNG file.
pub fn encode(payload: &Vec<u8>) -> (r: Result<Vec<u8>, PixelError>)
    ensures
        payload@.len() > MAX_PAYLOAD ==> r matches Err(PixelError::PayloadTooLarge),
        payload@.len() <= MAX_PAYLOAD ==> (r matches Ok(file) && file@ == png_rgb8_file(
            packed_buffer(payload@),
            grid_width(payload@.len() + 4) as u32,
            grid_height(payload@.len() + 4) as u32,
        )),
{
    let packed = match pack(payload) {
        Ok(packed) => packed,
        Err(e) => return Err(e),
    };
    proof {
        lemma_grid_fits(payload@.len() + 4);
    }
    match png_encode(&packed.buffer, packed.width, packed.height) {
        Ok(file) => Ok(file),
        Err(e) => Err(PixelError::Encode(e)),
    }
}

/// Decodes a PNG file and returns the payload that its pixels hold.
pub fn decode(file: &Vec<u8>) -> (r: Result<Vec<u8>, PixelError>)
    ensures
        (png_header(file@) is None || (readable(file@) && png_rgb8_pixels(file@) is None))
            <==> r matches Err(PixelError::Decode(_)),
        (png_header(file@) is Some && !readable(file@)) <==> r matches Err(
            PixelError::UnsupportedImage,
        ),
        readable(file@) ==> (png_rgb8_pixels(file@) matches Some(pixels) ==> unpacks_to(
            pixels,
            r,
        )),
{
    let (width, height, rgb8) = match png_read_header(file) {
        Ok(header) => header,
        Err(e) => return Err(PixelError::Decode(e)),
    };
    assert(width as u64 * height as u64 <= 0xFFFF_FFFF * 0xFFFF_FFFF) by (nonlinear_arith)
        requires width <= 0xFFFF_FFFFu32, height <= 0xFFFF_FFFFu32;
    let count: u64 = width as u64 * height as u64;
    if !rgb8 || count > MAX_IMAGE_BYTES / 3 || count * 3 > isize::MAX as u64 {
        return Err(PixelError::UnsupportedImage);
    }
    let pixels = match png_read_rgb8(file) {
        Ok(pixels) => pixels,
        Err(e) => return Err(PixelError::Decode(e)),
    };
    unpack(&pixels)
}

} // verus!
