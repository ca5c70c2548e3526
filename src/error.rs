//! Errors reported by the library.
use vstd::prelude::*;

verus! {

/// Declared so that the raster codec's error can be carried through.
#[verifier::external_type_specification]
#[verifier::external_body]
pub struct ExImageError(image::ImageError);

/// Why packing, unpacking or the raster codec failed.
#[derive(Debug)]
pub enum PixelError {
    /// The payload is longer than the four-byte length header can express.
    PayloadTooLarge,
    /// The pixel buffer is too short to hold the length header.
    TruncatedHeader,
    /// The length header declares more bytes than the pixel buffer holds.
    TruncatedPayload,
    /// The image is not eight-bit RGB, or its grid is larger than any packed
    /// payload needs.
    UnsupportedImage,
    /// The raster codec could not encode the pixel buffer.
    Encode(image::ImageError),
    /// The raster codec could not decode the image.
    Decode(image::ImageError),
}

} // verus!
