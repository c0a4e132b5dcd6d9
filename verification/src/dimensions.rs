//! Dimensions of an image of any supported format.

use crate::bmp::{bmp_dimensions, get_bmp_dimensions};
use crate::error::ImageError;
use crate::format::{signature_format, ImageFormat};
use crate::gif::{get_gif_dimensions, gif_dimensions};
use crate::jpeg::{get_jpeg_dimensions, jpeg_dimensions};
use crate::png::{get_png_dimensions, png_dimensions};
use crate::webp::{get_webp_dimensions, webp_dimensions};
use vstd::prelude::*;

verus! {

/// A width and a height as read from a header: accepted when both are
/// positive, refused as invalid when either is zero.
pub open spec fn checked_dimensions(width: int, height: int) -> Result<(u32, u32), ImageError> {
    if width == 0 || height == 0 {
        Err(ImageError::InvalidDimensions)
    } else {
        Ok((width as u32, height as u32))
    }
}

/// Accepts a pair of dimensions read from a header when both are positive.
pub(crate) fn check_dimensions(width: u32, height: u32) -> (result: Result<(u32, u32), ImageError>)
    ensures
        result == checked_dimensions(width as int, height as int),
{
    if width == 0 || height == 0 {
        Err(ImageError::InvalidDimensions)
    } else {
        Ok((width, height))
    }
}

/// What the decoder of `format` returns for the bytes `s`.
pub open spec fn format_dimensions(format: ImageFormat, s: Seq<u8>) -> Result<
    (u32, u32),
    ImageError,
> {
    match format {
        ImageFormat::Png => png_dimensions(s),
        ImageFormat::Jpeg => jpeg_dimensions(s),
        ImageFormat::Gif => gif_dimensions(s),
        ImageFormat::Webp => webp_dimensions(s),
        ImageFormat::Bmp => bmp_dimensions(s),
    }
}

/// What [`get_image_dimensions`] returns for the bytes `s`.
pub open spec fn image_dimensions(s: Seq<u8>) -> Result<(u32, u32), ImageError> {
    if s.len() == 0 {
        Err(ImageError::CorruptedData)
    } else {
        match signature_format(s) {
            None => Err(ImageError::UnsupportedFormat),
            Some(format) => format_dimensions(format, s),
        }
    }
}

/// Reads the pixel dimensions `(width, height)` of an image of any supported
/// format.
///
/// An empty buffer gives `CorruptedData`. A buffer whose signature is not
/// recognised gives `UnsupportedFormat`, and it is the only one that does.
/// Otherwise the decoder of the recognised format decides. Dimensions that
/// are returned are both positive.
pub fn get_image_dimensions(image_data: &[u8]) -> (result: Result<(u32, u32), ImageError>)
    ensures
        result == image_dimensions(image_data@),
        result matches Ok((w, h)) ==> w > 0 && h > 0,
        result matches Err(ImageError::UnsupportedFormat) <==> image_data@.len() > 0
            && signature_format(image_data@) is None,
{
    if image_data.is_empty() {
        return Err(ImageError::CorruptedData);
    }
    match ImageFormat::from_signature(image_data) {
        None => Err(ImageError::UnsupportedFormat),
        Some(ImageFormat::Png) => get_png_dimensions(image_data),
        Some(ImageFormat::Jpeg) => get_jpeg_dimensions(image_data),
        Some(ImageFormat::Gif) => get_gif_dimensions(image_data),
        Some(ImageFormat::Webp) => get_webp_dimensions(image_data),
        Some(ImageFormat::Bmp) => get_bmp_dimensions(image_data),
    }
}

} // verus!
