//! GIF: the logical screen descriptor follows the six bytes of signature and
//! version at a fixed place.

use crate::bytes::{le16, read_le16};
use crate::dimensions::{check_dimensions, checked_dimensions};
use crate::error::ImageError;
use vstd::prelude::*;

verus! {

/// Bytes up to the end of the height field of the logical screen descriptor.
pub const GIF_HEADER_LEN: usize = 10;

/// What [`get_gif_dimensions`] returns for the bytes `s`: the width from bytes
/// 6 and 7, the height from bytes 8 and 9, both little-endian.
pub open spec fn gif_dimensions(s: Seq<u8>) -> Result<(u32, u32), ImageError> {
    if s.len() < GIF_HEADER_LEN {
        Err(ImageError::CorruptedData)
    } else {
        checked_dimensions(le16(s, 6), le16(s, 8))
    }
}

/// Reads the pixel dimensions of a GIF image from its logical screen
/// descriptor.
///
/// A buffer of fewer than ten bytes gives `CorruptedData`; a zero width or
/// height gives `InvalidDimensions`.
pub fn get_gif_dimensions(data: &[u8]) -> (result: Result<(u32, u32), ImageError>)
    ensures
        result == gif_dimensions(data@),
        result matches Ok((w, h)) ==> 0 < w <= 0xFFFF && 0 < h <= 0xFFFF,
        !(result matches Err(ImageError::UnsupportedFormat)),
{
    if data.len() < GIF_HEADER_LEN {
        return Err(ImageError::CorruptedData);
    }
    let width = read_le16(data, 6) as u32;
    let height = read_le16(data, 8) as u32;
    check_dimensions(width, height)
}

} // verus!
