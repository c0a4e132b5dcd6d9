//! BMP: width and height lie at fixed places of the bitmap information
//! header.

use crate::bytes::{le32, read_le32};
use crate::dimensions::{check_dimensions, checked_dimensions};
use crate::error::ImageError;
use vstd::prelude::*;

verus! {

/// Bytes up to the end of the height field of the information header.
pub const BMP_HEADER_LEN: usize = 26;

/// What [`get_bmp_dimensions`] returns for the bytes `s`: the width from bytes
/// 18 to 21, the height from bytes 22 to 25, both little-endian and both taken
/// as unsigned.
pub open spec fn bmp_dimensions(s: Seq<u8>) -> Result<(u32, u32), ImageError> {
    if s.len() < BMP_HEADER_LEN {
        Err(ImageError::CorruptedData)
    } else {
        checked_dimensions(le32(s, 18), le32(s, 22))
    }
}

/// Reads the pixel dimensions of a BMP image from its information header.
///
/// A buffer of fewer than 26 bytes gives `CorruptedData`; a zero width or
/// height gives `InvalidDimensions`.
///
/// Known limitation: the height field is read as an unsigned magnitude. A
/// bitmap that stores its rows top-down declares a negative height, which
/// comes out here as a value of 2^31 or more.
pub fn get_bmp_dimensions(data: &[u8]) -> (result: Result<(u32, u32), ImageError>)
    ensures
        result == bmp_dimensions(data@),
        result matches Ok((w, h)) ==> w > 0 && h > 0,
        !(result matches Err(ImageError::UnsupportedFormat)),
{
    if data.len() < BMP_HEADER_LEN {
        return Err(ImageError::CorruptedData);
    }
    let width = read_le32(data, 18);
    let height = read_le32(data, 22);
    check_dimensions(width, height)
}

} // verus!
