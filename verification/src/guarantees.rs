//! What holds of [`get_image_dimensions`] on whole classes of buffers, stated
//! over [`image_dimensions`], the function's own specification.

use crate::bmp::BMP_HEADER_LEN;
use crate::bytes::{be16, be32, le16, le32, tag_at};
use crate::dimensions::image_dimensions;
use crate::error::ImageError;
use crate::format::{
    has_bmp_signature, has_gif_signature, has_jpeg_signature, has_png_signature,
    has_webp_signature, signature_format, ImageFormat,
};
use crate::gif::GIF_HEADER_LEN;
use crate::jpeg::{
    is_frame_marker, jpeg_header_end, lemma_jpeg_truncated, lemma_jpeg_without_frame,
};
use crate::png::{
    is_ihdr_chunk, lemma_png_truncated, lemma_png_without_ihdr, png_header_end, PNG_FIRST_CHUNK,
};
use crate::webp::{
    is_vp8_chunk, is_vp8l_chunk, lemma_webp_truncated, low14, webp_header_end, WEBP_FIRST_CHUNK,
};
use vstd::prelude::*;

verus! {

/// Number of leading bytes of `s` that hold its signature and everything up
/// to the end of its width and height fields; 0 where the format is not
/// recognised or the fields are not found.
pub open spec fn header_end(s: Seq<u8>) -> int {
    match signature_format(s) {
        Some(ImageFormat::Png) => png_header_end(s),
        Some(ImageFormat::Jpeg) => jpeg_header_end(s),
        Some(ImageFormat::Gif) => GIF_HEADER_LEN as int,
        Some(ImageFormat::Webp) => webp_header_end(s),
        Some(ImageFormat::Bmp) => BMP_HEADER_LEN as int,
        None => 0,
    }
}

/// A PNG buffer whose first chunk is `IHDR` has the width and height that the
/// chunk stores, if both are positive, and invalid dimensions if either is
/// zero.
pub proof fn png_leading_header(s: Seq<u8>, width: u32, height: u32)
    requires
        has_png_signature(s),
        s.len() >= 24,
        is_ihdr_chunk(s, PNG_FIRST_CHUNK as int),
        be32(s, 16) == width,
        be32(s, 20) == height,
    ensures
        width > 0 && height > 0 ==> image_dimensions(s) == Ok::<(u32, u32), ImageError>(
            (width, height),
        ),
        width == 0 || height == 0 ==> image_dimensions(s) == Err::<(u32, u32), ImageError>(
            ImageError::InvalidDimensions,
        ),
{
}

/// A JPEG buffer whose first segment is a frame header has the width and
/// height that the header stores, if both are positive, and invalid
/// dimensions if either is zero.
pub proof fn jpeg_leading_header(s: Seq<u8>, width: u16, height: u16)
    requires
        has_jpeg_signature(s),
        s.len() >= 11,
        is_frame_marker(s[3]),
        be16(s, 7) == height,
        be16(s, 9) == width,
    ensures
        width > 0 && height > 0 ==> image_dimensions(s) == Ok::<(u32, u32), ImageError>(
            (width as u32, height as u32),
        ),
        width == 0 || height == 0 ==> image_dimensions(s) == Err::<(u32, u32), ImageError>(
            ImageError::InvalidDimensions,
        ),
{
}

/// A GIF buffer of ten bytes or more has the width and height of its logical
/// screen descriptor, if both are positive, and invalid dimensions if either
/// is zero.
pub proof fn gif_header(s: Seq<u8>, width: u16, height: u16)
    requires
        has_gif_signature(s),
        s.len() >= 10,
        le16(s, 6) == width,
        le16(s, 8) == height,
    ensures
        width > 0 && height > 0 ==> image_dimensions(s) == Ok::<(u32, u32), ImageError>(
            (width as u32, height as u32),
        ),
        width == 0 || height == 0 ==> image_dimensions(s) == Err::<(u32, u32), ImageError>(
            ImageError::InvalidDimensions,
        ),
{
}

/// A BMP buffer of 26 bytes or more has the width and height of its
/// information header, if both are positive, and invalid dimensions if either
/// is zero.
pub proof fn bmp_header(s: Seq<u8>, width: u32, height: u32)
    requires
        has_bmp_signature(s),
        s.len() >= 26,
        le32(s, 18) == width,
        le32(s, 22) == height,
    ensures
        width > 0 && height > 0 ==> image_dimensions(s) == Ok::<(u32, u32), ImageError>(
            (width, height),
        ),
        width == 0 || height == 0 ==> image_dimensions(s) == Err::<(u32, u32), ImageError>(
            ImageError::InvalidDimensions,
        ),
{
}

/// A WebP buffer whose first chunk is a lossy bitstream has the width and
/// height that the low fourteen bits of the two size words store, whatever
/// the upper two bits of each word hold: both if positive, and invalid
/// dimensions if either is zero.
pub proof fn webp_leading_lossy_header(s: Seq<u8>, width: u16, height: u16)
    requires
        has_webp_signature(s),
        s.len() >= 30,
        is_vp8_chunk(s, WEBP_FIRST_CHUNK as int),
        low14(le16(s, 26)) == width,
        low14(le16(s, 28)) == height,
    ensures
        width > 0 && height > 0 ==> image_dimensions(s) == Ok::<(u32, u32), ImageError>(
            (width as u32, height as u32),
        ),
        width == 0 || height == 0 ==> image_dimensions(s) == Err::<(u32, u32), ImageError>(
            ImageError::InvalidDimensions,
        ),
{
}

/// A WebP buffer whose first chunk is a lossless bitstream has the width and
/// height that its size word stores, each less one, in bits 0 to 13 and 14 to
/// 27. Neither can be zero. The 25 bytes up to the end of the size word are
/// enough.
pub proof fn webp_leading_lossless_header(s: Seq<u8>, width: u32, height: u32)
    requires
        has_webp_signature(s),
        s.len() >= 25,
        is_vp8l_chunk(s, WEBP_FIRST_CHUNK as int),
        1 <= width <= 0x4000,
        1 <= height <= 0x4000,
        le32(s, 21) % 0x1000_0000 == (width - 1) + (height - 1) * 0x4000,
    ensures
        image_dimensions(s) == Ok::<(u32, u32), ImageError>((width, height)),
{
    let bits = le32(s, 21) as u32;
    let w = (width - 1) as u32;
    let h = (height - 1) as u32;
    assert(bits % 0x4000 == w && (bits / 0x4000) % 0x4000 == h) by (bit_vector)
        requires
            bits % 0x1000_0000 == w + h * 0x4000,
            w < 0x4000,
            h < 0x4000,
    ;
}

/// A buffer cut off before the end of its width and height fields, with its
/// signature left whole, is reported as corrupted.
pub proof fn truncated_header_is_corrupted(s: Seq<u8>, n: int)
    requires
        0 <= n <= s.len(),
        n < header_end(s),
        signature_format(s.take(n)) is Some,
    ensures
        image_dimensions(s.take(n)) == Err::<(u32, u32), ImageError>(ImageError::CorruptedData),
{
    let t = s.take(n);
    assert(n >= 8);
    assert(forall|i: int| 0 <= i < n ==> t[i] == s[i]);
    assert(signature_format(t) == signature_format(s));
    match signature_format(s) {
        Some(ImageFormat::Png) => lemma_png_truncated(s, n),
        Some(ImageFormat::Jpeg) => lemma_jpeg_truncated(s, n),
        Some(ImageFormat::Webp) => lemma_webp_truncated(s, n),
        _ => {},
    }
}

/// A PNG buffer whose first chunk is not `IHDR` and declares a length that
/// reaches past the end of the buffer is reported as corrupted.
pub proof fn png_overlong_chunk_is_corrupted(s: Seq<u8>)
    requires
        has_png_signature(s),
        !is_ihdr_chunk(s, PNG_FIRST_CHUNK as int),
        PNG_FIRST_CHUNK + 12 + be32(s, PNG_FIRST_CHUNK as int) > s.len(),
    ensures
        image_dimensions(s) == Err::<(u32, u32), ImageError>(ImageError::CorruptedData),
{
}

/// A PNG buffer in which the tag `IHDR` occurs nowhere is reported as
/// corrupted.
pub proof fn png_without_ihdr_is_corrupted(s: Seq<u8>)
    requires
        has_png_signature(s),
        forall|i: int| 0 <= i ==> !tag_at(s, i, 0x49, 0x48, 0x44, 0x52),
    ensures
        image_dimensions(s) == Err::<(u32, u32), ImageError>(ImageError::CorruptedData),
{
    lemma_png_without_ihdr(s, PNG_FIRST_CHUNK as int);
}

/// A JPEG buffer in which no `FF` byte is followed by a frame marker code is
/// reported as corrupted, however its segments are laid out.
pub proof fn jpeg_without_frame_is_corrupted(s: Seq<u8>)
    requires
        s.len() >= 8,
        has_jpeg_signature(s),
        forall|i: int|
            0 <= i && i + 1 < s.len() && s[i] == 0xFF ==> !is_frame_marker(#[trigger] s[i + 1]),
    ensures
        image_dimensions(s) == Err::<(u32, u32), ImageError>(ImageError::CorruptedData),
{
    lemma_jpeg_without_frame(s, 2);
}

} // verus!
