//! JPEG: the marker segments after the start-of-image marker are walked until
//! a frame header is found.

use crate::bytes::{be16, read_be16};
use crate::dimensions::{check_dimensions, checked_dimensions};
use crate::error::ImageError;
use vstd::prelude::*;

verus! {

/// Offset of the first marker, after the two bytes of the start-of-image
/// marker.
pub const JPEG_FIRST_MARKER: usize = 2;

/// Bytes from the `FF` of a frame marker to the end of the width field: the
/// marker, the segment length, the sample precision, the height and the
/// width.
pub const JPEG_FRAME_HEADER_LEN: usize = 9;

/// `s` begins with the start-of-image marker `FF D8` and holds at least four
/// bytes.
pub open spec fn starts_jpeg(s: Seq<u8>) -> bool {
    s.len() >= 4 && s[0] == 0xFF && s[1] == 0xD8
}

/// The marker codes that introduce a frame header: `C0` to `CF` without
/// `C4`, `C8` and `CC`, which name a table, an extension and a conditioning
/// segment.
pub open spec fn is_frame_marker(code: u8) -> bool {
    ||| 0xC0 <= code <= 0xC3
    ||| 0xC5 <= code <= 0xC7
    ||| 0xC9 <= code <= 0xCB
    ||| 0xCD <= code <= 0xCF
}

/// Offset of the `FF` byte of the first frame marker reached by walking the
/// segments from `pos`.
///
/// A marker is two bytes inside `s`, the first of them `FF`. Every segment
/// that is no frame header is skipped by its big-endian 16-bit length, which
/// counts its own two bytes. The walk gives up at a byte that is not `FF`
/// where a marker should start, at a length below 2, and at a length that
/// reaches past the end of `s`.
pub open spec fn jpeg_frame_from(s: Seq<u8>, pos: int) -> Option<int>
    decreases s.len() - pos,
{
    if pos < 0 || pos + 1 >= s.len() || s[pos] != 0xFF {
        None
    } else if is_frame_marker(s[pos + 1]) {
        Some(pos)
    } else if pos + 4 <= s.len() && be16(s, pos + 2) >= 2 && pos + 2 + be16(s, pos + 2)
        <= s.len() {
        jpeg_frame_from(s, pos + 2 + be16(s, pos + 2))
    } else {
        None
    }
}

/// The dimensions in the frame header whose marker starts at `at`: the height
/// in bytes 5 and 6 from the marker, the width in bytes 7 and 8, both
/// big-endian.
pub open spec fn jpeg_frame_dimensions(s: Seq<u8>, at: int) -> Result<(u32, u32), ImageError> {
    if at + JPEG_FRAME_HEADER_LEN > s.len() {
        Err(ImageError::CorruptedData)
    } else {
        checked_dimensions(be16(s, at + 7), be16(s, at + 5))
    }
}

/// What [`get_jpeg_dimensions`] returns for the bytes `s`.
pub open spec fn jpeg_dimensions(s: Seq<u8>) -> Result<(u32, u32), ImageError> {
    if !starts_jpeg(s) {
        Err(ImageError::UnsupportedFormat)
    } else {
        match jpeg_frame_from(s, JPEG_FIRST_MARKER as int) {
            None => Err(ImageError::CorruptedData),
            Some(at) => jpeg_frame_dimensions(s, at),
        }
    }
}

/// Number of leading bytes of `s` that hold everything up to the end of the
/// width field of the frame header; 0 where the walk finds no frame header.
pub open spec fn jpeg_header_end(s: Seq<u8>) -> int {
    match jpeg_frame_from(s, JPEG_FIRST_MARKER as int) {
        Some(at) => at + JPEG_FRAME_HEADER_LEN,
        None => 0,
    }
}

/// One step of the segment walk, spelled out.
proof fn lemma_jpeg_walk_step(s: Seq<u8>, pos: int)
    requires
        0 <= pos,
        pos + 1 < s.len(),
    ensures
        s[pos] != 0xFF ==> jpeg_frame_from(s, pos) is None,
        s[pos] == 0xFF && is_frame_marker(s[pos + 1]) ==> jpeg_frame_from(s, pos) == Some(pos),
        s[pos] == 0xFF && !is_frame_marker(s[pos + 1]) && !(pos + 4 <= s.len() && be16(s, pos + 2)
            >= 2 && pos + 2 + be16(s, pos + 2) <= s.len()) ==> jpeg_frame_from(s, pos) is None,
        s[pos] == 0xFF && !is_frame_marker(s[pos + 1]) && pos + 4 <= s.len() && be16(s, pos + 2)
            >= 2 && pos + 2 + be16(s, pos + 2) <= s.len() ==> jpeg_frame_from(s, pos)
            == jpeg_frame_from(s, pos + 2 + be16(s, pos + 2)),
{
}

/// Whether `code` introduces a frame header.
fn frame_marker(code: u8) -> (found: bool)
    ensures
        found == is_frame_marker(code),
{
    (0xC0 <= code && code <= 0xC3) || (0xC5 <= code && code <= 0xC7) || (0xC9 <= code && code
        <= 0xCB) || (0xCD <= code && code <= 0xCF)
}

/// Reads the pixel dimensions of a JPEG image.
///
/// A buffer of fewer than four bytes, or one that does not begin with the
/// start-of-image marker, gives `UnsupportedFormat`. Otherwise the segments
/// are walked from offset 2 to the first frame header. A segment length below
/// 2 or past the end of the buffer, a missing `FF`, and a buffer that ends
/// before the width field of the frame header all give `CorruptedData`; a
/// frame header with a zero dimension gives `InvalidDimensions`.
pub fn get_jpeg_dimensions(data: &[u8]) -> (result: Result<(u32, u32), ImageError>)
    ensures
        result == jpeg_dimensions(data@),
        result matches Ok((w, h)) ==> 0 < w <= 0xFFFF && 0 < h <= 0xFFFF,
        result matches Err(ImageError::UnsupportedFormat) <==> !starts_jpeg(data@),
{
    let len = data.len();
    if len < 4 || data[0] != 0xFF || data[1] != 0xD8 {
        return Err(ImageError::UnsupportedFormat);
    }
    let mut pos: usize = JPEG_FIRST_MARKER;
    while len - pos > 1
        invariant
            len == data@.len(),
            starts_jpeg(data@),
            JPEG_FIRST_MARKER <= pos <= len,
            jpeg_frame_from(data@, JPEG_FIRST_MARKER as int) == jpeg_frame_from(data@, pos as int),
        decreases len - pos,
    {
        proof {
            lemma_jpeg_walk_step(data@, pos as int);
        }
        if data[pos] != 0xFF {
            return Err(ImageError::CorruptedData);
        }
        if frame_marker(data[pos + 1]) {
            if len - pos < JPEG_FRAME_HEADER_LEN {
                return Err(ImageError::CorruptedData);
            }
            let height = read_be16(data, pos + 5) as u32;
            let width = read_be16(data, pos + 7) as u32;
            return check_dimensions(width, height);
        }
        if len - pos < 4 {
            return Err(ImageError::CorruptedData);
        }
        let segment_len = read_be16(data, pos + 2) as usize;
        if segment_len < 2 || segment_len > len - pos - 2 {
            return Err(ImageError::CorruptedData);
        }
        pos = pos + 2 + segment_len;
    }
    Err(ImageError::CorruptedData)
}

/// The walk over the first `n` bytes of `s` takes the steps of the walk over
/// `s`: it finds the same frame header, or it runs out of bytes and finds
/// none.
pub proof fn lemma_jpeg_walk_prefix(s: Seq<u8>, n: int, pos: int)
    requires
        0 <= n <= s.len(),
        0 <= pos,
    ensures
        jpeg_frame_from(s.take(n), pos) is None || jpeg_frame_from(s.take(n), pos)
            == jpeg_frame_from(s, pos),
    decreases s.len() - pos,
{
    let t = s.take(n);
    if pos + 1 < n {
        lemma_jpeg_walk_step(s, pos);
        lemma_jpeg_walk_step(t, pos);
        assert(t[pos] == s[pos] && t[pos + 1] == s[pos + 1]);
        if s[pos] == 0xFF && !is_frame_marker(s[pos + 1]) && pos + 4 <= n {
            assert(be16(t, pos + 2) == be16(s, pos + 2));
            let next = pos + 2 + be16(s, pos + 2);
            if be16(s, pos + 2) >= 2 && next <= n {
                lemma_jpeg_walk_prefix(s, n, next);
            }
        }
    }
}

/// A JPEG buffer cut off before the end of the width field of its frame
/// header, but not inside its first four bytes, is reported as corrupted.
pub proof fn lemma_jpeg_truncated(s: Seq<u8>, n: int)
    requires
        4 <= n <= s.len(),
        starts_jpeg(s),
        n < jpeg_header_end(s),
    ensures
        jpeg_dimensions(s.take(n)) == Err::<(u32, u32), ImageError>(ImageError::CorruptedData),
{
    lemma_jpeg_walk_prefix(s, n, JPEG_FIRST_MARKER as int);
    let t = s.take(n);
    assert(t[0] == s[0] && t[1] == s[1]);
}

/// Where no `FF` byte of `s` is followed by a frame marker code, the walk
/// from any offset finds no frame header.
pub proof fn lemma_jpeg_without_frame(s: Seq<u8>, pos: int)
    requires
        0 <= pos,
        forall|i: int|
            0 <= i && i + 1 < s.len() && s[i] == 0xFF ==> !is_frame_marker(#[trigger] s[i + 1]),
    ensures
        jpeg_frame_from(s, pos) is None,
    decreases s.len() - pos,
{
    if pos + 1 < s.len() {
        lemma_jpeg_walk_step(s, pos);
        if s[pos] == 0xFF {
            assert(!is_frame_marker(s[pos + 1]));
            if pos + 4 <= s.len() {
                let next = pos + 2 + be16(s, pos + 2);
                if be16(s, pos + 2) >= 2 && next <= s.len() {
                    lemma_jpeg_without_frame(s, next);
                }
            }
        }
    }
}

} // verus!
