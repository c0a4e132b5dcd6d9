//! WebP: a RIFF container whose chunks are walked until the lossy (`VP8 `) or
//! the lossless (`VP8L`) bitstream header is found.

use crate::bytes::{has_tag, le16, le32, read_le16, read_le32, tag_at};
use crate::dimensions::{check_dimensions, checked_dimensions};
use crate::error::ImageError;
use vstd::prelude::*;

verus! {

/// Offset of the first chunk, after `RIFF`, the file size and `WEBP`.
pub const WEBP_FIRST_CHUNK: usize = 12;

/// A chunk header with the tag `VP8 ` starts at `at`.
pub open spec fn is_vp8_chunk(s: Seq<u8>, at: int) -> bool {
    tag_at(s, at, 0x56, 0x50, 0x38, 0x20)
}

/// A chunk header with the tag `VP8L` starts at `at`.
pub open spec fn is_vp8l_chunk(s: Seq<u8>, at: int) -> bool {
    tag_at(s, at, 0x56, 0x50, 0x38, 0x4C)
}

/// The low fourteen bits of `x`.
pub open spec fn low14(x: int) -> int {
    x % 0x4000
}

/// Offset of the first bitstream chunk reached by walking the chunks from
/// `pos`.
///
/// A chunk is examined only if its eight-byte header and at least one byte
/// more lie inside `s`. Any chunk other than `VP8 ` and `VP8L` is skipped by
/// its declared size, rounded up to an even number of bytes. The walk gives
/// up when a declared size reaches past the end of `s`.
pub open spec fn webp_bitstream_from(s: Seq<u8>, pos: int) -> Option<int>
    decreases s.len() + 1 - pos,
{
    if pos < 0 || pos + 8 >= s.len() {
        None
    } else if is_vp8_chunk(s, pos) || is_vp8l_chunk(s, pos) {
        Some(pos)
    } else {
        let size = le32(s, pos + 4);
        if pos + 8 + size <= s.len() {
            webp_bitstream_from(s, pos + 8 + size + size % 2)
        } else {
            None
        }
    }
}

/// The dimensions in a lossy frame header whose chunk payload starts at
/// `body`: two little-endian 16-bit words at offsets 6 and 8 of the payload,
/// of which the low fourteen bits count and the upper two are scaling flags.
pub open spec fn vp8_dimensions(s: Seq<u8>, body: int) -> Result<(u32, u32), ImageError> {
    if body + 10 > s.len() {
        Err(ImageError::CorruptedData)
    } else {
        checked_dimensions(low14(le16(s, body + 6)), low14(le16(s, body + 8)))
    }
}

/// The dimensions in a lossless header whose chunk payload starts at `body`:
/// after one signature byte, a little-endian 32-bit word that holds the width
/// less one in bits 0 to 13 and the height less one in bits 14 to 27.
pub open spec fn vp8l_dimensions(s: Seq<u8>, body: int) -> Result<(u32, u32), ImageError> {
    if body + 5 > s.len() {
        Err(ImageError::CorruptedData)
    } else {
        let bits = le32(s, body + 1);
        Ok(((low14(bits) + 1) as u32, (low14(bits / 0x4000) + 1) as u32))
    }
}

/// What [`get_webp_dimensions`] returns for the bytes `s`: the dimensions in
/// the first bitstream chunk that the walk from offset 12 finds. No length is
/// asked of `s` but that every byte read lies inside it, so that a lossless
/// image is read from 25 bytes and a lossy one from 30.
pub open spec fn webp_dimensions(s: Seq<u8>) -> Result<(u32, u32), ImageError> {
    match webp_bitstream_from(s, WEBP_FIRST_CHUNK as int) {
        None => Err(ImageError::CorruptedData),
        Some(at) => if is_vp8_chunk(s, at) {
            vp8_dimensions(s, at + 8)
        } else {
            vp8l_dimensions(s, at + 8)
        },
    }
}

/// Number of leading bytes of `s` that hold everything up to the end of the
/// dimension fields of the bitstream header; 0 where the walk finds no
/// bitstream chunk.
pub open spec fn webp_header_end(s: Seq<u8>) -> int {
    match webp_bitstream_from(s, WEBP_FIRST_CHUNK as int) {
        Some(at) => if is_vp8_chunk(s, at) {
            at + 18
        } else {
            at + 13
        },
        None => 0,
    }
}

/// One step of the chunk walk, spelled out.
proof fn lemma_webp_walk_step(s: Seq<u8>, pos: int)
    requires
        0 <= pos,
        pos + 8 < s.len(),
    ensures
        is_vp8_chunk(s, pos) || is_vp8l_chunk(s, pos) ==> webp_bitstream_from(s, pos) == Some(pos),
        !is_vp8_chunk(s, pos) && !is_vp8l_chunk(s, pos) && pos + 8 + le32(s, pos + 4) > s.len()
            ==> webp_bitstream_from(s, pos) is None,
        !is_vp8_chunk(s, pos) && !is_vp8l_chunk(s, pos) && pos + 8 + le32(s, pos + 4) <= s.len()
            ==> webp_bitstream_from(s, pos) == webp_bitstream_from(
            s,
            pos + 8 + le32(s, pos + 4) + le32(s, pos + 4) % 2,
        ),
{
}

/// Reads the dimensions of a lossy frame header. The mask drops the two
/// scaling bits that share the upper byte of each word.
fn read_vp8_dimensions(data: &[u8], body: usize) -> (result: Result<(u32, u32), ImageError>)
    requires
        body <= data@.len(),
    ensures
        result == vp8_dimensions(data@, body as int),
{
    if data.len() - body < 10 {
        return Err(ImageError::CorruptedData);
    }
    let w: u32 = read_le16(data, body + 6) as u32;
    let h: u32 = read_le16(data, body + 8) as u32;
    assert(w & 0x3FFF == w % 0x4000) by (bit_vector);
    assert(h & 0x3FFF == h % 0x4000) by (bit_vector);
    check_dimensions(w & 0x3FFF, h & 0x3FFF)
}

/// Reads the dimensions of a lossless header. Both fields store the value
/// less one, so neither dimension can come out as zero.
fn read_vp8l_dimensions(data: &[u8], body: usize) -> (result: Result<(u32, u32), ImageError>)
    requires
        body <= data@.len(),
    ensures
        result == vp8l_dimensions(data@, body as int),
{
    if data.len() - body < 5 {
        return Err(ImageError::CorruptedData);
    }
    let bits: u32 = read_le32(data, body + 1);
    assert(bits & 0x3FFF == bits % 0x4000) by (bit_vector);
    assert((bits >> 14) & 0x3FFF == (bits / 0x4000) % 0x4000) by (bit_vector);
    assert((bits & 0x3FFF) < 0x4000 && ((bits >> 14) & 0x3FFF) < 0x4000) by (bit_vector);
    Ok(((bits & 0x3FFF) + 1, ((bits >> 14) & 0x3FFF) + 1))
}

/// Reads the pixel dimensions of a WebP image.
///
/// Chunks are walked from offset 12; the first `VP8 ` or `VP8L` chunk decides
/// the result. The buffer needs to hold no more than the fields that are
/// read: 25 bytes where the first chunk is lossless, 30 where it is lossy. A
/// chunk size that reaches past the buffer, and a buffer that ends before a
/// bitstream chunk or inside its dimension fields, give `CorruptedData`; a
/// lossy header with a zero dimension gives `InvalidDimensions`.
pub fn get_webp_dimensions(data: &[u8]) -> (result: Result<(u32, u32), ImageError>)
    ensures
        result == webp_dimensions(data@),
        result matches Ok((w, h)) ==> 0 < w <= 0x4000 && 0 < h <= 0x4000,
        !(result matches Err(ImageError::UnsupportedFormat)),
{
    let len = data.len();
    if len < WEBP_FIRST_CHUNK {
        return Err(ImageError::CorruptedData);
    }
    let mut pos: usize = WEBP_FIRST_CHUNK;
    while len - pos > 8
        invariant
            len == data@.len(),
            WEBP_FIRST_CHUNK <= pos <= len,
            webp_bitstream_from(data@, WEBP_FIRST_CHUNK as int) == webp_bitstream_from(
                data@,
                pos as int,
            ),
        decreases len - pos,
    {
        proof {
            lemma_webp_walk_step(data@, pos as int);
        }
        let body = pos + 8;
        if has_tag(data, pos, 0x56, 0x50, 0x38, 0x20) {
            return read_vp8_dimensions(data, body);
        }
        if has_tag(data, pos, 0x56, 0x50, 0x38, 0x4C) {
            return read_vp8l_dimensions(data, body);
        }
        let size = read_le32(data, pos + 4) as usize;
        if size > len - body {
            return Err(ImageError::CorruptedData);
        }
        let padding = size % 2;
        if len - body - size < padding {
            // An odd-sized chunk ends on the last byte: nothing follows it.
            return Err(ImageError::CorruptedData);
        }
        pos = body + size + padding;
    }
    Err(ImageError::CorruptedData)
}

/// The walk over the first `n` bytes of `s` takes the steps of the walk over
/// `s`: it finds the same chunk, or it runs out of bytes and finds none.
pub proof fn lemma_webp_walk_prefix(s: Seq<u8>, n: int, pos: int)
    requires
        0 <= n <= s.len(),
        0 <= pos,
    ensures
        webp_bitstream_from(s.take(n), pos) is None || webp_bitstream_from(s.take(n), pos)
            == webp_bitstream_from(s, pos),
    decreases s.len() + 1 - pos,
{
    let t = s.take(n);
    if pos + 8 < n {
        lemma_webp_walk_step(s, pos);
        lemma_webp_walk_step(t, pos);
        assert(le32(t, pos + 4) == le32(s, pos + 4));
        assert(is_vp8_chunk(t, pos) == is_vp8_chunk(s, pos));
        assert(is_vp8l_chunk(t, pos) == is_vp8l_chunk(s, pos));
        let size = le32(s, pos + 4);
        if !is_vp8_chunk(s, pos) && !is_vp8l_chunk(s, pos) && pos + 8 + size <= n {
            lemma_webp_walk_prefix(s, n, pos + 8 + size + size % 2);
        }
    }
}

/// A WebP buffer cut off before the end of the dimension fields of its
/// bitstream header is reported as corrupted.
pub proof fn lemma_webp_truncated(s: Seq<u8>, n: int)
    requires
        0 <= n <= s.len(),
        n < webp_header_end(s),
    ensures
        webp_dimensions(s.take(n)) == Err::<(u32, u32), ImageError>(ImageError::CorruptedData),
{
    lemma_webp_walk_prefix(s, n, WEBP_FIRST_CHUNK as int);
    let t = s.take(n);
    match webp_bitstream_from(s, WEBP_FIRST_CHUNK as int) {
        Some(at) => {
            if webp_bitstream_from(t, WEBP_FIRST_CHUNK as int) is Some {
                lemma_webp_found_in_bounds(t, WEBP_FIRST_CHUNK as int);
                assert(is_vp8_chunk(t, at) == is_vp8_chunk(s, at));
            }
        },
        None => {},
    }
}

/// A chunk that the walk finds lies inside the buffer with its header, and
/// carries one of the two bitstream tags.
pub proof fn lemma_webp_found_in_bounds(s: Seq<u8>, pos: int)
    requires
        0 <= pos,
        webp_bitstream_from(s, pos) is Some,
    ensures
        ({
            let at = webp_bitstream_from(s, pos)->Some_0;
            pos <= at && at + 8 < s.len() && (is_vp8_chunk(s, at) || is_vp8l_chunk(s, at))
        }),
    decreases s.len() + 1 - pos,
{
    lemma_webp_walk_step(s, pos);
    if !is_vp8_chunk(s, pos) && !is_vp8l_chunk(s, pos) {
        let size = le32(s, pos + 4);
        lemma_webp_found_in_bounds(s, pos + 8 + size + size % 2);
    }
}

} // verus!
