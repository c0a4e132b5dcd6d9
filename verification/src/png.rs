//! PNG: the chunks after the signature are walked until the `IHDR` chunk is
//! found.

use crate::bytes::{be32, has_tag, read_be32, tag_at};
use crate::dimensions::{check_dimensions, checked_dimensions};
use crate::error::ImageError;
use vstd::prelude::*;

verus! {

/// A PNG buffer shorter than this is refused before any chunk is read: the
/// signature, one chunk header, a width and a height.
pub const PNG_MIN_LEN: usize = 24;

/// Offset of the first chunk, after the eight signature bytes.
pub const PNG_FIRST_CHUNK: usize = 8;

/// Bytes from the start of the `IHDR` chunk to the end of the height field:
/// the chunk length, the tag, the width and the height.
pub const PNG_IHDR_LEN: usize = 16;

/// Bytes of a chunk besides its payload: length, tag and checksum.
pub const PNG_CHUNK_OVERHEAD: usize = 12;

/// The chunk that starts at `at` carries the tag `IHDR`.
pub open spec fn is_ihdr_chunk(s: Seq<u8>, at: int) -> bool {
    tag_at(s, at + 4, 0x49, 0x48, 0x44, 0x52)
}

/// Offset of the first `IHDR` chunk reached by walking the chunks from `pos`.
///
/// A chunk is examined only if its length, its tag and at least one byte more
/// lie inside `s`. Any other chunk is skipped by its big-endian 32-bit payload
/// length and the twelve bytes of length, tag and checksum. The walk gives up
/// when a chunk so measured reaches past the end of `s`.
pub open spec fn png_ihdr_from(s: Seq<u8>, pos: int) -> Option<int>
    decreases s.len() - pos,
{
    if pos < 0 || pos + 8 >= s.len() {
        None
    } else if is_ihdr_chunk(s, pos) {
        Some(pos)
    } else if pos + PNG_CHUNK_OVERHEAD + be32(s, pos) <= s.len() {
        png_ihdr_from(s, pos + PNG_CHUNK_OVERHEAD + be32(s, pos))
    } else {
        None
    }
}

/// Offset of the `IHDR` chunk of `s`, looked for from the end of the
/// signature on.
pub open spec fn png_ihdr_offset(s: Seq<u8>) -> Option<int> {
    png_ihdr_from(s, PNG_FIRST_CHUNK as int)
}

/// The dimensions in the `IHDR` chunk that starts at `at`: the width in bytes
/// 8 to 11 of the chunk, the height in bytes 12 to 15, both big-endian.
pub open spec fn png_ihdr_dimensions(s: Seq<u8>, at: int) -> Result<(u32, u32), ImageError> {
    if at + PNG_IHDR_LEN > s.len() {
        Err(ImageError::CorruptedData)
    } else {
        checked_dimensions(be32(s, at + 8), be32(s, at + 12))
    }
}

/// What [`get_png_dimensions`] returns for the bytes `s`.
pub open spec fn png_dimensions(s: Seq<u8>) -> Result<(u32, u32), ImageError> {
    if s.len() < PNG_MIN_LEN {
        Err(ImageError::CorruptedData)
    } else {
        match png_ihdr_offset(s) {
            None => Err(ImageError::CorruptedData),
            Some(at) => png_ihdr_dimensions(s, at),
        }
    }
}

/// Number of leading bytes of `s` that hold everything up to the end of the
/// height field; 0 where the walk finds no `IHDR` chunk.
pub open spec fn png_header_end(s: Seq<u8>) -> int {
    match png_ihdr_offset(s) {
        Some(at) => at + PNG_IHDR_LEN,
        None => 0,
    }
}

/// One step of the chunk walk, spelled out.
proof fn lemma_png_walk_step(s: Seq<u8>, pos: int)
    requires
        0 <= pos,
        pos + 8 < s.len(),
    ensures
        is_ihdr_chunk(s, pos) ==> png_ihdr_from(s, pos) == Some(pos),
        !is_ihdr_chunk(s, pos) && pos + PNG_CHUNK_OVERHEAD + be32(s, pos) > s.len()
            ==> png_ihdr_from(s, pos) is None,
        !is_ihdr_chunk(s, pos) && pos + PNG_CHUNK_OVERHEAD + be32(s, pos) <= s.len()
            ==> png_ihdr_from(s, pos) == png_ihdr_from(s, pos + PNG_CHUNK_OVERHEAD + be32(s, pos)),
{
}

/// Finds the `IHDR` chunk of a PNG buffer.
///
/// Returns the offset of the chunk's length field. The chunk's tag lies
/// inside the buffer then, and so does at least one byte after it; the
/// width and height fields may still lie outside.
pub fn find_png_ihdr(data: &[u8]) -> (found: Option<usize>)
    ensures
        found matches Some(at) ==> png_ihdr_offset(data@) == Some(at as int),
        found is None ==> png_ihdr_offset(data@) is None,
        found matches Some(at) ==> PNG_FIRST_CHUNK <= at && at + 8 < data@.len() && is_ihdr_chunk(
            data@,
            at as int,
        ),
{
    let len = data.len();
    if len < PNG_FIRST_CHUNK {
        return None;
    }
    let mut pos: usize = PNG_FIRST_CHUNK;
    while len - pos > 8
        invariant
            len == data@.len(),
            PNG_FIRST_CHUNK <= pos <= len,
            png_ihdr_offset(data@) == png_ihdr_from(data@, pos as int),
        decreases len - pos,
    {
        proof {
            lemma_png_walk_step(data@, pos as int);
        }
        if has_tag(data, pos + 4, 0x49, 0x48, 0x44, 0x52) {
            return Some(pos);
        }
        let chunk_len = read_be32(data, pos) as usize;
        let rest = len - pos;
        if rest < PNG_CHUNK_OVERHEAD || chunk_len > rest - PNG_CHUNK_OVERHEAD {
            return None;
        }
        pos = pos + PNG_CHUNK_OVERHEAD + chunk_len;
    }
    None
}

/// Reads the pixel dimensions of a PNG image.
///
/// The buffer must hold at least 24 bytes. The `IHDR` chunk is looked for
/// from offset 8. A chunk length that reaches past the buffer, a buffer
/// without an `IHDR` chunk, and one that ends before the height field all
/// give `CorruptedData`; a zero width or height gives `InvalidDimensions`.
pub fn get_png_dimensions(data: &[u8]) -> (result: Result<(u32, u32), ImageError>)
    ensures
        result == png_dimensions(data@),
        result matches Ok((w, h)) ==> w > 0 && h > 0,
        !(result matches Err(ImageError::UnsupportedFormat)),
{
    if data.len() < PNG_MIN_LEN {
        return Err(ImageError::CorruptedData);
    }
    match find_png_ihdr(data) {
        Some(at) => {
            if data.len() - at < PNG_IHDR_LEN {
                return Err(ImageError::CorruptedData);
            }
            let width = read_be32(data, at + 8);
            let height = read_be32(data, at + 12);
            check_dimensions(width, height)
        },
        None => Err(ImageError::CorruptedData),
    }
}

/// The walk over the first `n` bytes of `s` takes the steps of the walk over
/// `s`: it finds the same chunk, or it runs out of bytes and finds none.
pub proof fn lemma_png_walk_prefix(s: Seq<u8>, n: int, pos: int)
    requires
        0 <= n <= s.len(),
        0 <= pos,
    ensures
        png_ihdr_from(s.take(n), pos) is None || png_ihdr_from(s.take(n), pos) == png_ihdr_from(
            s,
            pos,
        ),
    decreases s.len() - pos,
{
    let t = s.take(n);
    if pos + 8 < n {
        lemma_png_walk_step(s, pos);
        lemma_png_walk_step(t, pos);
        assert(be32(t, pos) == be32(s, pos));
        assert(is_ihdr_chunk(t, pos) == is_ihdr_chunk(s, pos));
        let next = pos + PNG_CHUNK_OVERHEAD + be32(s, pos);
        if !is_ihdr_chunk(s, pos) && next <= n {
            lemma_png_walk_prefix(s, n, next);
        }
    }
}

/// A PNG buffer cut off before the end of the height field of its `IHDR`
/// chunk is reported as corrupted.
pub proof fn lemma_png_truncated(s: Seq<u8>, n: int)
    requires
        0 <= n <= s.len(),
        n < png_header_end(s),
    ensures
        png_dimensions(s.take(n)) == Err::<(u32, u32), ImageError>(ImageError::CorruptedData),
{
    lemma_png_walk_prefix(s, n, PNG_FIRST_CHUNK as int);
}

/// A PNG buffer in which no chunk tag `IHDR` occurs is reported as corrupted.
pub proof fn lemma_png_without_ihdr(s: Seq<u8>, pos: int)
    requires
        0 <= pos,
        forall|i: int| 0 <= i ==> !tag_at(s, i, 0x49, 0x48, 0x44, 0x52),
    ensures
        png_ihdr_from(s, pos) is None,
    decreases s.len() - pos,
{
    if pos + 8 < s.len() {
        lemma_png_walk_step(s, pos);
        assert(!tag_at(s, pos + 4, 0x49, 0x48, 0x44, 0x52));
        let next = pos + PNG_CHUNK_OVERHEAD + be32(s, pos);
        if next <= s.len() {
            lemma_png_without_ihdr(s, next);
        }
    }
}

} // verus!
