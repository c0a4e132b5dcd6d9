use vstd::prelude::*;

verus! {

/// The container formats that can be recognised by their leading bytes.
#[derive(Debug, Clone, Copy, PartialEq, Eq, Structural)]
pub enum ImageFormat {
    Png,
    Jpeg,
    Gif,
    Webp,
    Bmp,
}

/// Fewer bytes than this are never recognised, whatever they hold.
pub const MIN_SIGNATURE_LEN: usize = 8;

/// `s` begins with the eight bytes `89 50 4E 47 0D 0A 1A 0A`.
pub open spec fn has_png_signature(s: Seq<u8>) -> bool {
    &&& s.len() >= 8
    &&& s[0] == 0x89
    &&& s[1] == 0x50
    &&& s[2] == 0x4E
    &&& s[3] == 0x47
    &&& s[4] == 0x0D
    &&& s[5] == 0x0A
    &&& s[6] == 0x1A
    &&& s[7] == 0x0A
}

/// `s` begins with the start-of-image marker and the first byte of the next
/// marker: `FF D8 FF`.
pub open spec fn has_jpeg_signature(s: Seq<u8>) -> bool {
    &&& s.len() >= 3
    &&& s[0] == 0xFF
    &&& s[1] == 0xD8
    &&& s[2] == 0xFF
}

/// `s` begins with the ASCII letters `GIF8`.
pub open spec fn has_gif_signature(s: Seq<u8>) -> bool {
    &&& s.len() >= 4
    &&& s[0] == 0x47
    &&& s[1] == 0x49
    &&& s[2] == 0x46
    &&& s[3] == 0x38
}

/// `s` is a RIFF container of form type `WEBP`: `RIFF` in bytes 0 to 3 and
/// `WEBP` in bytes 8 to 11.
pub open spec fn has_webp_signature(s: Seq<u8>) -> bool {
    &&& s.len() >= 12
    &&& s[0] == 0x52
    &&& s[1] == 0x49
    &&& s[2] == 0x46
    &&& s[3] == 0x46
    &&& s[8] == 0x57
    &&& s[9] == 0x45
    &&& s[10] == 0x42
    &&& s[11] == 0x50
}

/// `s` begins with the ASCII letters `BM`.
pub open spec fn has_bmp_signature(s: Seq<u8>) -> bool {
    &&& s.len() >= 2
    &&& s[0] == 0x42
    &&& s[1] == 0x4D
}

/// The format that the leading bytes of `s` announce, if any. The signatures
/// are tried in the order PNG, JPEG, GIF, WebP, BMP.
pub open spec fn signature_format(s: Seq<u8>) -> Option<ImageFormat> {
    if s.len() < MIN_SIGNATURE_LEN {
        None
    } else if has_png_signature(s) {
        Some(ImageFormat::Png)
    } else if has_jpeg_signature(s) {
        Some(ImageFormat::Jpeg)
    } else if has_gif_signature(s) {
        Some(ImageFormat::Gif)
    } else if has_webp_signature(s) {
        Some(ImageFormat::Webp)
    } else if has_bmp_signature(s) {
        Some(ImageFormat::Bmp)
    } else {
        None
    }
}

impl ImageFormat {
    /// Recognises the format of `data` from its signature.
    ///
    /// A buffer of fewer than eight bytes is never recognised. Each format is
    /// reported exactly for the buffers that carry its signature, so a result
    /// is never a false positive, and `None` means that no signature matched.
    pub fn from_signature(data: &[u8]) -> (format: Option<ImageFormat>)
        ensures
            format == signature_format(data@),
            data@.len() < 8 ==> format is None,
            format == Some(ImageFormat::Png) <==> data@.len() >= 8 && has_png_signature(data@),
            format == Some(ImageFormat::Jpeg) <==> data@.len() >= 8 && has_jpeg_signature(data@),
            format == Some(ImageFormat::Gif) <==> data@.len() >= 8 && has_gif_signature(data@),
            format == Some(ImageFormat::Webp) <==> data@.len() >= 8 && has_webp_signature(data@),
            format == Some(ImageFormat::Bmp) <==> data@.len() >= 8 && has_bmp_signature(data@),
    {
        let len = data.len();
        if len < MIN_SIGNATURE_LEN {
            return None;
        }
        if data[0] == 0x89 && data[1] == 0x50 && data[2] == 0x4E && data[3] == 0x47
            && data[4] == 0x0D && data[5] == 0x0A && data[6] == 0x1A && data[7] == 0x0A {
            return Some(ImageFormat::Png);
        }
        if data[0] == 0xFF && data[1] == 0xD8 && data[2] == 0xFF {
            return Some(ImageFormat::Jpeg);
        }
        if data[0] == 0x47 && data[1] == 0x49 && data[2] == 0x46 && data[3] == 0x38 {
            return Some(ImageFormat::Gif);
        }
        if len >= 12 && data[0] == 0x52 && data[1] == 0x49 && data[2] == 0x46 && data[3] == 0x46
            && data[8] == 0x57 && data[9] == 0x45 && data[10] == 0x42 && data[11] == 0x50 {
            return Some(ImageFormat::Webp);
        }
        if data[0] == 0x42 && data[1] == 0x4D {
            return Some(ImageFormat::Bmp);
        }
        None
    }
}

} // verus!
