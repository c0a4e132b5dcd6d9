use report_core::{
    get_bmp_dimensions, get_gif_dimensions, get_image_dimensions, ImageError, ImageFormat,
};

fn gif(width: u16, height: u16) -> Vec<u8> {
    let mut bytes = b"GIF89a".to_vec();
    bytes.extend_from_slice(&width.to_le_bytes());
    bytes.extend_from_slice(&height.to_le_bytes());
    bytes
}

fn bmp(width: u32, height: u32) -> Vec<u8> {
    let mut bytes = b"BM".to_vec();
    bytes.extend_from_slice(&[0x36, 0, 0, 0, 0, 0, 0, 0, 0x36, 0, 0, 0, 0x28, 0, 0, 0]);
    bytes.extend_from_slice(&width.to_le_bytes());
    bytes.extend_from_slice(&height.to_le_bytes());
    bytes
}

#[test]
fn gif_header_gives_its_dimensions() {
    assert_eq!(gif(320, 200).len(), 10);
    assert_eq!(get_image_dimensions(&gif(320, 200)), Ok((320, 200)));
    assert_eq!(get_gif_dimensions(&gif(320, 200)), Ok((320, 200)));
    assert_eq!(get_image_dimensions(&gif(1, 0xFFFF)), Ok((1, 65535)));
    assert_eq!(get_image_dimensions(&gif(0x0102, 0x0304)), Ok((258, 772)));
    let mut older = b"GIF87a".to_vec();
    older.extend_from_slice(&[2, 0, 3, 0, 0, 0, 0]);
    assert_eq!(get_image_dimensions(&older), Ok((2, 3)));
}

#[test]
fn gif_zero_dimension_is_invalid() {
    assert_eq!(
        get_image_dimensions(&gif(0, 200)),
        Err(ImageError::InvalidDimensions)
    );
    assert_eq!(
        get_image_dimensions(&gif(320, 0)),
        Err(ImageError::InvalidDimensions)
    );
}

#[test]
fn gif_truncated_is_corrupted() {
    let bytes = gif(320, 200);
    for n in 8..10 {
        assert_eq!(
            get_image_dimensions(&bytes[..n]),
            Err(ImageError::CorruptedData)
        );
    }
    for n in 0..10 {
        assert_eq!(get_gif_dimensions(&bytes[..n]), Err(ImageError::CorruptedData));
    }
}

#[test]
fn bmp_header_gives_its_dimensions() {
    assert_eq!(bmp(800, 600).len(), 26);
    assert_eq!(get_image_dimensions(&bmp(800, 600)), Ok((800, 600)));
    assert_eq!(get_bmp_dimensions(&bmp(800, 600)), Ok((800, 600)));
    assert_eq!(
        get_image_dimensions(&bmp(0x0102_0304, 0x0A0B_0C0D)),
        Ok((0x0102_0304, 0x0A0B_0C0D))
    );
}

#[test]
fn bmp_negative_height_is_read_as_magnitude() {
    // a top-down bitmap of 600 rows stores -600
    let bytes = bmp(800, (-600i32) as u32);
    assert_eq!(get_image_dimensions(&bytes), Ok((800, 0xFFFF_FDA8)));
}

#[test]
fn bmp_zero_dimension_is_invalid() {
    assert_eq!(
        get_image_dimensions(&bmp(0, 600)),
        Err(ImageError::InvalidDimensions)
    );
    assert_eq!(
        get_image_dimensions(&bmp(800, 0)),
        Err(ImageError::InvalidDimensions)
    );
}

#[test]
fn bmp_truncated_is_corrupted() {
    let bytes = bmp(800, 600);
    for n in 8..26 {
        assert_eq!(
            get_image_dimensions(&bytes[..n]),
            Err(ImageError::CorruptedData)
        );
    }
    for n in 0..26 {
        assert_eq!(get_bmp_dimensions(&bytes[..n]), Err(ImageError::CorruptedData));
    }
}

#[test]
fn empty_buffer_is_corrupted() {
    assert_eq!(get_image_dimensions(&[]), Err(ImageError::CorruptedData));
}

#[test]
fn unrecognised_buffer_is_unsupported() {
    assert_eq!(get_image_dimensions(&[0]), Err(ImageError::UnsupportedFormat));
    assert_eq!(
        get_image_dimensions(&[0u8; 64]),
        Err(ImageError::UnsupportedFormat)
    );
    assert_eq!(
        get_image_dimensions(b"<svg xmlns='http://www.w3.org/2000/svg'/>"),
        Err(ImageError::UnsupportedFormat)
    );
    // a signature cut short is no signature
    assert_eq!(
        get_image_dimensions(&[0x89, 0x50, 0x4E, 0x47, 0x0D]),
        Err(ImageError::UnsupportedFormat)
    );
    assert_eq!(
        get_image_dimensions(b"GIF89a\x01"),
        Err(ImageError::UnsupportedFormat)
    );
    assert_eq!(
        get_image_dimensions(b"RIFF\0\0\0\0WEB"),
        Err(ImageError::UnsupportedFormat)
    );
}

#[test]
fn signature_needs_eight_bytes() {
    assert!(ImageFormat::from_signature(&[]).is_none());
    assert!(ImageFormat::from_signature(b"BM").is_none());
    assert!(ImageFormat::from_signature(b"BM\0\0\0\0\0").is_none());
    assert_eq!(
        ImageFormat::from_signature(b"BM\0\0\0\0\0\0"),
        Some(ImageFormat::Bmp)
    );
    assert!(ImageFormat::from_signature(&[0xFF, 0xD8, 0xFF, 0xE0, 0, 0, 0]).is_none());
    assert!(ImageFormat::from_signature(&[0x89, 0x50, 0x4E, 0x47, 0x0D, 0x0A, 0x1A]).is_none());
}

#[test]
fn signature_is_matched_in_full() {
    // each signature with its last byte changed
    assert!(ImageFormat::from_signature(&[0x89, 0x50, 0x4E, 0x47, 0x0D, 0x0A, 0x1A, 0x0B]).is_none());
    assert!(ImageFormat::from_signature(&[0xFF, 0xD8, 0xFE, 0, 0, 0, 0, 0]).is_none());
    assert!(ImageFormat::from_signature(b"GIF9....").is_none());
    assert!(ImageFormat::from_signature(b"BN......").is_none());
    assert!(ImageFormat::from_signature(b"RIFF\0\0\0\0WEBQ").is_none());
    assert!(ImageFormat::from_signature(b"RIFF\0\0\0\0WAVEfmt ").is_none());
    // a RIFF container needs twelve bytes to show its form type
    assert!(ImageFormat::from_signature(b"RIFF\0\0\0\0WEB").is_none());
    assert_eq!(
        ImageFormat::from_signature(b"RIFF\0\0\0\0WEBP"),
        Some(ImageFormat::Webp)
    );
    assert_eq!(
        ImageFormat::from_signature(b"GIF87a\0\0"),
        Some(ImageFormat::Gif)
    );
}

#[test]
fn every_error_has_its_message() {
    assert_eq!(ImageError::UnsupportedFormat.message(), "不支持的图片格式");
    assert_eq!(ImageError::CorruptedData.message(), "图片数据损坏或不完整");
    assert_eq!(ImageError::InvalidDimensions.message(), "图片尺寸无效");
}
