use report_core::{get_image_dimensions, get_jpeg_dimensions, ImageError};

/// A segment: marker, length (which counts itself) and payload.
fn segment(code: u8, payload: &[u8]) -> Vec<u8> {
    let mut bytes = vec![0xFF, code];
    bytes.extend_from_slice(&((payload.len() + 2) as u16).to_be_bytes());
    bytes.extend_from_slice(payload);
    bytes
}

/// Payload of a frame header: precision, height, width, one component.
fn frame_payload(width: u16, height: u16) -> Vec<u8> {
    let mut bytes = vec![8];
    bytes.extend_from_slice(&height.to_be_bytes());
    bytes.extend_from_slice(&width.to_be_bytes());
    bytes.extend_from_slice(&[1, 1, 0x11, 0]);
    bytes
}

fn jpeg(segments: &[Vec<u8>]) -> Vec<u8> {
    let mut bytes = vec![0xFF, 0xD8];
    for s in segments {
        bytes.extend_from_slice(s);
    }
    bytes
}

#[test]
fn jpeg_minimal_header_gives_its_dimensions() {
    // start of image, then the frame header up to its width field: 11 bytes
    let bytes = [0xFF, 0xD8, 0xFF, 0xC0, 0x00, 0x11, 0x08, 0x01, 0xE0, 0x02, 0x80];
    assert_eq!(get_image_dimensions(&bytes), Ok((640, 480)));
    assert_eq!(get_jpeg_dimensions(&bytes), Ok((640, 480)));
}

#[test]
fn jpeg_every_frame_marker_is_recognised() {
    for code in 0xC0..=0xCFu8 {
        let bytes = jpeg(&[segment(code, &frame_payload(7, 9))]);
        let result = get_image_dimensions(&bytes);
        if code == 0xC4 || code == 0xC8 || code == 0xCC {
            // no frame header: the segment is skipped and nothing follows
            assert_eq!(result, Err(ImageError::CorruptedData), "code {:X}", code);
        } else {
            assert_eq!(result, Ok((7, 9)), "code {:X}", code);
        }
    }
}

#[test]
fn jpeg_frame_after_other_segments() {
    let bytes = jpeg(&[
        segment(0xE0, b"JFIF\0\x01\x01\0\0\x01\0\x01\0\0"),
        segment(0xDB, &[0u8; 65]),
        segment(0xC4, &[0u8; 30]),
        segment(0xC2, &frame_payload(1920, 1080)),
    ]);
    assert_eq!(get_image_dimensions(&bytes), Ok((1920, 1080)));
}

#[test]
fn jpeg_zero_dimension_is_invalid() {
    for (w, h) in [(0u16, 5u16), (5, 0), (0, 0)] {
        let bytes = jpeg(&[segment(0xC0, &frame_payload(w, h))]);
        assert_eq!(
            get_image_dimensions(&bytes),
            Err(ImageError::InvalidDimensions)
        );
    }
}

#[test]
fn jpeg_truncated_is_corrupted() {
    let bytes = jpeg(&[
        segment(0xE0, &[0u8; 14]),
        segment(0xC0, &frame_payload(640, 480)),
    ]);
    // the width field ends 9 bytes after the frame marker at offset 20
    assert_eq!(get_image_dimensions(&bytes[..29]), Ok((640, 480)));
    for n in 8..29 {
        assert_eq!(
            get_image_dimensions(&bytes[..n]),
            Err(ImageError::CorruptedData),
            "{} bytes",
            n
        );
    }
}

#[test]
fn jpeg_cut_inside_the_width_field_is_corrupted() {
    let bytes = [0xFF, 0xD8, 0xFF, 0xC0, 0x00, 0x11, 0x08, 0x01, 0xE0, 0x02, 0x80];
    // ten bytes hold the height and half of the width
    assert_eq!(get_image_dimensions(&bytes[..10]), Err(ImageError::CorruptedData));
    assert_eq!(get_jpeg_dimensions(&bytes[..10]), Err(ImageError::CorruptedData));
    assert_eq!(get_jpeg_dimensions(&bytes[..9]), Err(ImageError::CorruptedData));
}

#[test]
fn jpeg_with_only_other_markers_is_corrupted() {
    let mut bytes = jpeg(&[
        segment(0xE0, &[0u8; 14]),
        segment(0xDB, &[0u8; 65]),
        segment(0xC4, &[0u8; 28]),
        segment(0xDA, &[0u8; 10]),
    ]);
    assert_eq!(get_image_dimensions(&bytes), Err(ImageError::CorruptedData));
    // and so is every cut of it that keeps the signature
    while bytes.len() > 8 {
        bytes.pop();
        assert_eq!(get_image_dimensions(&bytes), Err(ImageError::CorruptedData));
    }
}

#[test]
fn jpeg_segment_length_below_two_is_corrupted() {
    for declared in [0u16, 1] {
        let mut bytes = vec![0xFF, 0xD8, 0xFF, 0xE0];
        bytes.extend_from_slice(&declared.to_be_bytes());
        bytes.extend(segment(0xC0, &frame_payload(10, 10)));
        assert_eq!(get_image_dimensions(&bytes), Err(ImageError::CorruptedData));
    }
}

#[test]
fn jpeg_segment_length_past_the_buffer_is_corrupted() {
    let mut bytes = vec![0xFF, 0xD8, 0xFF, 0xE0, 0xFF, 0xFF];
    bytes.extend_from_slice(&[0u8; 40]);
    assert_eq!(get_image_dimensions(&bytes), Err(ImageError::CorruptedData));
    // a length that ends exactly with the buffer leaves no marker to read
    let bytes = jpeg(&[segment(0xE0, &[0u8; 14])]);
    assert_eq!(get_image_dimensions(&bytes), Err(ImageError::CorruptedData));
}

#[test]
fn jpeg_missing_marker_byte_is_corrupted() {
    let mut bytes = jpeg(&[segment(0xE0, &[0u8; 14])]);
    bytes.extend_from_slice(&[0x00, 0xC0, 0x00, 0x11, 0x08, 0x00, 0x10, 0x00, 0x10]);
    assert_eq!(get_image_dimensions(&bytes), Err(ImageError::CorruptedData));
}

#[test]
fn jpeg_decoder_refuses_other_data() {
    assert_eq!(get_jpeg_dimensions(&[]), Err(ImageError::UnsupportedFormat));
    assert_eq!(
        get_jpeg_dimensions(&[0xFF, 0xD8, 0xFF]),
        Err(ImageError::UnsupportedFormat)
    );
    assert_eq!(
        get_jpeg_dimensions(&[0x89, 0x50, 0x4E, 0x47, 0x0D, 0x0A, 0x1A, 0x0A]),
        Err(ImageError::UnsupportedFormat)
    );
    assert_eq!(
        get_jpeg_dimensions(&[0xFF, 0xD9, 0xFF, 0xC0, 0, 0, 0, 0, 0, 0, 0]),
        Err(ImageError::UnsupportedFormat)
    );
    // four bytes with the start marker are walked, and found wanting
    assert_eq!(
        get_jpeg_dimensions(&[0xFF, 0xD8, 0xFF, 0xC0]),
        Err(ImageError::CorruptedData)
    );
}
