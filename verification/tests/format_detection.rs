use report_core::ImageFormat;

#[test]
fn test_image_format_detection() {
    // PNG signature
    let png_data = [0x89, 0x50, 0x4E, 0x47, 0x0D, 0x0A, 0x1A, 0x0A];
    assert!(matches!(
        ImageFormat::from_signature(&png_data),
        Some(ImageFormat::Png)
    ));

    // JPEG signature, padded to the eight bytes that recognition needs
    let jpeg_data = [0xFF, 0xD8, 0xFF, 0xE0, 0x00, 0x10, 0x4A, 0x46];
    assert!(matches!(
        ImageFormat::from_signature(&jpeg_data),
        Some(ImageFormat::Jpeg)
    ));

    // GIF signature
    let gif_data = [0x47, 0x49, 0x46, 0x38, 0x39, 0x61, 0x00, 0x00];
    assert!(matches!(
        ImageFormat::from_signature(&gif_data),
        Some(ImageFormat::Gif)
    ));

    // WebP signature
    let webp_data = [
        0x52, 0x49, 0x46, 0x46, 0x28, 0x00, 0x00, 0x00, 0x57, 0x45, 0x42, 0x50,
    ];
    assert!(matches!(
        ImageFormat::from_signature(&webp_data),
        Some(ImageFormat::Webp)
    ));

    // BMP signature
    let bmp_data = [0x42, 0x4D, 0x36, 0x00, 0x00, 0x00, 0x00, 0x00];
    assert!(matches!(
        ImageFormat::from_signature(&bmp_data),
        Some(ImageFormat::Bmp)
    ));

    // Fewer than eight bytes
    let invalid_data = [0x00, 0x00, 0x00, 0x00];
    assert!(ImageFormat::from_signature(&invalid_data).is_none());

    // Eight bytes of no known format
    let unknown_data = [0x00, 0x00, 0x00, 0x00, 0x00, 0x00, 0x00, 0x00];
    assert!(ImageFormat::from_signature(&unknown_data).is_none());
}
