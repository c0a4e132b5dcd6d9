//! The verified core of a report generator.
//!
//! Its larger part inspects image headers: it recognises PNG, JPEG, GIF, WebP
//! and BMP byte buffers by their signature and reads the pixel dimensions from
//! the header structures alone, without decoding any pixel data. Every decoder
//! accepts an arbitrary, possibly truncated or hostile buffer and answers with
//! a pair of positive dimensions or an [`ImageError`]; none reads outside the
//! buffer. From the dimensions [`calculate_proportional_size`] derives the size
//! at which an image is laid out.
//!
//! The rest are the rules of a report request that need no document: see
//! [`report`] and [`filename`].

pub mod bmp;
pub mod bytes;
pub mod dimensions;
pub mod error;
pub mod filename;
pub mod format;
pub mod gif;
pub mod guarantees;
pub mod jpeg;
pub mod png;
pub mod report;
pub mod sizing;
pub mod std_text;
pub mod webp;

pub use bmp::get_bmp_dimensions;
pub use dimensions::get_image_dimensions;
pub use error::ImageError;
pub use filename::sanitize_filename;
pub use format::ImageFormat;
pub use gif::get_gif_dimensions;
pub use jpeg::get_jpeg_dimensions;
pub use png::{find_png_ihdr, get_png_dimensions};
pub use report::{
    check_report_request, image_layout_size, is_blank_str, layout_size_of, report_file_name,
    report_title, RequestError, IMAGE_WIDTH_EMU,
};
pub use sizing::calculate_proportional_size;
pub use webp::get_webp_dimensions;
