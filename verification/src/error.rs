use vstd::prelude::*;
use vstd::string::StringExecFns;

verus! {

/// Why the dimensions of a buffer could not be determined.
#[derive(Debug, Clone, Copy, PartialEq, Eq, Structural)]
pub enum ImageError {
    /// No known signature matched, or the marker that introduces the format
    /// is absent where a decoder needs it.
    UnsupportedFormat,
    /// A field or chunk that the format requires lies outside the buffer.
    CorruptedData,
    /// The header was read, and it declares a width or a height of zero.
    InvalidDimensions,
}

/// The text of [`ImageError::message`] for each error.
pub open spec fn image_error_text(error: ImageError) -> Seq<char> {
    match error {
        ImageError::UnsupportedFormat => "不支持的图片格式"@,
        ImageError::CorruptedData => "图片数据损坏或不完整"@,
        ImageError::InvalidDimensions => "图片尺寸无效"@,
    }
}

impl ImageError {
    /// The message that describes the error to a user.
    pub fn message(&self) -> (text: String)
        ensures
            text@ == image_error_text(*self),
    {
        match self {
            ImageError::UnsupportedFormat => String::from_str("不支持的图片格式"),
            ImageError::CorruptedData => String::from_str("图片数据损坏或不完整"),
            ImageError::InvalidDimensions => String::from_str("图片尺寸无效"),
        }
    }
}

} // verus!
