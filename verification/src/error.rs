//! The errors of the library.

use vstd::prelude::*;

verus! {

/// Why no picture could be made.
#[derive(Debug)]
pub enum AsciiError {
    /// The image could not be opened or decoded; the reason is that of the
    /// decoder, unchanged.
    DecodeFailure(String),
    /// A width or a height is zero or too large, the aspect ratio is not
    /// positive, or a pixel buffer does not have four bytes for each pixel.
    InvalidDimensions,
}

impl AsciiError {
    /// The error in words.
    pub open spec fn message_spec(&self) -> Seq<char> {
        match self {
            AsciiError::DecodeFailure(reason) => "Failed to load image: "@ + reason@,
            AsciiError::InvalidDimensions => "Invalid dimensions"@,
        }
    }

    /// The error in words.
    pub fn message(&self) -> (text: String)
        ensures
            text@ == self.message_spec(),
    {
        match self {
            AsciiError::DecodeFailure(reason) => {
                let mut text = String::from_str("Failed to load image: ");
                text.append(reason.as_str());
                text
            },
            AsciiError::InvalidDimensions => String::from_str("Invalid dimensions"),
        }
    }
}

} // verus!
