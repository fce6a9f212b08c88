//! The ways in which computing an average colour can fail.

use vstd::prelude::*;

verus! {

/// Which stage of the computation failed, without the underlying cause.
#[derive(Debug, Clone, Copy, PartialEq, Eq, Structural)]
pub enum ErrorKind {
    /// The bytes could not be decoded as an image.
    Image,
    /// The text is not valid base64.
    Base64,
    /// The image decoded to a grid without pixels.
    EmptyImage,
}

/// Error of the average-colour computation. The first failing stage
/// decides the variant; a decoder's own error is carried unchanged.
#[derive(Debug)]
pub enum Error {
    /// The bytes could not be decoded as an image.
    Image(image::ImageError),
    /// The bytes are a lossless JPEG of a sample precision that is not
    /// decoded.
    UnsupportedJpeg,
    /// The text is not valid base64.
    Base64(base64::DecodeError),
    /// The image has no pixels, so it has no average colour.
    EmptyImage,
}

impl View for Error {
    type V = ErrorKind;

    open spec fn view(&self) -> ErrorKind {
        match self {
            Error::Image(_) => ErrorKind::Image,
            Error::UnsupportedJpeg => ErrorKind::Image,
            Error::Base64(_) => ErrorKind::Base64,
            Error::EmptyImage => ErrorKind::EmptyImage,
        }
    }
}

impl Error {
    /// The stage that failed.
    pub fn kind(&self) -> (kind: ErrorKind)
        ensures
            kind == self@,
    {
        match self {
            Error::Image(_) => ErrorKind::Image,
            Error::UnsupportedJpeg => ErrorKind::Image,
            Error::Base64(_) => ErrorKind::Base64,
            Error::EmptyImage => ErrorKind::EmptyImage,
        }
    }
}

} // verus!
