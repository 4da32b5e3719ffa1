//! Error kinds shared by the stream, the decoder and the classification
//! pipeline.

use vstd::prelude::*;

verus! {

/// Failure of a primitive read on an in-memory byte source.  The only way a
/// read on such a source can fail is by running out of bytes; keeping this a
/// kind of its own makes a truncated stream distinguishable from a bad
/// header tag.
#[derive(Debug, Clone, Copy, PartialEq, Eq, Structural)]
pub enum StreamError {
    /// Fewer bytes were available than the primitive requires.
    Truncated,
}

/// An error while decoding or analysing an image.
#[derive(Debug)]
pub enum ImageError {
    /// The image is not formatted properly: a bad header tag pair, or a
    /// premature end of the stream while reading a declared-size payload.
    FormatError(String),
    /// An I/O failure unrelated to content, reported by an unverified
    /// caller that performs the actual file reads.
    IoError(String),
    /// Two images that must share a shape do not.
    ShapeMismatch,
}

impl ImageError {
    /// A short description of the error kind.
    pub fn description(&self) -> (r: &'static str)
        ensures
            self is FormatError ==> r@ == "Format error"@,
            self is IoError ==> r@ == "IO error"@,
            self is ShapeMismatch ==> r@ == "Shape mismatch"@,
    {
        match self {
            ImageError::FormatError(_) => "Format error",
            ImageError::IoError(_) => "IO error",
            ImageError::ShapeMismatch => "Shape mismatch",
        }
    }
}

pub type ImageResult<T> = Result<T, ImageError>;

} // verus!
