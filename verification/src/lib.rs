//! Classification of "open" and "short" bump-bond defects in wafer test
//! images stored in the IDP binary format.
//!
//! Pixel sample values are IEEE-754 single-precision numbers; throughout the
//! library they are carried as their 32-bit encodings, so that every pass of
//! the classification pipeline is ordinary integer code with a full
//! specification.  The few floating-point operations whose results cannot be
//! stated in a few lines (addition, subtraction, multiplication, division)
//! are delegated to a software implementation of IEEE-754 arithmetic behind
//! trusted wrappers in `floatbits`.

pub mod decoder;
pub mod dimensions;
pub mod error;
pub mod file;
pub mod fileset;
pub mod floatbits;
pub mod imageops;
pub mod pixel;
pub mod pixelops;
pub mod sorting;
pub mod stream;
