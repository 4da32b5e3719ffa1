//! The data model: sample buffers produced by the decoder, and classified
//! pixels consumed by the analysis passes.

use vstd::prelude::*;

verus! {

/// Element type of an IDP image.
#[derive(Copy, PartialEq, Eq, Debug, Clone, Structural)]
pub enum PixelType {
    /// Unsigned 16-bit samples.
    Short16,
    /// 32-bit floating samples, carried as their IEEE-754 encodings.
    Float32,
}

/// Result of a decoding process: a homogeneous buffer of raw samples.
pub enum DecodingResult {
    /// A vector of unsigned 16-bit samples.
    U16(Vec<u16>),
    /// A vector of 32-bit floating samples, each held as its bit pattern.
    F32(Vec<u32>),
}

/// Classification tag of a pixel.  Every tag other than `Unknown` is a
/// settled classification; `DeadBand` and `Ignored` are permanent once
/// assigned and are never overwritten by a later pass.
#[derive(Copy, PartialEq, Eq, Debug, Clone, Structural)]
pub enum BadType {
    DeadBand,
    Ignored,
    OpenBad,
    OpenBadRow,
    OpenBadCol,
    OpenBadBoth,
    ShortBad,
    Unknown,
}

/// A classified pixel.  `value` is the IEEE-754 encoding of the sample (or
/// of a derived quantity such as an absolute difference).
#[derive(Copy, PartialEq, Eq, Debug, Clone, Structural)]
pub struct Pixel {
    pub value: u32,
    pub valid: BadType,
}

/// Aggregates for one anti-diagonal (the set of pixels sharing `row + col`)
/// of the short-test image.
#[derive(Copy, PartialEq, Eq, Debug, Clone, Structural)]
pub struct ShortDiagonalStats {
    pub number_of_pixels_measured: u64,
    pub number_of_bad_shorts: u64,
}


/// Summary statistics of one file set's open/short analysis.
/// `threshold_for_shorts` holds the IEEE-754 encoding of the derived
/// short-test threshold.
#[derive(Copy, PartialEq, Eq, Debug, Clone, Structural)]
pub struct BondingStats {
    pub bad_opens: u64,
    pub number_of_bad_columns: u64,
    pub number_of_bad_rows: u64,
    pub bad_shorts: u64,
    pub threshold_for_shorts: u32,
    pub number_of_pixels_measured: u64,
    pub number_of_open_bads_in_bad_cols: usize,
    pub number_of_open_bads_in_bad_rows: usize,
    pub number_of_short_bads_not_in_bad_diagonals: usize,
    pub number_of_bad_diagonals: usize,
    pub number_of_adjacent_bad_diagonals: usize,
}

} // verus!
