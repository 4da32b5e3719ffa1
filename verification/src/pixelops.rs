//! Conversion of raw samples to classified pixels, including the purely
//! geometric dead-band classification.

use vstd::prelude::*;
use crate::dimensions::{HEIGHT, WIDTH};
use crate::floatbits::u16_to_f32_bits_spec;
use crate::floatbits::u16_to_f32_bits;
use crate::pixel::{BadType, Pixel};

verus! {

/// Whether, in the fixed geometry, the pixel at linear index `i` lies in
/// the dead band: with `row = i / WIDTH`, `col = i % WIDTH` and
/// `complement = HEIGHT - row`, the band covers the 232 columns from
/// `complement` through `complement + 231`.
pub open spec fn is_dead_band_spec(i: int) -> bool {
    let row = i / (WIDTH as int);
    let col = i % (WIDTH as int);
    let crow = HEIGHT - row;
    crow <= col <= crow + 231
}

/// Flags pixels of the known non-functional sensor region, independent of
/// pixel value.  Defined only for the fixed geometry: any other pair of
/// dimensions gets `None`.
pub fn is_dead_band(i: usize, width: usize, height: usize) -> (r: Option<bool>)
    requires
        width == WIDTH && height == HEIGHT ==> i / width <= height,
    ensures
        r is Some <==> (width == WIDTH && height == HEIGHT),
        r matches Some(d) ==> d == is_dead_band_spec(i as int),
{
    if !(WIDTH == width && HEIGHT == height) {
        None
    } else {
        let row = i / width;
        let col = i % width;
        let crow = height - row;
        if col >= crow && col <= crow + 231 {
            Some(true)
        } else {
            Some(false)
        }
    }
}

/// The classified pixel for a 16-bit sample at linear index `i`: the
/// sample's floating encoding, tagged `DeadBand` or `Unknown` by geometry
/// alone.
pub open spec fn make_pixel_u16_spec(i: int, val: u16) -> Pixel {
    Pixel {
        value: u16_to_f32_bits_spec(val) as u32,
        valid: if is_dead_band_spec(i) {
            BadType::DeadBand
        } else {
            BadType::Unknown
        },
    }
}

/// The classified pixel for a floating sample (given as its bit pattern)
/// at linear index `i`.
pub open spec fn make_pixel_f32_spec(i: int, bits: u32) -> Pixel {
    Pixel {
        value: bits,
        valid: if is_dead_band_spec(i) {
            BadType::DeadBand
        } else {
            BadType::Unknown
        },
    }
}

/// Builds the classified pixel for a 16-bit sample, in the fixed geometry.
pub fn make_pixel_u16(i: usize, val: u16) -> (r: Pixel)
    requires
        i / WIDTH <= HEIGHT,
    ensures
        r == make_pixel_u16_spec(i as int, val),
{
    let dead = match is_dead_band(i, WIDTH, HEIGHT) {
        Some(d) => d,
        None => false,
    };
    if dead {
        Pixel { value: u16_to_f32_bits(val), valid: BadType::DeadBand }
    } else {
        Pixel { value: u16_to_f32_bits(val), valid: BadType::Unknown }
    }
}

/// Builds the classified pixel for a floating sample, in the fixed
/// geometry.
pub fn make_pixel_f32(i: usize, bits: u32) -> (r: Pixel)
    requires
        i / WIDTH <= HEIGHT,
    ensures
        r == make_pixel_f32_spec(i as int, bits),
{
    let dead = match is_dead_band(i, WIDTH, HEIGHT) {
        Some(d) => d,
        None => false,
    };
    if dead {
        Pixel { value: bits, valid: BadType::DeadBand }
    } else {
        Pixel { value: bits, valid: BadType::Unknown }
    }
}

} // verus!
