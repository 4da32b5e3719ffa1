//! IEEE-754 single-precision values represented by their 32-bit encodings.
//!
//! Everything whose result a few lines can state is written here as
//! verified integer code: the sign/magnitude decomposition, the ordering
//! test, absolute value, and the (exact) conversion of a 16-bit sample to
//! its floating encoding.  Rounded arithmetic (add, sub, mul, div) is
//! delegated to the `rustc_apfloat` software implementation of IEEE-754
//! behind trusted wrappers; each result is named by an uninterpreted spec
//! function, since it is a function of the operand bit patterns alone.

use vstd::prelude::*;
use vstd::arithmetic::power2::*;

use rustc_apfloat::Float;
use rustc_apfloat::ieee::Single;

verus! {

/// Bit pattern of the value `999.0`, the sentinel stored in pixels whose
/// classification makes their measured value meaningless.
pub const DEAD_BAND_VALUE_BITS: u32 = 0x4479_C000;

/// Bit pattern of the value `2.0`, the divisor used when two middle values
/// of a sorted collection are averaged.
pub const F32_TWO_BITS: u32 = 0x4000_0000;

/// Magnitude of an encoding: the low 31 bits, i.e. the encoding with the
/// sign cleared.
pub open spec fn f32_mag(x: u32) -> int {
    (x as int) % 0x8000_0000
}

/// Whether the sign bit of the encoding is set.
pub open spec fn f32_is_neg(x: u32) -> bool {
    x >= 0x8000_0000
}

/// Whether the encoding denotes a NaN (exponent all ones, payload nonzero).
pub open spec fn f32_is_nan_bits(x: u32) -> bool {
    f32_mag(x) > 0x7F80_0000
}

/// Whether the encoding denotes a finite value (exponent not all ones).
pub open spec fn f32_is_finite_bits(x: u32) -> bool {
    f32_mag(x) < 0x7F80_0000
}

/// Order key of an encoding: non-NaN encodings compare, as floating values,
/// exactly as their keys compare as integers.  The two zero encodings share
/// the key `0`.
pub open spec fn f32_key(x: u32) -> int {
    if f32_is_neg(x) {
        -f32_mag(x)
    } else {
        f32_mag(x)
    }
}

/// The IEEE-754 `<` relation on encodings: false whenever either operand is
/// a NaN, and the key order otherwise.
pub open spec fn f32_lt_spec(a: u32, b: u32) -> bool {
    &&& !f32_is_nan_bits(a)
    &&& !f32_is_nan_bits(b)
    &&& f32_key(a) < f32_key(b)
}

/// The total order the median pass sorts by: the key order, with equal keys
/// (the two zero encodings) broken by the raw bit patterns.  On encodings
/// of distinct non-NaN values it agrees with the IEEE-754 `<=` relation.
pub open spec fn f32_total_le(a: u32, b: u32) -> bool {
    f32_key(a) < f32_key(b) || (f32_key(a) == f32_key(b) && a <= b)
}

/// The `f32_total_le` order as a relation value, for vstd's sorting
/// vocabulary.
pub open spec fn f32_le_order() -> spec_fn(u32, u32) -> bool {
    |a: u32, b: u32| f32_total_le(a, b)
}

/// `f32_total_le` is a total ordering in the sense of vstd's relations.
pub proof fn lemma_f32_le_total_ordering()
    ensures
        vstd::relations::total_ordering(f32_le_order()),
{
    let r = f32_le_order();
    assert forall|x: u32, y: u32| #[trigger] r(x, y) && #[trigger] r(y, x) implies x == y by {
        if f32_key(x) == f32_key(y) {
            assert(x <= y && y <= x);
        }
    }
    assert forall|x: u32, y: u32, z: u32| #[trigger] r(x, y) && #[trigger] r(y, z) implies r(
        x,
        z,
    ) by {}
    assert forall|x: u32, y: u32| !(#[trigger] r(x, y)) implies r(y, x) by {}
}

/// Whether `a < b` as IEEE-754 single-precision values.
pub fn f32_lt_bits(a: u32, b: u32) -> (r: bool)
    ensures
        r == f32_lt_spec(a, b),
{
    let mag_a: u32 = a % 0x8000_0000;
    let mag_b: u32 = b % 0x8000_0000;
    if mag_a > 0x7F80_0000 || mag_b > 0x7F80_0000 {
        return false;
    }
    let neg_a = a >= 0x8000_0000;
    let neg_b = b >= 0x8000_0000;
    if neg_a && neg_b {
        mag_b < mag_a
    } else if neg_a {
        // a <= -0.0 and b >= +0.0: strictly less unless both are zeros.
        !(mag_a == 0 && mag_b == 0)
    } else if neg_b {
        false
    } else {
        mag_a < mag_b
    }
}

/// Whether `a` comes no later than `b` in the total sorting order.
pub fn f32_total_le_bits(a: u32, b: u32) -> (r: bool)
    ensures
        r == f32_total_le(a, b),
{
    let mag_a: u32 = a % 0x8000_0000;
    let mag_b: u32 = b % 0x8000_0000;
    let neg_a = a >= 0x8000_0000;
    let neg_b = b >= 0x8000_0000;
    if neg_a && neg_b {
        if mag_a == mag_b {
            a <= b
        } else {
            mag_b < mag_a
        }
    } else if neg_a && !neg_b {
        !(mag_a == 0 && mag_b == 0) || a <= b
    } else if !neg_a && neg_b {
        mag_a == 0 && mag_b == 0 && a <= b
    } else {
        mag_a < mag_b || (mag_a == mag_b && a <= b)
    }
}

/// The absolute value of an encoding: the encoding with the sign cleared.
/// This is exactly what `abs` does on IEEE-754 values, NaNs included.
pub fn f32_abs_bits(x: u32) -> (r: u32)
    ensures
        r == f32_mag(x),
{
    x % 0x8000_0000
}

/// The position of the highest set bit of `v` (zero for `v < 2`).
pub open spec fn floor_log2(v: nat) -> nat
    decreases v,
{
    if v < 2 {
        0
    } else {
        1 + floor_log2(v / 2)
    }
}

proof fn lemma_floor_log2_range(v: nat, k: nat)
    requires
        pow2(k) <= v < pow2(k + 1),
    ensures
        floor_log2(v) == k,
    decreases k,
{
    lemma_pow2_pos(k);
    if k == 0 {
        lemma2_to64();
    } else {
        lemma_pow2_adds(1, (k - 1) as nat);
        lemma_pow2_adds(1, k);
        lemma2_to64();
        lemma_floor_log2_range(v / 2, (k - 1) as nat);
    }
}

/// The IEEE-754 single-precision encoding of the 16-bit sample `v`.  Every
/// 16-bit value is exactly representable, so no rounding is involved: for a
/// nonzero `v` with highest set bit `k`, the biased exponent is `127 + k`
/// and the mantissa field holds the remaining bits of `v`, left-aligned.
pub open spec fn u16_to_f32_bits_spec(v: u16) -> int {
    if v == 0 {
        0
    } else {
        let k = floor_log2(v as nat);
        (127 + k) * 0x80_0000 + (v - pow2(k)) * pow2((23 - k) as nat)
    }
}

/// Converts a 16-bit sample to its floating encoding.
pub fn u16_to_f32_bits(v: u16) -> (r: u32)
    ensures
        r == u16_to_f32_bits_spec(v),
{
    if v == 0 {
        return 0;
    }
    let vw: u32 = v as u32;
    let mut k: u32 = 0;
    let mut p: u32 = 1;
    let mut q: u32 = 0x80_0000;
    proof {
        lemma2_to64();
    }
    while 2 * p <= vw
        invariant
            1 <= vw < 0x1_0000,
            p == pow2(k as nat),
            q == pow2((23 - k) as nat),
            k <= 15,
            p <= vw,
        decreases vw - p,
    {
        proof {
            lemma_pow2_adds(1, k as nat);
            lemma_pow2_adds(1, (22 - k) as nat);
            lemma2_to64();
            if k + 1 > 15 {
                lemma_pow2_adds((k + 1 - 16) as nat, 16);
                lemma_pow2_pos((k + 1 - 16) as nat);
                assert(pow2((k + 1) as nat) >= pow2(16)) by (nonlinear_arith)
                    requires
                        pow2((k + 1) as nat) == pow2((k + 1 - 16) as nat) * pow2(16),
                        pow2((k + 1 - 16) as nat) >= 1,
                        pow2(16) > 0,
                ;
            }
        }
        p = 2 * p;
        q = q / 2;
        k = k + 1;
    }
    proof {
        lemma_floor_log2_range(vw as nat, k as nat);
        assert((vw - p) * q < p * q) by (nonlinear_arith)
            requires
                vw - p < p,
                q > 0,
        ;
        assert(p * q == 0x80_0000) by {
            lemma_pow2_adds(k as nat, (23 - k) as nat);
        }
    }
    (127 + k) * 0x80_0000 + (vw - p) * q
}

/// The encoding of the IEEE-754 single-precision sum of `a` and `b`,
/// rounded to nearest even.
pub uninterp spec fn f32_add(a: u32, b: u32) -> u32;

/// The encoding of the IEEE-754 single-precision difference `a - b`,
/// rounded to nearest even.
pub uninterp spec fn f32_sub(a: u32, b: u32) -> u32;

/// The encoding of the IEEE-754 single-precision product of `a` and `b`,
/// rounded to nearest even.
pub uninterp spec fn f32_mul(a: u32, b: u32) -> u32;

/// The encoding of the IEEE-754 single-precision quotient `a / b`, rounded
/// to nearest even.
pub uninterp spec fn f32_div(a: u32, b: u32) -> u32;

/// Relies on `rustc_apfloat::ieee::Single`'s `Add`: IEEE-754 single
/// addition, rounded to nearest even, a function of the operand encodings
/// alone.
#[verifier::external_body]
pub fn f32_add_bits(a: u32, b: u32) -> (r: u32)
    ensures
        r == f32_add(a, b),
{
    let x = Single::from_bits(a as u128);
    let y = Single::from_bits(b as u128);
    (x + y).value.to_bits() as u32
}

/// Relies on `rustc_apfloat::ieee::Single`'s `Sub`: IEEE-754 single
/// subtraction, rounded to nearest even, a function of the operand
/// encodings alone.  Subtracting a finite value from itself gives exactly
/// positive zero under this rounding.
#[verifier::external_body]
pub fn f32_sub_bits(a: u32, b: u32) -> (r: u32)
    ensures
        r == f32_sub(a, b),
        a == b && f32_is_finite_bits(a) ==> r == 0u32,
{
    let x = Single::from_bits(a as u128);
    let y = Single::from_bits(b as u128);
    (x - y).value.to_bits() as u32
}

/// Relies on `rustc_apfloat::ieee::Single`'s `Mul`: IEEE-754 single
/// multiplication, rounded to nearest even, a function of the operand
/// encodings alone.
#[verifier::external_body]
pub fn f32_mul_bits(a: u32, b: u32) -> (r: u32)
    ensures
        r == f32_mul(a, b),
{
    let x = Single::from_bits(a as u128);
    let y = Single::from_bits(b as u128);
    (x * y).value.to_bits() as u32
}

/// Relies on `rustc_apfloat::ieee::Single`'s `Div`: IEEE-754 single
/// division, rounded to nearest even, a function of the operand encodings
/// alone (division by zero gives an infinity or NaN, never a failure).
#[verifier::external_body]
pub fn f32_div_bits(a: u32, b: u32) -> (r: u32)
    ensures
        r == f32_div(a, b),
{
    let x = Single::from_bits(a as u128);
    let y = Single::from_bits(b as u128);
    (x / y).value.to_bits() as u32
}

} // verus!
