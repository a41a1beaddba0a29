//! The bit-pattern view of 64-bit IEEE-754 values.
//!
//! A goal value or a vector gene is carried as the `u64` bit pattern of a
//! double-precision float. This module classifies such patterns and orders
//! them. For patterns that encode a number (everything but NaN), the natural
//! order of the encoded values coincides with the order of an integer key
//! computed from the pattern alone: the magnitude bits, negated when the sign
//! bit is set. Both zeros get key 0, so they compare equal, as the encoded
//! values do.

use vstd::prelude::*;

verus! {

/// Mask of the eleven exponent bits.
pub const EXP_MASK: u64 = 0x7FF0_0000_0000_0000;

/// Mask of the fifty-two fraction bits.
pub const FRAC_MASK: u64 = 0x000F_FFFF_FFFF_FFFF;

/// Mask of the sign bit.
pub const SIGN_MASK: u64 = 0x8000_0000_0000_0000;

/// Mask of everything but the sign bit: the magnitude of the pattern.
pub const MAG_MASK: u64 = 0x7FFF_FFFF_FFFF_FFFF;

/// Whether the pattern encodes a finite value: the exponent field is not all
/// ones (all ones encodes an infinity or a NaN).
pub open spec fn is_finite_bits(b: u64) -> bool {
    b & EXP_MASK != EXP_MASK
}

/// Whether the pattern encodes a NaN: exponent field all ones and a non-zero
/// fraction field.
pub open spec fn is_nan_bits(b: u64) -> bool {
    b & EXP_MASK == EXP_MASK && b & FRAC_MASK != 0
}

/// The sign bit of the pattern.
pub open spec fn sign_bit(b: u64) -> bool {
    b & SIGN_MASK == SIGN_MASK
}

/// An integer key that orders the patterns of numbers (finite values and
/// infinities) exactly as the encoded values are ordered; both zeros map to
/// key 0.
pub open spec fn key_bits(b: u64) -> int {
    if sign_bit(b) {
        -((b & MAG_MASK) as int)
    } else {
        (b & MAG_MASK) as int
    }
}

/// The minimization order on goal values. A pattern is strictly better than
/// another when it is finite and the other is not, or when both are finite
/// and it encodes the smaller value. All non-finite scores (NaN and the
/// infinities) lose against every finite score and tie with each other.
pub open spec fn fit_lt(a: u64, b: u64) -> bool {
    ||| (is_finite_bits(a) && !is_finite_bits(b))
    ||| (is_finite_bits(a) && is_finite_bits(b) && key_bits(a) < key_bits(b))
}

/// Equivalence of goal values under the minimization order.
pub open spec fn fit_eq(a: u64, b: u64) -> bool {
    ||| (!is_finite_bits(a) && !is_finite_bits(b))
    ||| (is_finite_bits(a) && is_finite_bits(b) && key_bits(a) == key_bits(b))
}

/// Better or equivalent, in the minimization order.
pub open spec fn fit_le(a: u64, b: u64) -> bool {
    fit_lt(a, b) || fit_eq(a, b)
}

/// The minimization order is total: of two goal values, one is better than or
/// equivalent to the other.
pub proof fn lemma_fit_total(a: u64, b: u64)
    ensures
        fit_le(a, b) || fit_le(b, a),
{
}

/// The minimization order is transitive.
pub proof fn lemma_fit_le_trans(a: u64, b: u64, c: u64)
    requires
        fit_le(a, b),
        fit_le(b, c),
    ensures
        fit_le(a, c),
{
}

/// Whether the pattern encodes a finite value.
pub fn bits_finite(b: u64) -> (r: bool)
    ensures
        r == is_finite_bits(b),
{
    b & EXP_MASK != EXP_MASK
}

/// Whether the pattern encodes a NaN.
pub fn bits_nan(b: u64) -> (r: bool)
    ensures
        r == is_nan_bits(b),
{
    b & EXP_MASK == EXP_MASK && b & FRAC_MASK != 0
}

/// Compare two goal values. Every non-finite score (NaN or an infinity)
/// compares greater than every finite score, so that a non-finite score never
/// wins a minimization and is always eligible as the tracked worst; two
/// non-finite scores compare equal. Finite scores compare as the encoded
/// values do.
pub fn compare_floats(x: u64, y: u64) -> (r: core::cmp::Ordering)
    ensures
        r == core::cmp::Ordering::Less <==> fit_lt(x, y),
        r == core::cmp::Ordering::Equal <==> fit_eq(x, y),
        r == core::cmp::Ordering::Greater <==> fit_lt(y, x),
{
    let xf = bits_finite(x);
    let yf = bits_finite(y);
    if !xf && !yf {
        core::cmp::Ordering::Equal
    } else if xf && !yf {
        core::cmp::Ordering::Less
    } else if !xf && yf {
        core::cmp::Ordering::Greater
    } else {
        let xm = x & MAG_MASK;
        let ym = y & MAG_MASK;
        let xneg = x & SIGN_MASK == SIGN_MASK;
        let yneg = y & SIGN_MASK == SIGN_MASK;
        if xneg && yneg {
            if xm > ym {
                core::cmp::Ordering::Less
            } else if xm < ym {
                core::cmp::Ordering::Greater
            } else {
                core::cmp::Ordering::Equal
            }
        } else if !xneg && !yneg {
            if xm < ym {
                core::cmp::Ordering::Less
            } else if xm > ym {
                core::cmp::Ordering::Greater
            } else {
                core::cmp::Ordering::Equal
            }
        } else if xneg {
            if xm == 0 && ym == 0 {
                core::cmp::Ordering::Equal
            } else {
                core::cmp::Ordering::Less
            }
        } else {
            if xm == 0 && ym == 0 {
                core::cmp::Ordering::Equal
            } else {
                core::cmp::Ordering::Greater
            }
        }
    }
}

/// Whether `a` is a strictly better goal value than `b` for minimization.
pub fn fit_better(a: u64, b: u64) -> (r: bool)
    ensures
        r == fit_lt(a, b),
{
    matches!(compare_floats(a, b), core::cmp::Ordering::Less)
}

/// The `<=` order of the encoded values, as the hardware comparison defines
/// it: false whenever either side is a NaN, and the key order otherwise.
pub open spec fn ieee_le(a: u64, b: u64) -> bool {
    !is_nan_bits(a) && !is_nan_bits(b) && key_bits(a) <= key_bits(b)
}

/// Whether the value encoded by `a` is less than or equal to the value
/// encoded by `b`; false whenever either is a NaN.
pub fn le_ieee(a: u64, b: u64) -> (r: bool)
    ensures
        r == ieee_le(a, b),
{
    if bits_nan(a) || bits_nan(b) {
        return false;
    }
    let am = a & MAG_MASK;
    let bm = b & MAG_MASK;
    let aneg = a & SIGN_MASK == SIGN_MASK;
    let bneg = b & SIGN_MASK == SIGN_MASK;
    if aneg && bneg {
        am >= bm
    } else if !aneg && !bneg {
        am <= bm
    } else if aneg {
        true
    } else {
        am == 0 && bm == 0
    }
}

/// The magnitude of `m` carrying the sign of `s`: the pattern that encodes
/// `|m|` when `s` is non-negative and `-|m|` when `s` is negative.
pub fn with_sign_of(m: u64, s: u64) -> (r: u64)
    ensures
        r == (m & MAG_MASK) | (s & SIGN_MASK),
        r & MAG_MASK == m & MAG_MASK,
        sign_bit(r) == sign_bit(s),
{
    let r = (m & MAG_MASK) | (s & SIGN_MASK);
    proof {
        assert(((m & 0x7FFF_FFFF_FFFF_FFFFu64) | (s & 0x8000_0000_0000_0000u64))
            & 0x7FFF_FFFF_FFFF_FFFFu64 == m & 0x7FFF_FFFF_FFFF_FFFFu64) by (bit_vector);
        assert((((m & 0x7FFF_FFFF_FFFF_FFFFu64) | (s & 0x8000_0000_0000_0000u64))
            & 0x8000_0000_0000_0000u64 == 0x8000_0000_0000_0000u64) == (s
            & 0x8000_0000_0000_0000u64 == 0x8000_0000_0000_0000u64)) by (bit_vector);
    }
    r
}

/// The pattern with the sign bit cleared: the magnitude of the encoded value.
pub fn abs_bits(b: u64) -> (r: u64)
    ensures
        r == b & MAG_MASK,
        !sign_bit(r),
        r & MAG_MASK == b & MAG_MASK,
{
    let r = b & MAG_MASK;
    proof {
        assert((b & 0x7FFF_FFFF_FFFF_FFFFu64) & 0x8000_0000_0000_0000u64 != 0x8000_0000_0000_0000u64)
            by (bit_vector);
        assert((b & 0x7FFF_FFFF_FFFF_FFFFu64) & 0x7FFF_FFFF_FFFF_FFFFu64 == b
            & 0x7FFF_FFFF_FFFF_FFFFu64) by (bit_vector);
    }
    r
}

} // verus!
