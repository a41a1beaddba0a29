//! Exact arithmetic on decoded bit patterns.
//!
//! A finite 64-bit float bit pattern encodes the rational value
//! `sign * mantissa * 2^(E - 1074)`, with the mantissa below `2^53` and the
//! scaled exponent `E` between 0 and 2045. All values in this module are
//! handled at the fixed scale `2^1074`, which turns them into integers: the
//! comparisons below are therefore exact, with no rounding anywhere. They
//! back the stagnation stop condition and the mutation probability draw.

use vstd::prelude::*;
use vstd::arithmetic::power2::{
    lemma2_to64, lemma2_to64_rest, lemma_pow2_adds, lemma_pow2_pos, lemma_pow2_strictly_increases,
    pow2,
};
use vstd::arithmetic::div_mod::lemma_fundamental_div_mod;
use crate::bits::{
    bits_finite, bits_nan, is_finite_bits, is_nan_bits, sign_bit, EXP_MASK, FRAC_MASK, SIGN_MASK,
};

verus! {

/// The hidden bit that tops up the fraction field of a normal value.
pub const HIDDEN_BIT: u64 = 0x0010_0000_0000_0000;

/// The eleven-bit exponent field of the pattern.
pub open spec fn exp_field(b: u64) -> u64 {
    (b & EXP_MASK) >> 52u64
}

/// The integer mantissa of a finite pattern: the fraction field, topped up
/// with the hidden bit when the value is normal.
pub open spec fn mant_bits(b: u64) -> u64 {
    if exp_field(b) == 0 {
        b & FRAC_MASK
    } else {
        (b & FRAC_MASK) | HIDDEN_BIT
    }
}

/// The scaled exponent of a finite pattern: the encoded value times `2^1074`
/// equals `mant_bits(b) * 2^scale_exp(b)`, up to sign.
pub open spec fn scale_exp(b: u64) -> u64 {
    if exp_field(b) == 0 {
        0
    } else {
        (exp_field(b) - 1) as u64
    }
}

/// The magnitude of the encoded value of a finite pattern, times `2^1074`.
pub open spec fn mag2(b: u64) -> int {
    mant_bits(b) * pow2(scale_exp(b) as nat)
}

/// The encoded value of a finite pattern, times `2^1074`.
pub open spec fn val2(b: u64) -> int {
    if sign_bit(b) {
        -mag2(b)
    } else {
        mag2(b)
    }
}

/// The value of a decoded pair: mantissa times two to the scaled exponent.
pub open spec fn pv(m: u128, e: nat) -> int {
    m * pow2(e)
}

/// Decode a finite pattern into its integer mantissa and scaled exponent.
pub fn decode(b: u64) -> (r: (u64, u32))
    requires
        is_finite_bits(b),
    ensures
        r.0 == mant_bits(b),
        r.1 == scale_exp(b),
        r.0 < 0x20_0000_0000_0000,
        r.1 <= 2045,
        mag2(b) == pv(r.0 as u128, r.1 as nat),
{
    let exp = (b & EXP_MASK) >> 52u64;
    proof {
        assert((b & 0x7FF0_0000_0000_0000u64) >> 52u64 <= 2047u64) by (bit_vector);
        assert(b & 0x7FF0_0000_0000_0000u64 != 0x7FF0_0000_0000_0000u64 ==> (b
            & 0x7FF0_0000_0000_0000u64) >> 52u64 != 2047u64) by (bit_vector);
        assert(b & 0x000F_FFFF_FFFF_FFFFu64 < 0x0010_0000_0000_0000u64) by (bit_vector);
        assert((b & 0x000F_FFFF_FFFF_FFFFu64) | 0x0010_0000_0000_0000u64 < 0x20_0000_0000_0000u64)
            by (bit_vector);
    }
    if exp == 0 {
        (b & FRAC_MASK, 0)
    } else {
        ((b & FRAC_MASK) | HIDDEN_BIT, (exp - 1) as u32)
    }
}

/// Two to the power `e`, as a 128-bit value.
pub fn pow2_u128(e: u32) -> (r: u128)
    requires
        e < 128,
    ensures
        r == pow2(e as nat),
{
    proof {
        lemma2_to64();
    }
    let mut r: u128 = 1;
    let mut i: u32 = 0;
    while i < e
        invariant
            i <= e < 128,
            r == pow2(i as nat),
        decreases e - i,
    {
        proof {
            lemma_pow2_adds(i as nat, 1);
            lemma_pow2_strictly_increases(i as nat + 1, 128);
            lemma_pow2_adds(64, 64);
            assert(pow2(1) == 2 && pow2(64) == 0x1_0000_0000_0000_0000) by {
                lemma2_to64();
            }
        }
        r = r * 2;
        i = i + 1;
    }
    r
}

/// Multiplying both sides of a comparison by a positive factor keeps it.
proof fn lemma_mul_cmp(x: int, y: int, p: int)
    requires
        p > 0,
    ensures
        x * p < y * p <==> x < y,
        y * p < x * p <==> y < x,
        x * p == y * p <==> x == y,
{
    assert(x < y ==> x * p < y * p) by (nonlinear_arith)
        requires
            p > 0,
    ;
    assert(y < x ==> y * p < x * p) by (nonlinear_arith)
        requires
            p > 0,
    ;
}

/// Compare `m1 * 2^g` against `m2`, exactly, for a positive `m1`.
fn cmp_shifted(m1: u128, g: u32, m2: u128) -> (r: core::cmp::Ordering)
    requires
        m1 >= 1,
    ensures
        r == core::cmp::Ordering::Less <==> m1 * pow2(g as nat) < m2,
        r == core::cmp::Ordering::Equal <==> m1 * pow2(g as nat) == m2,
        r == core::cmp::Ordering::Greater <==> m1 * pow2(g as nat) > m2,
{
    proof {
        lemma_pow2_pos(g as nat);
    }
    if g >= 128 {
        proof {
            lemma_pow2_adds(64, 64);
            lemma2_to64();
            if g > 128 {
                lemma_pow2_strictly_increases(128, g as nat);
            }
            assert(m1 * pow2(g as nat) >= 1 * pow2(g as nat)) by (nonlinear_arith)
                requires
                    m1 >= 1,
            ;
        }
        core::cmp::Ordering::Greater
    } else {
        let p = pow2_u128(g);
        if m1 > u128::MAX / p {
            proof {
                lemma_fundamental_div_mod(u128::MAX as int, p as int);
                assert(m1 * p as int >= (u128::MAX / p + 1) * p as int) by (nonlinear_arith)
                    requires
                        m1 >= u128::MAX / p + 1,
                        p > 0,
                ;
                assert((u128::MAX / p + 1) * p as int == (u128::MAX / p) * p as int + p) by (
                nonlinear_arith);
            }
            core::cmp::Ordering::Greater
        } else {
            proof {
                lemma_fundamental_div_mod(u128::MAX as int, p as int);
                assert(m1 * p as int <= (u128::MAX / p) * p as int) by (nonlinear_arith)
                    requires
                        m1 <= u128::MAX / p,
                        p > 0,
                ;
            }
            let s = m1 * p;
            if s < m2 {
                core::cmp::Ordering::Less
            } else if s == m2 {
                core::cmp::Ordering::Equal
            } else {
                core::cmp::Ordering::Greater
            }
        }
    }
}

/// Compare two decoded values `m1 * 2^e1` and `m2 * 2^e2`, exactly.
pub fn cmp_scaled(m1: u128, e1: u32, m2: u128, e2: u32) -> (r: core::cmp::Ordering)
    requires
        e1 <= 16384,
        e2 <= 16384,
    ensures
        r == core::cmp::Ordering::Less <==> pv(m1, e1 as nat) < pv(m2, e2 as nat),
        r == core::cmp::Ordering::Equal <==> pv(m1, e1 as nat) == pv(m2, e2 as nat),
        r == core::cmp::Ordering::Greater <==> pv(m1, e1 as nat) > pv(m2, e2 as nat),
{
    proof {
        lemma_pow2_pos(e1 as nat);
        lemma_pow2_pos(e2 as nat);
    }
    if m1 == 0 && m2 == 0 {
        proof {
            assert(0 * pow2(e1 as nat) == 0 && 0 * pow2(e2 as nat) == 0);
        }
        core::cmp::Ordering::Equal
    } else if m1 == 0 {
        proof {
            assert(m2 * pow2(e2 as nat) >= 1 * pow2(e2 as nat)) by (nonlinear_arith)
                requires
                    m2 >= 1,
            ;
        }
        core::cmp::Ordering::Less
    } else if m2 == 0 {
        proof {
            assert(m1 * pow2(e1 as nat) >= 1 * pow2(e1 as nat)) by (nonlinear_arith)
                requires
                    m1 >= 1,
            ;
        }
        core::cmp::Ordering::Greater
    } else if e1 >= e2 {
        let g = e1 - e2;
        let r = cmp_shifted(m1, g, m2);
        proof {
            lemma_pow2_adds(g as nat, e2 as nat);
            assert(m1 * (pow2(g as nat) * pow2(e2 as nat)) == (m1 * pow2(g as nat)) * pow2(
                e2 as nat,
            )) by (nonlinear_arith);
            lemma_mul_cmp(m1 * pow2(g as nat) as int, m2 as int, pow2(e2 as nat) as int);
        }
        r
    } else {
        let g = e2 - e1;
        let r = cmp_shifted(m2, g, m1);
        proof {
            lemma_pow2_adds(g as nat, e1 as nat);
            assert(m2 * (pow2(g as nat) * pow2(e1 as nat)) == (m2 * pow2(g as nat)) * pow2(
                e1 as nat,
            )) by (nonlinear_arith);
            lemma_mul_cmp(m2 * pow2(g as nat) as int, m1 as int, pow2(e1 as nat) as int);
        }
        match r {
            core::cmp::Ordering::Less => core::cmp::Ordering::Greater,
            core::cmp::Ordering::Equal => core::cmp::Ordering::Equal,
            core::cmp::Ordering::Greater => core::cmp::Ordering::Less,
        }
    }
}

/// The difference of two decoded values that lie within a factor of two of
/// each other: close values have close scaled exponents, so the difference
/// fits a single 128-bit mantissa.
fn sub_close(ma: u64, ea: u32, ms: u64, es: u32) -> (r: (u128, u32))
    requires
        ma < 0x20_0000_0000_0000,
        ms < 0x20_0000_0000_0000,
        ea <= 8192,
        es <= 8192,
        pv(ms as u128, es as nat) < pv(ma as u128, ea as nat),
        pv(ma as u128, ea as nat) <= 2 * pv(ms as u128, es as nat),
    ensures
        pv(r.0, r.1 as nat) == pv(ma as u128, ea as nat) - pv(ms as u128, es as nat),
        r.1 <= 8192,
{
    proof {
        // The hypotheses force a positive smaller value.
        assert(pv(ms as u128, es as nat) > 0);
        if ms == 0 {
            assert(0 * pow2(es as nat) == 0);
        }
    }
    if ea >= es {
        let g = ea - es;
        proof {
            lemma_pow2_adds(g as nat, es as nat);
            assert(ma * (pow2(g as nat) * pow2(es as nat)) == (ma * pow2(g as nat)) * pow2(
                es as nat,
            )) by (nonlinear_arith);
            lemma_pow2_pos(es as nat);
            lemma_mul_cmp(ma * pow2(g as nat) as int, 2 * ms as int, pow2(es as nat) as int);
            assert(2 * ((ms as int) * pow2(es as nat)) == (2 * ms as int) * pow2(es as nat)) by (
            nonlinear_arith);
            // From `value(a) <= 2 * value(s)`: the shifted mantissa is small.
            assert(ma * pow2(g as nat) <= 2 * ms as int);
            lemma2_to64_val();
            if ma == 0 {
                assert(0 * pow2(ea as nat) == 0);
                assert(false);
            }
            if g >= 54 {
                if g > 54 {
                    lemma_pow2_strictly_increases(54, g as nat);
                }
                assert(ma * pow2(g as nat) >= 1 * pow2(g as nat)) by (nonlinear_arith)
                    requires
                        ma >= 1,
                ;
                assert(false);
            }
            // Hence the shift is small and the product below cannot overflow.
            assert(g <= 53);
            if (g as nat) < 54 {
                lemma_pow2_strictly_increases(g as nat, 54);
            }
            assert(ma * pow2(g as nat) <= 0x20_0000_0000_0000 * 0x40_0000_0000_0000) by (nonlinear_arith)
                requires
                    ma < 0x20_0000_0000_0000,
                    pow2(g as nat) <= 0x40_0000_0000_0000,
            ;
            lemma_mul_cmp(ma * pow2(g as nat) as int, ms as int, pow2(es as nat) as int);
        }
        let p = pow2_u128(g);
        let shifted = (ma as u128) * p;
        let dm = shifted - (ms as u128);
        proof {
            assert((ma * pow2(g as nat) - ms) * pow2(es as nat) == ma * pow2(g as nat) * pow2(
                es as nat,
            ) - ms * pow2(es as nat)) by (nonlinear_arith);
        }
        (dm, es)
    } else {
        let g = es - ea;
        proof {
            lemma_pow2_adds(g as nat, ea as nat);
            assert(ms * (pow2(g as nat) * pow2(ea as nat)) == (ms * pow2(g as nat)) * pow2(
                ea as nat,
            )) by (nonlinear_arith);
            lemma_pow2_pos(ea as nat);
            lemma_mul_cmp(ms * pow2(g as nat) as int, ma as int, pow2(ea as nat) as int);
            // From `value(s) < value(a)`: the shifted mantissa stays below `ma`.
            assert(ms * pow2(g as nat) < ma as int);
            assert(ms >= 1);
            assert(ms * pow2(g as nat) >= 1 * pow2(g as nat)) by (nonlinear_arith)
                requires
                    ms >= 1,
            ;
            if g >= 53 {
                lemma2_to64_val();
                if g > 53 {
                    lemma_pow2_strictly_increases(53, g as nat);
                }
                assert(false);
            }
        }
        let p = pow2_u128(g);
        let dm = (ma as u128) - (ms as u128) * p;
        proof {
            assert((ma - ms * pow2(g as nat)) * pow2(ea as nat) == ma * pow2(ea as nat) - ms * pow2(
                g as nat,
            ) * pow2(ea as nat)) by (nonlinear_arith);
        }
        (dm, ea)
    }
}

/// Values of powers of two used in the bound reasoning above.
proof fn lemma2_to64_val()
    ensures
        pow2(52) == 0x10_0000_0000_0000,
        pow2(53) == 0x20_0000_0000_0000,
        pow2(54) == 0x40_0000_0000_0000,
        0x20_0000_0000_0000 * pow2(54) < u128::MAX,
{
    lemma2_to64();
    lemma2_to64_rest();
    lemma_pow2_adds(53, 54);
}

/// Whether `a` exceeds the sum of `b` and `d`, for non-negative decoded
/// values: `a > b + d`, exactly.
fn gt_diff(ma: u64, ea: u32, mb: u64, eb: u32, md: u64, ed: u32) -> (r: bool)
    requires
        ma < 0x20_0000_0000_0000,
        mb < 0x20_0000_0000_0000,
        md < 0x20_0000_0000_0000,
        ea <= 8191,
        eb <= 8191,
        ed <= 8191,
    ensures
        r == (pv(ma as u128, ea as nat) > pv(mb as u128, eb as nat) + pv(md as u128, ed as nat)),
{
    proof {
        lemma_pv_nonneg(ma as u128, ea as nat);
        lemma_pv_nonneg(mb as u128, eb as nat);
        lemma_pv_nonneg(md as u128, ed as nat);
    }
    let c = cmp_scaled(mb as u128, eb, md as u128, ed);
    let (ms, es, mt, et) = if matches!(c, core::cmp::Ordering::Less) {
        (md, ed, mb, eb)
    } else {
        (mb, eb, md, ed)
    };
    let c1 = cmp_scaled(ma as u128, ea, ms as u128, es);
    if !matches!(c1, core::cmp::Ordering::Greater) {
        return false;
    }
    proof {
        lemma_pow2_adds(es as nat, 1);
        lemma2_to64();
        assert(ms * (pow2(es as nat) * 2) == 2 * (ms * pow2(es as nat))) by (nonlinear_arith);
    }
    let c2 = cmp_scaled(ma as u128, ea, ms as u128, es + 1);
    if matches!(c2, core::cmp::Ordering::Greater) {
        return true;
    }
    let (dm, de) = sub_close(ma, ea, ms, es);
    let c3 = cmp_scaled(dm, de, mt as u128, et);
    matches!(c3, core::cmp::Ordering::Greater)
}

/// Whether the sum of `x` and `y` exceeds `d`, for non-negative decoded
/// values: `x + y > d`, exactly.
fn gt_sum(mx: u64, ex: u32, my: u64, ey: u32, md: u64, ed: u32) -> (r: bool)
    requires
        mx < 0x20_0000_0000_0000,
        my < 0x20_0000_0000_0000,
        md < 0x20_0000_0000_0000,
        ex <= 8191,
        ey <= 8191,
        ed <= 8191,
    ensures
        r == (pv(mx as u128, ex as nat) + pv(my as u128, ey as nat) > pv(md as u128, ed as nat)),
{
    proof {
        lemma_pv_nonneg(mx as u128, ex as nat);
        lemma_pv_nonneg(my as u128, ey as nat);
        lemma_pv_nonneg(md as u128, ed as nat);
        lemma_pow2_pos(ex as nat);
        lemma_pow2_pos(ey as nat);
    }
    let c = cmp_scaled(mx as u128, ex, my as u128, ey);
    let (ms, es, mt, et) = if matches!(c, core::cmp::Ordering::Less) {
        (my, ey, mx, ex)
    } else {
        (mx, ex, my, ey)
    };
    let c1 = cmp_scaled(md as u128, ed, ms as u128, es);
    if matches!(c1, core::cmp::Ordering::Less) {
        return true;
    }
    if matches!(c1, core::cmp::Ordering::Equal) {
        proof {
            if mt >= 1 {
                assert(mt * pow2(et as nat) >= 1 * pow2(et as nat)) by (nonlinear_arith)
                    requires
                        mt >= 1,
                ;
                lemma_pow2_pos(et as nat);
            } else {
                assert(0 * pow2(et as nat) == 0);
            }
        }
        return mt != 0;
    }
    proof {
        lemma_pow2_adds(es as nat, 1);
        lemma2_to64();
        assert(ms * (pow2(es as nat) * 2) == 2 * (ms * pow2(es as nat))) by (nonlinear_arith);
    }
    let c2 = cmp_scaled(md as u128, ed, ms as u128, es + 1);
    if matches!(c2, core::cmp::Ordering::Greater) {
        return false;
    }
    let (dm, de) = sub_close(md, ed, ms, es);
    let c3 = cmp_scaled(mt as u128, et, dm, de);
    matches!(c3, core::cmp::Ordering::Greater)
}

/// A decoded value is non-negative.
proof fn lemma_pv_nonneg(m: u128, e: nat)
    ensures
        pv(m, e) >= 0,
{
    lemma_pow2_pos(e);
    assert(m * pow2(e) >= 0) by (nonlinear_arith);
}

/// What `abs_diff_exceeds` decides: whether the magnitude of the exact
/// difference of two finite encoded values exceeds a third encoded value.
/// Against a NaN threshold nothing exceeds; against an infinite threshold the
/// answer is its sign, since every finite difference lies below positive
/// infinity and above negative infinity.
pub open spec fn abs_diff_exceeds_spec(a: u64, b: u64, d: u64) -> bool {
    if is_nan_bits(d) {
        false
    } else if !is_finite_bits(d) {
        sign_bit(d)
    } else if val2(a) >= val2(b) {
        val2(a) - val2(b) > val2(d)
    } else {
        val2(b) - val2(a) > val2(d)
    }
}

/// Whether the two finite values `a` and `b` differ by more than `d`:
/// `|a - b| > d` in exact rational arithmetic, with no rounding.
pub fn abs_diff_exceeds(a: u64, b: u64, d: u64) -> (r: bool)
    requires
        is_finite_bits(a),
        is_finite_bits(b),
    ensures
        r == abs_diff_exceeds_spec(a, b, d),
{
    if !bits_finite(d) {
        if bits_nan(d) {
            return false;
        }
        return d & SIGN_MASK == SIGN_MASK;
    }
    let (ma, ea) = decode(a);
    let (mb, eb) = decode(b);
    let (md, ed) = decode(d);
    let aneg = a & SIGN_MASK == SIGN_MASK && ma != 0;
    let bneg = b & SIGN_MASK == SIGN_MASK && mb != 0;
    proof {
        lemma_pv_nonneg(ma as u128, ea as nat);
        lemma_pv_nonneg(mb as u128, eb as nat);
        lemma_pv_nonneg(md as u128, ed as nat);
        lemma_pow2_pos(ea as nat);
        lemma_pow2_pos(eb as nat);
        if ma == 0 {
            assert(0 * pow2(ea as nat) == 0);
        } else {
            assert(ma * pow2(ea as nat) >= 1 * pow2(ea as nat)) by (nonlinear_arith)
                requires
                    ma >= 1,
            ;
        }
        if mb == 0 {
            assert(0 * pow2(eb as nat) == 0);
        } else {
            assert(mb * pow2(eb as nat) >= 1 * pow2(eb as nat)) by (nonlinear_arith)
                requires
                    mb >= 1,
            ;
        }
        if md == 0 {
            assert(0 * pow2(ed as nat) == 0);
        }
    }
    if d & SIGN_MASK == SIGN_MASK && md != 0 {
        // A negative threshold: any magnitude exceeds it.
        proof {
            assert(md * pow2(ed as nat) >= 1 * pow2(ed as nat)) by (nonlinear_arith)
                requires
                    md >= 1,
            ;
            lemma_pow2_pos(ed as nat);
        }
        return true;
    }
    // The threshold value is now non-negative: compare |a - b| against it.
    if aneg == bneg {
        // Same sign: the magnitude of the difference is the difference of the
        // magnitudes, whichever way around it is non-negative.
        let c = cmp_scaled(ma as u128, ea, mb as u128, eb);
        if matches!(c, core::cmp::Ordering::Less) {
            gt_diff(mb, eb, ma, ea, md, ed)
        } else {
            gt_diff(ma, ea, mb, eb, md, ed)
        }
    } else {
        // Opposite signs: the magnitudes add up.
        gt_sum(ma, ea, mb, eb, md, ed)
    }
}

/// What a mutation draw decides: whether a uniform draw `u = 100 * r / 2^64`
/// from `[0, 100)` falls below the encoded probability `p`, exactly. A NaN or
/// non-positive probability admits no draw; a probability of positive
/// infinity admits every draw.
pub open spec fn draw_hits_spec(r: u64, p: u64) -> bool {
    if is_nan_bits(p) {
        false
    } else if !is_finite_bits(p) {
        !sign_bit(p)
    } else if sign_bit(p) {
        false
    } else {
        100 * (r as int) * pow2(1010) < val2(p)
    }
}

/// Whether the uniform draw `r` falls below the percentage `p`: the event
/// `100 * r / 2^64 < p`, decided exactly.
pub fn draw_hits(r: u64, p: u64) -> (hit: bool)
    ensures
        hit == draw_hits_spec(r, p),
{
    if !bits_finite(p) {
        if bits_nan(p) {
            return false;
        }
        return p & SIGN_MASK != SIGN_MASK;
    }
    if p & SIGN_MASK == SIGN_MASK {
        return false;
    }
    let (mp, ep) = decode(p);
    let c = cmp_scaled(100 * (r as u128), 1010, mp as u128, ep);
    proof {
        assert(100 * (r as int) * pow2(1010) == (100 * (r as u128)) as int * pow2(1010)) by (
        nonlinear_arith);
    }
    matches!(c, core::cmp::Ordering::Less)
}


/// The ordering the library compares by really is the ordering of the encoded
/// values: for finite patterns, the integer key of the bit pattern and the
/// exact scaled value rise and fall together.
pub proof fn lemma_key_orders_values(a: u64, b: u64)
    requires
        is_finite_bits(a),
        is_finite_bits(b),
    ensures
        crate::bits::key_bits(a) <= crate::bits::key_bits(b) <==> val2(a) <= val2(b),
{
    let ma = a & 0x7FFF_FFFF_FFFF_FFFF;
    let mb = b & 0x7FFF_FFFF_FFFF_FFFF;
    if ma < mb {
        lemma_mag_orders_magnitudes(a, b);
    }
    if mb < ma {
        lemma_mag_orders_magnitudes(b, a);
    }
    if ma == mb {
        // Equal magnitude bits decode to the same magnitude.
        assert((a & 0x7FF0_0000_0000_0000u64) == (b & 0x7FF0_0000_0000_0000u64) && (a
            & 0x000F_FFFF_FFFF_FFFFu64) == (b & 0x000F_FFFF_FFFF_FFFFu64)) by (bit_vector)
            requires
                a & 0x7FFF_FFFF_FFFF_FFFFu64 == b & 0x7FFF_FFFF_FFFF_FFFFu64,
        ;
        assert(mag2(a) == mag2(b));
    }
    lemma_mag2_nonneg(a);
    lemma_mag2_nonneg(b);
    assert(a & 0x7FFF_FFFF_FFFF_FFFFu64 == 0 ==> (a & 0x7FF0_0000_0000_0000u64 == 0 && a
        & 0x000F_FFFF_FFFF_FFFFu64 == 0)) by (bit_vector);
    assert(b & 0x7FFF_FFFF_FFFF_FFFFu64 == 0 ==> (b & 0x7FF0_0000_0000_0000u64 == 0 && b
        & 0x000F_FFFF_FFFF_FFFFu64 == 0)) by (bit_vector);
    assert(a & 0x7FF0_0000_0000_0000u64 == 0 ==> (a & 0x7FF0_0000_0000_0000u64) >> 52u64 == 0)
        by (bit_vector);
    assert(b & 0x7FF0_0000_0000_0000u64 == 0 ==> (b & 0x7FF0_0000_0000_0000u64) >> 52u64 == 0)
        by (bit_vector);
    if mag2(a) == 0 {
        assert(0 * pow2(scale_exp(a) as nat) == 0);
    }
}


/// For finite patterns, the hardware-style order the stop thresholds use is
/// the order of the exact values.
pub proof fn lemma_ieee_le_is_value_order(a: u64, b: u64)
    requires
        is_finite_bits(a),
        is_finite_bits(b),
    ensures
        crate::bits::ieee_le(a, b) <==> val2(a) <= val2(b),
{
    assert(!is_nan_bits(a) && !is_nan_bits(b));
    lemma_key_orders_values(a, b);
}

/// For finite patterns, the minimization order the engines track by is the
/// strict order of the exact values.
pub proof fn lemma_fit_lt_is_value_order(a: u64, b: u64)
    requires
        is_finite_bits(a),
        is_finite_bits(b),
    ensures
        crate::bits::fit_lt(a, b) <==> val2(a) < val2(b),
{
    lemma_key_orders_values(a, b);
    lemma_key_orders_values(b, a);
}

/// A zero magnitude field means a zero value and the other way round.
proof fn lemma_mag2_nonneg(x: u64)
    requires
        is_finite_bits(x),
    ensures
        mag2(x) >= 0,
        mag2(x) == 0 <==> x & 0x7FFF_FFFF_FFFF_FFFF == 0,
{
    lemma_pow2_pos(scale_exp(x) as nat);
    assert((x & 0x7FFF_FFFF_FFFF_FFFFu64 == 0) == ((x & 0x7FF0_0000_0000_0000u64) >> 52u64 == 0
        && x & 0x000F_FFFF_FFFF_FFFFu64 == 0)) by (bit_vector);
    if mant_bits(x) == 0 {
        assert(exp_field(x) == 0) by {
            assert((x & 0x000F_FFFF_FFFF_FFFFu64) | 0x0010_0000_0000_0000u64 != 0) by (bit_vector);
        }
        assert(0 * pow2(scale_exp(x) as nat) == 0);
    } else {
        assert(mant_bits(x) * pow2(scale_exp(x) as nat) >= 1 * pow2(scale_exp(x) as nat)) by (
        nonlinear_arith)
            requires
                mant_bits(x) >= 1,
        ;
        if exp_field(x) == 0 {
            assert(x & 0x000F_FFFF_FFFF_FFFFu64 != 0);
        } else {
            assert((x & 0x7FF0_0000_0000_0000u64) >> 52u64 != 0);
        }
    }
}

/// The magnitude bits of two finite patterns compare exactly as the
/// magnitudes of the encoded values do.
proof fn lemma_mag_orders_magnitudes(x: u64, y: u64)
    requires
        is_finite_bits(x),
        is_finite_bits(y),
        (x & 0x7FFF_FFFF_FFFF_FFFF) < (y & 0x7FFF_FFFF_FFFF_FFFF),
    ensures
        mag2(x) < mag2(y),
{
    let ex = exp_field(x);
    let ey = exp_field(y);
    let fx = x & 0x000F_FFFF_FFFF_FFFF;
    let fy = y & 0x000F_FFFF_FFFF_FFFF;
    lemma2_to64_val();
    assert(ex <= ey && (ex == ey ==> fx < fy)) by (bit_vector)
        requires
            (x & 0x7FFF_FFFF_FFFF_FFFFu64) < (y & 0x7FFF_FFFF_FFFF_FFFFu64),
            ex == (x & 0x7FF0_0000_0000_0000u64) >> 52u64,
            ey == (y & 0x7FF0_0000_0000_0000u64) >> 52u64,
            fx == x & 0x000F_FFFF_FFFF_FFFFu64,
            fy == y & 0x000F_FFFF_FFFF_FFFFu64,
    ;
    assert(fx < 0x10_0000_0000_0000 && fy < 0x10_0000_0000_0000) by (bit_vector)
        requires
            fx == x & 0x000F_FFFF_FFFF_FFFFu64,
            fy == y & 0x000F_FFFF_FFFF_FFFFu64,
    ;
    assert((fy | 0x0010_0000_0000_0000u64) == fy + 0x10_0000_0000_0000u64) by (bit_vector)
        requires
            fy == y & 0x000F_FFFF_FFFF_FFFFu64,
    ;
    assert((fx | 0x0010_0000_0000_0000u64) == fx + 0x10_0000_0000_0000u64) by (bit_vector)
        requires
            fx == x & 0x000F_FFFF_FFFF_FFFFu64,
    ;
    let sx = scale_exp(x) as nat;
    let sy = scale_exp(y) as nat;
    lemma_pow2_pos(sx);
    lemma_pow2_pos(sy);
    if sx == sy {
        // Same scale: the mantissas decide. Either the exponent fields agree
        // and the fractions are ordered, or only the larger carries the
        // hidden bit.
        assert(mant_bits(x) < mant_bits(y));
        lemma_mul_cmp(mant_bits(x) as int, mant_bits(y) as int, pow2(sx) as int);
    } else {
        // The higher scale dominates: the smaller value stays below one
        // mantissa step above its scale, the larger reaches its scale with
        // the hidden bit.
        assert(sx < sy);
        assert(mant_bits(x) < 0x20_0000_0000_0000);
        assert(mant_bits(y) >= 0x10_0000_0000_0000);
        assert(mag2(x) < 0x20_0000_0000_0000 * pow2(sx)) by (nonlinear_arith)
            requires
                mag2(x) == mant_bits(x) * pow2(sx),
                mant_bits(x) < 0x20_0000_0000_0000u64,
                pow2(sx) > 0,
        ;
        assert(mag2(y) >= 0x10_0000_0000_0000 * pow2(sy)) by (nonlinear_arith)
            requires
                mag2(y) == mant_bits(y) * pow2(sy),
                mant_bits(y) >= 0x10_0000_0000_0000u64,
                pow2(sy) > 0,
        ;
        lemma_pow2_adds(53, sx);
        lemma_pow2_adds(52, sy);
        if 53 + sx < 52 + sy {
            lemma_pow2_strictly_increases(53 + sx, 52 + sy);
        }
        assert(pow2(53 + sx) <= pow2(52 + sy));
        assert(pow2(53) * pow2(sx) == 0x20_0000_0000_0000 * pow2(sx));
        assert(pow2(52) * pow2(sy) == 0x10_0000_0000_0000 * pow2(sy));
    }
}

} // verus!
