//! Recombination algorithms. The scalar strategies operate on the bit
//! pattern of a gene, not on its arithmetic value: single-point crossing
//! takes the high bits of one parent and the low bits of the other.

use vstd::prelude::*;
use vstd::arithmetic::power2::pow2;
use crate::{Chromosomes, Gene};
use crate::bits::sign_bit;
use crate::exact::{exp_field, mag2, mant_bits, scale_exp, val2, HIDDEN_BIT};
use crate::genetic::Cross;
use crate::rng::random_below;

verus! {

/// The single-point cross of two 64-bit patterns at `pos`: the bits of `a`
/// above the position and the bits of `b` below it.
pub open spec fn cross_bits_u64(a: u64, b: u64, pos: u64) -> u64 {
    (a & (!0u64 << pos)) | (b & (!0u64 >> ((64 - pos) as u64)))
}

/// The single-point cross of two 32-bit patterns at `pos`.
pub open spec fn cross_bits_u32(a: u32, b: u32, pos: u32) -> u32 {
    (a & (!0u32 << pos)) | (b & (!0u32 >> ((32 - pos) as u32)))
}

/// The single-point cross of two 16-bit patterns at `pos`.
pub open spec fn cross_bits_u16(a: u16, b: u16, pos: u16) -> u16 {
    (a & (!0u16 << pos)) | (b & (!0u16 >> ((16 - pos) as u16)))
}

/// The single-point cross of two 8-bit patterns at `pos`.
pub open spec fn cross_bits_u8(a: u8, b: u8, pos: u8) -> u8 {
    (a & (!0u8 << pos)) | (b & (!0u8 >> ((8 - pos) as u8)))
}

/// Single-point crossing of two 64-bit values. The position counts from the
/// right: the child takes the bits of `parent_1` at the position and above,
/// and the bits of `parent_2` below the position.
pub fn cross_u64(parent_1: u64, parent_2: u64, pos: usize) -> (r: u64)
    requires
        1 <= pos < 64,
    ensures
        r == cross_bits_u64(parent_1, parent_2, pos as u64),
        r >> (pos as u64) == parent_1 >> (pos as u64),
        r & (!0u64 >> ((64 - pos) as u64)) == parent_2 & (!0u64 >> ((64 - pos) as u64)),
{
    let sh = pos as u64;
    let mask_parent_1 = !0u64 << sh;
    let mask_parent_2 = !0u64 >> (64 - sh);
    let r = (parent_1 & mask_parent_1) | (parent_2 & mask_parent_2);
    proof {
        assert(((parent_1 & (!0u64 << sh)) | (parent_2 & (!0u64 >> ((64 - sh) as u64)))) >> sh
            == parent_1 >> sh) by (bit_vector)
            requires
                1 <= sh < 64,
        ;
        assert(((parent_1 & (!0u64 << sh)) | (parent_2 & (!0u64 >> ((64 - sh) as u64)))) & (!0u64
            >> ((64 - sh) as u64)) == parent_2 & (!0u64 >> ((64 - sh) as u64))) by (bit_vector)
            requires
                1 <= sh < 64,
        ;
    }
    r
}

/// Single-point crossing of two 32-bit values; the position counts from the
/// right.
pub fn cross_u32(parent_1: u32, parent_2: u32, pos: usize) -> (r: u32)
    requires
        1 <= pos < 32,
    ensures
        r == cross_bits_u32(parent_1, parent_2, pos as u32),
{
    let sh = pos as u32;
    let mask_parent_1 = !0u32 << sh;
    let mask_parent_2 = !0u32 >> (32 - sh);
    (parent_1 & mask_parent_1) | (parent_2 & mask_parent_2)
}

/// Single-point crossing of two 16-bit values; the position counts from the
/// right.
pub fn cross_u16(parent_1: u16, parent_2: u16, pos: usize) -> (r: u16)
    requires
        1 <= pos < 16,
    ensures
        r == cross_bits_u16(parent_1, parent_2, pos as u16),
{
    let sh = pos as u16;
    let mask_parent_1 = !0u16 << sh;
    let mask_parent_2 = !0u16 >> (16 - sh);
    (parent_1 & mask_parent_1) | (parent_2 & mask_parent_2)
}

/// Single-point crossing of two 8-bit values; the position counts from the
/// right.
pub fn cross_u8(parent_1: u8, parent_2: u8, pos: usize) -> (r: u8)
    requires
        1 <= pos < 8,
    ensures
        r == cross_bits_u8(parent_1, parent_2, pos as u8),
{
    let sh = pos as u8;
    let mask_parent_1 = !0u8 << sh;
    let mask_parent_2 = !0u8 >> (8 - sh);
    (parent_1 & mask_parent_1) | (parent_2 & mask_parent_2)
}

/// Single-point crossing of two 16-bit signed values, by their bit patterns.
pub fn cross_i16(parent_1: i16, parent_2: i16, pos: usize) -> (r: i16)
    requires
        1 <= pos < 16,
    ensures
        r == cross_bits_u16(parent_1 as u16, parent_2 as u16, pos as u16) as i16,
{
    cross_u16(parent_1 as u16, parent_2 as u16, pos) as i16
}

/// Single-point crossing of two 8-bit signed values, by their bit patterns.
pub fn cross_i8(parent_1: i8, parent_2: i8, pos: usize) -> (r: i8)
    requires
        1 <= pos < 8,
    ensures
        r == cross_bits_u8(parent_1 as u8, parent_2 as u8, pos as u8) as i8,
{
    cross_u8(parent_1 as u8, parent_2 as u8, pos) as i8
}

/// Bitwise recombination of one gene: single-point crossing of the two
/// parents' bit patterns at a uniformly random position.
pub struct CrossBitwise;

impl CrossBitwise {
    /// Constructor.
    pub fn new() -> CrossBitwise {
        CrossBitwise
    }
}

impl Cross<Gene> for CrossBitwise {
    fn cross(&mut self, parents: &Vec<Gene>) -> (r: Vec<Gene>)
        ensures
            parents@.len() == 2 ==> (r@.len() == 1 && exists|pos: u64|
                1 <= pos < 64 && r@[0] == cross_bits_u64(parents@[0], parents@[1], pos)),
            parents@.len() != 2 ==> r@.len() == 0,
    {
        let mut children: Vec<Gene> = Vec::new();
        if parents.len() != 2 {
            return children;
        }
        let pos = 1 + random_below(63);
        let child = cross_u64(parents[0], parents[1], pos);
        children.push(child);
        children
    }
}

/// Decode a 64-bit float bit pattern the way numeric libraries expose it: an
/// integer mantissa (with the hidden bit for normal values, and shifted up
/// once for subnormal ones), an unbiased exponent and a sign of one or minus
/// one, so that the encoded value is `sign * mantissa * 2^exponent`.
pub fn integer_decode(bits: u64) -> (r: (u64, i16, i8))
    ensures
        r.0 == if exp_field(bits) == 0 {
            (bits & 0x000F_FFFF_FFFF_FFFFu64) << 1u64
        } else {
            (bits & 0x000F_FFFF_FFFF_FFFFu64) | HIDDEN_BIT
        },
        r.1 == exp_field(bits) - 1075,
        r.2 == if sign_bit(bits) {
            -1
        } else {
            1
        },
        r.0 < 0x20_0000_0000_0000,
{
    let sign: i8 = if bits >> 63u64 == 0 {
        1
    } else {
        -1
    };
    let exp_bits = (bits & 0x7FF0_0000_0000_0000) >> 52u64;
    let frac = bits & 0x000F_FFFF_FFFF_FFFF;
    proof {
        assert((bits & 0x7FF0_0000_0000_0000u64) >> 52u64 <= 2047) by (bit_vector);
        assert(bits & 0x000F_FFFF_FFFF_FFFFu64 < 0x0010_0000_0000_0000u64) by (bit_vector);
        assert((bits & 0x000F_FFFF_FFFF_FFFFu64) << 1u64 < 0x20_0000_0000_0000u64) by (bit_vector);
        assert((bits & 0x000F_FFFF_FFFF_FFFFu64) | 0x0010_0000_0000_0000u64 < 0x20_0000_0000_0000u64)
            by (bit_vector);
        assert((bits >> 63u64 == 0) == (bits & 0x8000_0000_0000_0000u64
            != 0x8000_0000_0000_0000u64)) by (bit_vector);
    }
    let mantissa = if exp_bits == 0 {
        frac << 1u64
    } else {
        frac | HIDDEN_BIT
    };
    let exponent: i16 = (exp_bits as i16) - 1075;
    (mantissa, exponent, sign)
}

/// Encode the value `sign * m * 2^e` as a 64-bit float bit pattern. The
/// mantissa is normalized by shifting; bits shifted out below the precision
/// are dropped (the magnitude is rounded toward zero), a too-large value
/// becomes an infinity, and a vanishing one becomes a zero, always with the
/// requested sign. A normal-range value with a normalized mantissa is encoded
/// exactly.
pub fn encode_value(negative: bool, m: u64, e: i16) -> (r: u64)
    requires
        m < 0x40_0000_0000_0000,
    ensures
        sign_bit(r) == negative,
        (0x10_0000_0000_0000 <= m < 0x20_0000_0000_0000 && 0 <= e + 1074 <= 2045) ==> (
        crate::bits::is_finite_bits(r) && val2(r) == if negative {
            -(m * pow2((e + 1074) as nat))
        } else {
            m * pow2((e + 1074) as nat) as int
        }),
{
    let ghost exact = 0x10_0000_0000_0000 <= m < 0x20_0000_0000_0000 && 0 <= e + 1074 <= 2045;
    let sign: u64 = if negative {
        0x8000_0000_0000_0000
    } else {
        0
    };
    let mut mm: u64 = m;
    let mut ee: i32 = (e as i32) + 1074;
    while mm != 0 && mm < 0x10_0000_0000_0000 && ee > 0
        invariant
            mm < 0x40_0000_0000_0000,
            ee <= 33841,
            exact ==> (mm == m && ee == e + 1074),
            exact == (0x10_0000_0000_0000 <= m < 0x20_0000_0000_0000 && 0 <= e + 1074 <= 2045),
        decreases ee,
    {
        mm = mm * 2;
        ee = ee - 1;
    }
    while mm >= 0x20_0000_0000_0000
        invariant
            mm < 0x40_0000_0000_0000,
            ee <= 33842,
            mm >= 0x20_0000_0000_0000 ==> ee <= 33841,
            exact ==> (mm == m && ee == e + 1074),
            exact == (0x10_0000_0000_0000 <= m < 0x20_0000_0000_0000 && 0 <= e + 1074 <= 2045),
            mm == 0 || mm >= 0x10_0000_0000_0000 || ee <= 0,
        decreases mm,
    {
        mm = mm / 2;
        ee = ee + 1;
    }
    while ee < 0
        invariant
            mm < 0x20_0000_0000_0000,
            ee <= 33842,
            exact ==> (mm == m && ee == e + 1074),
            exact == (0x10_0000_0000_0000 <= m < 0x20_0000_0000_0000 && 0 <= e + 1074 <= 2045),
            mm == 0 || mm >= 0x10_0000_0000_0000 || ee <= 0,
        decreases 0 - ee,
    {
        mm = mm / 2;
        ee = ee + 1;
    }
    if mm == 0 {
        proof {
            assert(!exact);
            lemma_sign_only(sign);
        }
        return sign;
    }
    if ee > 2045 {
        proof {
            if exact {
                assert(ee == e + 1074 <= 2045);
            }
            lemma_inf_bits(sign);
        }
        return sign | 0x7FF0_0000_0000_0000;
    }
    let eu = ee as u64;
    if mm >= 0x10_0000_0000_0000 {
        let frac = mm - 0x10_0000_0000_0000;
        let r = sign | (((eu + 1) as u64) << 52u64) | frac;
        proof {
            lemma_normal_bits(sign, eu, frac);
            if exact {
                assert(mant_bits(r) == frac | HIDDEN_BIT);
                assert(frac | 0x10_0000_0000_0000u64 == (frac + 0x10_0000_0000_0000u64) as u64)
                    by (bit_vector)
                    requires
                        frac < 0x10_0000_0000_0000u64,
                ;
                assert(mag2(r) == mm * pow2(eu as nat));
            }
        }
        r
    } else {
        let r = sign | mm;
        proof {
            assert(!exact);
            lemma_subnormal_bits(sign, mm);
        }
        r
    }
}

/// Field facts of a bare sign pattern.
proof fn lemma_sign_only(sign: u64)
    requires
        sign == 0 || sign == 0x8000_0000_0000_0000,
    ensures
        sign_bit(sign) == (sign == 0x8000_0000_0000_0000),
{
    assert((0u64 & 0x8000_0000_0000_0000u64) != 0x8000_0000_0000_0000u64) by (bit_vector);
    assert((0x8000_0000_0000_0000u64 & 0x8000_0000_0000_0000u64) == 0x8000_0000_0000_0000u64)
        by (bit_vector);
}

/// Field facts of an infinity pattern.
proof fn lemma_inf_bits(sign: u64)
    requires
        sign == 0 || sign == 0x8000_0000_0000_0000,
    ensures
        sign_bit(sign | 0x7FF0_0000_0000_0000) == (sign == 0x8000_0000_0000_0000),
{
    assert(((0u64 | 0x7FF0_0000_0000_0000u64) & 0x8000_0000_0000_0000u64)
        != 0x8000_0000_0000_0000u64) by (bit_vector);
    assert(((0x8000_0000_0000_0000u64 | 0x7FF0_0000_0000_0000u64) & 0x8000_0000_0000_0000u64)
        == 0x8000_0000_0000_0000u64) by (bit_vector);
}

/// Field facts of a normal pattern assembled from its parts.
proof fn lemma_normal_bits(sign: u64, eu: u64, frac: u64)
    requires
        sign == 0 || sign == 0x8000_0000_0000_0000,
        eu <= 2045,
        frac < 0x10_0000_0000_0000,
    ensures
        sign_bit(sign | (((eu + 1) as u64) << 52u64) | frac) == (sign == 0x8000_0000_0000_0000),
        exp_field(sign | (((eu + 1) as u64) << 52u64) | frac) == eu + 1,
        (sign | (((eu + 1) as u64) << 52u64) | frac) & 0x000F_FFFF_FFFF_FFFF == frac,
        crate::bits::is_finite_bits(sign | (((eu + 1) as u64) << 52u64) | frac),
        scale_exp(sign | (((eu + 1) as u64) << 52u64) | frac) == eu,
{
    let r = sign | (((eu + 1) as u64) << 52u64) | frac;
    assert(((sign | (((eu + 1) as u64) << 52u64) | frac) & 0x8000_0000_0000_0000u64
        == 0x8000_0000_0000_0000u64) == (sign == 0x8000_0000_0000_0000u64)) by (bit_vector)
        requires
            sign == 0 || sign == 0x8000_0000_0000_0000u64,
            eu <= 2045,
            frac < 0x10_0000_0000_0000u64,
    ;
    assert(((sign | (((eu + 1) as u64) << 52u64) | frac) & 0x7FF0_0000_0000_0000u64) >> 52u64 == (eu + 1) as u64) by (bit_vector)
        requires
            sign == 0 || sign == 0x8000_0000_0000_0000u64,
            eu <= 2045,
            frac < 0x10_0000_0000_0000u64,
    ;
    assert((sign | (((eu + 1) as u64) << 52u64) | frac) & 0x000F_FFFF_FFFF_FFFFu64 == frac) by (bit_vector)
        requires
            sign == 0 || sign == 0x8000_0000_0000_0000u64,
            eu <= 2045,
            frac < 0x10_0000_0000_0000u64,
    ;
    assert((sign | (((eu + 1) as u64) << 52u64) | frac) & 0x7FF0_0000_0000_0000u64
        != 0x7FF0_0000_0000_0000u64) by (bit_vector)
        requires
            sign == 0 || sign == 0x8000_0000_0000_0000u64,
            eu <= 2045,
            frac < 0x10_0000_0000_0000u64,
    ;
}

/// Field facts of a subnormal pattern assembled from its parts.
proof fn lemma_subnormal_bits(sign: u64, mm: u64)
    requires
        sign == 0 || sign == 0x8000_0000_0000_0000,
        mm < 0x10_0000_0000_0000,
    ensures
        sign_bit(sign | mm) == (sign == 0x8000_0000_0000_0000),
        crate::bits::is_finite_bits(sign | mm),
{
    assert(((sign | mm) & 0x8000_0000_0000_0000u64 == 0x8000_0000_0000_0000u64) == (sign
        == 0x8000_0000_0000_0000u64)) by (bit_vector)
        requires
            sign == 0 || sign == 0x8000_0000_0000_0000u64,
            mm < 0x10_0000_0000_0000u64,
    ;
    assert((sign | mm) & 0x7FF0_0000_0000_0000u64 != 0x7FF0_0000_0000_0000u64) by (bit_vector)
        requires
            sign == 0 || sign == 0x8000_0000_0000_0000u64,
            mm < 0x10_0000_0000_0000u64,
    ;
}

/// Bitwise recombination of one float gene through its decoded parts: the
/// mantissas and the exponents of the two parents are single-point-crossed
/// independently, the sign is taken from one parent at random, and the parts
/// are reassembled into a value.
pub struct FloatCrossExp;

impl FloatCrossExp {
    /// Constructor.
    pub fn new() -> FloatCrossExp {
        FloatCrossExp
    }
}

impl Cross<Gene> for FloatCrossExp {
    fn cross(&mut self, parents: &Vec<Gene>) -> (r: Vec<Gene>)
        ensures
            parents@.len() == 2 ==> r@.len() == 1,
            parents@.len() != 2 ==> r@.len() == 0,
    {
        let mut children: Vec<Gene> = Vec::new();
        if parents.len() != 2 {
            return children;
        }
        let (mantissa_1, exponent_1, sign_1) = integer_decode(parents[0]);
        let (mantissa_2, exponent_2, sign_2) = integer_decode(parents[1]);
        let mantissa_pos = 1 + random_below(63);
        let exponent_pos = 1 + random_below(15);
        let mantissa_child = cross_u64(mantissa_1, mantissa_2, mantissa_pos);
        let exponent_child = cross_i16(exponent_1, exponent_2, exponent_pos);
        let sign_child = if random_below(2) == 0 {
            sign_1
        } else {
            sign_2
        };
        proof {
            let p = mantissa_pos as u64;
            assert(((mantissa_1 & (!0u64 << p)) | (mantissa_2 & (!0u64 >> ((64 - p) as u64))))
                < 0x40_0000_0000_0000u64) by (bit_vector)
                requires
                    1 <= p < 64,
                    mantissa_1 < 0x20_0000_0000_0000u64,
                    mantissa_2 < 0x20_0000_0000_0000u64,
            ;
        }
        let child = encode_value(sign_child < 0, mantissa_child, exponent_child);
        children.push(child);
        children
    }
}

/// Recombine whole chromosome vectors gene by gene with a scalar strategy,
/// producing a single child; each of the child's genes comes from crossing
/// the parents' genes of the same dimension.
pub struct VecCrossAllGenes<C> {
    pub single_cross: C,
}

impl<C: Cross<Gene>> VecCrossAllGenes<C> {
    /// Constructor.
    pub fn new(single_cross: C) -> (r: VecCrossAllGenes<C>)
        ensures
            r.single_cross == single_cross,
    {
        VecCrossAllGenes { single_cross }
    }
}

impl<C: Cross<Gene>> Cross<Chromosomes> for VecCrossAllGenes<C> {
    fn cross(&mut self, parents: &Vec<Chromosomes>) -> (r: Vec<Chromosomes>)
        ensures
            parents@.len() == 2 ==> r@.len() == 1,
            parents@.len() != 2 ==> r@.len() == 0,
    {
        let mut children: Vec<Chromosomes> = Vec::new();
        if parents.len() != 2 {
            return children;
        }
        let gene_count = if parents[0].len() < parents[1].len() {
            parents[0].len()
        } else {
            parents[1].len()
        };
        let mut child: Chromosomes = Vec::new();
        let mut n: usize = 0;
        while n < gene_count
            invariant
                gene_count <= parents@[0]@.len(),
                gene_count <= parents@[1]@.len(),
                parents@.len() == 2,
            decreases gene_count - n,
        {
            let g1 = parents[0][n];
            let g2 = parents[1][n];
            let mut pair: Vec<Gene> = Vec::new();
            pair.push(g1);
            pair.push(g2);
            let mut new_gene = self.single_cross.cross(&pair);
            child.append(&mut new_gene);
            n = n + 1;
        }
        children.push(child);
        children
    }
}

} // verus!
