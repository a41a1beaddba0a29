//! The bit-level recombination functions, with the documented concrete cases.

use optlib::genetic::cross::{
    cross_i16, cross_i8, cross_u16, cross_u32, cross_u64, cross_u8, encode_value, integer_decode,
    CrossBitwise, FloatCrossExp, VecCrossAllGenes,
};
use optlib::genetic::Cross;

fn b(x: f64) -> u64 {
    x.to_bits()
}

#[test]
fn cross_u64_bit_locality() {
    assert_eq!(cross_u64(0u64, u64::MAX, 1), 1u64);
    assert_eq!(cross_u64(0u64, u64::MAX, 4), 0b_1111_u64);
    assert_eq!(
        cross_u64(0u64, u64::MAX, 63),
        0b_0111_1111_1111_1111_1111_1111_1111_1111_1111_1111_1111_1111_1111_1111_1111_1111_u64,
    );
    assert_eq!(
        cross_u64(u64::MAX, 0u64, 4),
        0b_1111_1111_1111_1111_1111_1111_1111_1111_1111_1111_1111_1111_1111_1111_1111_0000_u64,
    );
    // At position sixty-three the child takes exactly the top bit of the
    // first parent and the sixty-three low bits of the second.
    let a = 0xDEAD_BEEF_0123_4567u64;
    let c = 0x0F0F_F0F0_AAAA_5555u64;
    let child = cross_u64(a, c, 63);
    assert_eq!(child >> 63, a >> 63);
    assert_eq!(child & (u64::MAX >> 1), c & (u64::MAX >> 1));
}

#[test]
fn cross_u32_cases() {
    assert_eq!(cross_u32(0u32, u32::MAX, 1), 1u32);
    assert_eq!(cross_u32(0u32, u32::MAX, 4), 0b_1111_u32);
    assert_eq!(cross_u32(0u32, u32::MAX, 31), 0b_0111_1111_1111_1111_1111_1111_1111_1111_u32);
    assert_eq!(cross_u32(u32::MAX, 0u32, 4), 0b_1111_1111_1111_1111_1111_1111_1111_0000_u32);
}

#[test]
fn cross_u16_cases() {
    assert_eq!(cross_u16(0b_0000_0000_0000_0000, 0b_1111_1111_1111_1111, 4), 0b_1111);
    assert_eq!(cross_u16(0b_0000_0000_0000_0000, 0b_1111_1111_1111_1111, 1), 0b_1);
    assert_eq!(cross_u16(0b_0000_0000_0000_0000, 0b_1111_1111_1111_1111, 8), 0b_0000_0000_1111_1111);
    assert_eq!(
        cross_u16(0b_0000_0000_0000_0000, 0b_1111_1111_1111_1111, 15),
        0b_0111_1111_1111_1111,
    );
}

#[test]
fn cross_i16_cases() {
    assert_eq!(cross_i16(0i16, -1i16, 4), 0b_0000_0000_0000_1111_i16);
    assert_eq!(cross_i16(0i16, -1i16, 1), 0b_0000_0000_0000_0001_i16);
    assert_eq!(cross_i16(0i16, -1i16, 15), 0b_0111_1111_1111_1111_i16);
    assert_eq!(cross_i16(0i16, -1i16, 8), 0b_0000_0000_1111_1111_i16);
    assert_eq!(cross_i16(-1i16, 0i16, 4), -16i16);
    assert_eq!(cross_i16(-1i16, 0i16, 15), -32768i16);
}

#[test]
fn cross_u8_cases() {
    assert_eq!(cross_u8(0b_0000_0000, 0b_1111_1111, 4), 0b_0000_1111);
    assert_eq!(cross_u8(0b_0000_0000, 0b_1111_1111, 1), 0b_0000_0001);
    assert_eq!(cross_u8(0b_0000_0000, 0b_1111_1111, 7), 0b_0111_1111);
}

#[test]
fn cross_i8_cases() {
    assert_eq!(cross_i8(0b_0000_0000_i8, 0b_0111_1111_i8, 4), 0b_0000_1111_i8);
    assert_eq!(cross_i8(0b_0000_0000_i8, 0b_0111_1111_i8, 1), 0b_0000_0001_i8);
    assert_eq!(cross_i8(0b_0000_0000_i8, 0b_0111_1111_i8, 7), 0b_0111_1111_i8);
    assert_eq!(cross_i8(0b_0000_0000_i8, 0b_0111_1111_i8, 6), 0b_0011_1111_i8);
    assert_eq!(cross_i8(-1i8, 0i8, 4), -16i8);
    assert_eq!(cross_i8(-1i8, 0i8, 7), -128i8);
}

#[test]
fn integer_decode_matches_value() {
    // The decoded parts reassemble the value: sign * mantissa * 2^exponent.
    for x in [1.0, -1.0, 0.5, 3.5, -123.456, 6.25e5] {
        let (m, e, s) = integer_decode(b(x));
        let rebuilt = (s as f64) * (m as f64) * 2f64.powi(e as i32);
        assert_eq!(rebuilt, x, "decode of {x}");
    }
}

#[test]
fn encode_value_inverts_decode() {
    // Encoding the decoded parts of a normal value gives the value back: the
    // decode and encode really transform their argument.
    for x in [1.0, -1.0, 0.5, 3.5, -123.456, 6.25e5, 1e300, -2.5e-300] {
        let (m, e, s) = integer_decode(b(x));
        let rebuilt = encode_value(s < 0, m, e);
        assert_eq!(f64::from_bits(rebuilt), x, "round trip of {x}");
    }
}

#[test]
fn cross_bitwise_two_parents() {
    let mut crosser = CrossBitwise::new();
    let children = crosser.cross(&vec![b(1.0), b(2.0)]);
    assert_eq!(children.len(), 1);
    let children = crosser.cross(&vec![b(1.0)]);
    assert_eq!(children.len(), 0);
    // Crossing a value with itself reproduces it, whatever the position.
    for _ in 0..20 {
        let children = crosser.cross(&vec![b(7.5), b(7.5)]);
        assert_eq!(children[0], b(7.5));
    }
}

#[test]
fn float_cross_exp_two_parents() {
    let mut crosser = FloatCrossExp::new();
    let children = crosser.cross(&vec![b(1.5), b(2.5)]);
    assert_eq!(children.len(), 1);
    // Crossing a positive value with itself reproduces it: equal mantissas,
    // exponents and signs survive any crossing position.
    for _ in 0..20 {
        let children = crosser.cross(&vec![b(2.5), b(2.5)]);
        assert_eq!(f64::from_bits(children[0]), 2.5);
    }
}

#[test]
fn vec_cross_all_genes() {
    let mut crosser = VecCrossAllGenes::new(CrossBitwise::new());
    let p1 = vec![b(1.0), b(2.0), b(3.0)];
    let p2 = vec![b(1.0), b(2.0), b(3.0)];
    let children = crosser.cross(&vec![p1, p2]);
    assert_eq!(children.len(), 1);
    assert_eq!(children[0], vec![b(1.0), b(2.0), b(3.0)]);
}
