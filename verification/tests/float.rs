//! Conversions to binary32, held against the conversions of the machine.
use kserve_catboost::float::{Fp32, Fp64};
use kserve_catboost::json::JsonNumber;

fn from_native(v: f64) -> u32 {
    Fp32::from_fp64(Fp64 { bits: v.to_bits() }).bits
}

// A fixed sequence of numbers that reach all over 64 bits.
fn numbers() -> Vec<u64> {
    let mut x: u64 = 0x9e37_79b9_7f4a_7c15;
    let mut v = Vec::new();
    for i in 0..20000u32 {
        x ^= x << 13;
        x ^= x >> 7;
        x ^= x << 17;
        v.push(x >> (i % 64));
    }
    v
}

#[test]
fn unsigned_integers_round_like_the_machine() {
    for n in numbers() {
        assert_eq!(Fp32::from_u64(n).bits, (n as f32).to_bits());
    }
    for n in [0u64, 1, 0xff_ffff, 0x100_0000, 0x100_0001, 0x100_0003, u64::MAX] {
        assert_eq!(Fp32::from_u64(n).bits, (n as f32).to_bits());
    }
}

#[test]
fn signed_integers_round_like_the_machine() {
    for n in numbers() {
        let i = n as i64;
        assert_eq!(Fp32::from_i64(i).bits, (i as f32).to_bits());
        assert_eq!(Fp32::from_i64(i.wrapping_neg()).bits, (i.wrapping_neg() as f32).to_bits());
    }
    for i in [0i64, -1, -0x100_0001, i64::MIN, i64::MAX] {
        assert_eq!(Fp32::from_i64(i).bits, (i as f32).to_bits());
    }
}

#[test]
fn binary64_rounds_like_the_machine() {
    for n in numbers() {
        let v = f64::from_bits(n);
        if !v.is_nan() {
            assert_eq!(from_native(v), (v as f32).to_bits());
        }
        // The same bits with an exponent near the middle of the range.
        let w = f64::from_bits((n & 0x800f_ffff_ffff_ffff) | ((0x3ff - 160 + (n % 320)) << 52));
        assert_eq!(from_native(w), (w as f32).to_bits());
    }
}

#[test]
fn binary64_at_the_edges() {
    let smallest = f32::from_bits(1) as f64;
    for v in [
        0.0,
        -0.0,
        1.5,
        0.1,
        f64::MAX,
        f64::MIN,
        f64::INFINITY,
        f64::NEG_INFINITY,
        f64::MIN_POSITIVE,
        f32::MAX as f64,
        f32::MAX as f64 * 1.00000001,
        f32::MIN_POSITIVE as f64,
        smallest,
        smallest / 2.0,
        smallest * 0.75,
        smallest * 1.5,
    ] {
        assert_eq!(from_native(v), (v as f32).to_bits());
    }
    assert_eq!(from_native(1e300), f32::INFINITY.to_bits());
    assert_eq!(from_native(1e-300), 0);
}

#[test]
fn nan_stays_nan_and_becomes_quiet() {
    for bits in [0x7ff8_0000_0000_0000u64, 0x7ff0_0000_0000_0001, 0xfff4_0000_0000_0000] {
        let r = Fp32::from_fp64(Fp64 { bits });
        assert!(f32::from_bits(r.bits).is_nan());
        assert_eq!(r.bits & 0x40_0000, 0x40_0000);
        assert_eq!(r.bits >> 31, (bits >> 63) as u32);
    }
    assert_eq!(Fp32::from_fp64(Fp64 { bits: 0x7ff8_0000_0000_0000 }).bits, 0x7fc0_0000);
}

#[test]
fn ties_go_to_even() {
    assert_eq!(Fp32::from_u64(0x100_0001).bits, (0x100_0000 as f32).to_bits());
    assert_eq!(Fp32::from_u64(0x100_0003).bits, (0x100_0004 as f32).to_bits());
}

#[test]
fn small_integers_are_exact() {
    for n in -0xff_ffffi64..=-0xff_ff00 {
        assert_eq!(f32::from_bits(Fp32::from_i64(n).bits) as i64, n);
    }
    for n in 0xff_ff00i64..=0xff_ffff {
        assert_eq!(f32::from_bits(Fp32::from_i64(n).bits) as i64, n);
    }
}

#[test]
fn json_integers_become_binary64() {
    for n in numbers() {
        assert_eq!(JsonNumber::PosInt(n).as_f64().bits, (n as f64).to_bits());
        let i = n as i64;
        if i < 0 {
            assert_eq!(JsonNumber::NegInt(i).as_f64().bits, (i as f64).to_bits());
        }
    }
    assert_eq!(JsonNumber::PosInt(3).as_f64().bits, 3.0f64.to_bits());
    assert_eq!(JsonNumber::NegInt(-3).as_f64().bits, (-3.0f64).to_bits());
    let half = Fp64 { bits: 0.5f64.to_bits() };
    assert_eq!(JsonNumber::Float(half).as_f64(), half);
}
