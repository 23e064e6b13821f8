//! IEEE 754 values as bit patterns, and the conversions between them.
//!
//! Feature values travel through the library as [`Fp32`] and predictions as
//! [`Fp64`]. Both hold the bits of the number, so equality is equality of bits
//! and a conversion is integer arithmetic with an exact contract.
use vstd::prelude::*;

verus! {

/// A binary32 number, held as its bits.
#[derive(Clone, Copy, Debug, PartialEq, Eq, Structural)]
pub struct Fp32 {
    pub bits: u32,
}

/// A binary64 number, held as its bits.
#[derive(Clone, Copy, Debug, PartialEq, Eq, Structural)]
pub struct Fp64 {
    pub bits: u64,
}

/// `2^e`.
pub open spec fn two_to(e: nat) -> nat {
    vstd::arithmetic::power2::pow2(e)
}

/// The exponent of the highest power of two that is at most `n`.
pub open spec fn top_bit(n: nat) -> nat
    decreases n,
{
    if n < 2 {
        0
    } else {
        1 + top_bit(n / 2)
    }
}

/// The integer nearest to `num / den`; of two equally near ones, the even one.
pub open spec fn nearest_even(num: nat, den: nat) -> nat {
    let q = num / den;
    let r = num % den;
    if 2 * r < den || (2 * r == den && q % 2 == 0) {
        q
    } else {
        q + 1
    }
}

/// `m * 2^shift`, rounded to the nearest integer, ties to even.
pub open spec fn scaled(m: nat, shift: int) -> nat {
    if shift >= 0 {
        m * two_to(shift as nat)
    } else {
        nearest_even(m, two_to((-shift) as nat))
    }
}

/// The exponent of the spacing between neighbouring numbers of a format at the
/// magnitude `m * 2^x`, where a significand has `frac` bits behind its first and
/// no spacing is finer than `2^finest`.
pub open spec fn spacing(m: nat, x: int, frac: nat, finest: int) -> int {
    let wanted = top_bit(m) + x - frac;
    if wanted < finest {
        finest
    } else {
        wanted
    }
}

/// The bits, without a sign, of `m * 2^x` rounded to nearest, ties to even, before
/// the range of the exponent is looked at. A significand that rounds up to the
/// next power of two carries into the exponent field.
pub open spec fn packed(m: nat, x: int, frac: nat, finest: int) -> int {
    if m == 0 {
        0
    } else {
        let unit = spacing(m, x, frac, finest);
        (unit - finest) * two_to(frac) + scaled(m, x - unit)
    }
}

/// The bits of infinity in binary32.
pub const FP32_INFINITY: u32 = 0x7f80_0000;

/// The weight of the sign bit in binary32.
pub const FP32_SIGN: u32 = 0x8000_0000;

/// The bits, without a sign, of `m * 2^x` in binary32.
pub open spec fn fp32_magnitude(m: nat, x: int) -> int {
    let bits = packed(m, x, 23, -149);
    if bits >= FP32_INFINITY {
        FP32_INFINITY as int
    } else {
        bits
    }
}

/// The bits of the integer `n` rounded to binary32.
pub open spec fn fp32_of_int(n: int) -> int {
    if n < 0 {
        FP32_SIGN + fp32_magnitude((-n) as nat, 0)
    } else {
        fp32_magnitude(n as nat, 0)
    }
}

/// The bits of the integer `n` rounded to binary64. Integers of 64 bits stay far
/// from the largest exponent.
pub open spec fn fp64_of_int(n: int) -> int {
    if n < 0 {
        0x8000_0000_0000_0000 + packed((-n) as nat, 0, 52, -1074)
    } else {
        packed(n as nat, 0, 52, -1074)
    }
}

impl Fp64 {
    /// Whether the sign bit is set.
    pub open spec fn negative(self) -> bool {
        self.bits >= 0x8000_0000_0000_0000
    }

    /// The exponent field.
    pub open spec fn exponent(self) -> int {
        (self.bits as int / 0x10_0000_0000_0000) % 0x800
    }

    /// The fraction field.
    pub open spec fn fraction(self) -> int {
        self.bits as int % 0x10_0000_0000_0000
    }
}

/// The bits of the binary64 number `v` rounded to binary32. A NaN stays a NaN: it
/// becomes quiet and keeps the leading bits of its payload.
pub open spec fn fp32_of_fp64(v: Fp64) -> int {
    let magnitude = if v.exponent() == 0x7ff {
        if v.fraction() == 0 {
            FP32_INFINITY as int
        } else {
            let payload = v.fraction() / 0x2000_0000;
            FP32_INFINITY + if payload < 0x40_0000 {
                payload + 0x40_0000
            } else {
                payload
            }
        }
    } else if v.exponent() == 0 {
        fp32_magnitude(v.fraction() as nat, -1074)
    } else {
        fp32_magnitude((0x10_0000_0000_0000 + v.fraction()) as nat, v.exponent() - 1075)
    };
    if v.negative() {
        FP32_SIGN + magnitude
    } else {
        magnitude
    }
}

proof fn lemma_top_bit(n: nat)
    requires
        n > 0,
    ensures
        two_to(top_bit(n)) <= n < two_to(top_bit(n) + 1),
    decreases n,
{
    broadcast use vstd::arithmetic::power2::lemma_pow2_unfold;

    vstd::arithmetic::power2::lemma2_to64();
    if n >= 2 {
        lemma_top_bit(n / 2);
    }
}

proof fn lemma_top_bit_below(n: nat, k: nat)
    requires
        n < two_to(k),
        k > 0,
    ensures
        top_bit(n) < k,
{
    if n > 0 {
        lemma_top_bit(n);
        if top_bit(n) >= k {
            if top_bit(n) > k {
                vstd::arithmetic::power2::lemma_pow2_strictly_increases(k, top_bit(n));
            }
        }
    }
}

/// The position of the highest set bit.
fn find_top_bit(n: u64) -> (t: u32)
    requires
        n > 0,
    ensures
        t == top_bit(n as nat),
        t < 64,
{
    let mut t: u32 = 0;
    let mut v: u64 = n;
    proof {
        vstd::arithmetic::power2::lemma2_to64_rest();
        lemma_top_bit_below(n as nat, 64);
    }
    while v >= 2
        invariant
            v > 0,
            t + top_bit(v as nat) == top_bit(n as nat),
            top_bit(n as nat) < 64,
        decreases v,
    {
        v = v / 2;
        t = t + 1;
    }
    t
}

/// `1 << k`, as a power of two.
fn power_of_two(k: u32) -> (r: u64)
    requires
        k < 64,
    ensures
        r == two_to(k as nat),
{
    proof {
        vstd::bits::lemma_u64_pow2_no_overflow(k as nat);
        vstd::bits::lemma_u64_shl_is_mul(1, k as u64);
    }
    1u64 << (k as u64)
}

/// `m / 2^k` rounded to the nearest integer, ties to even.
fn divide_nearest(m: u64, k: u32) -> (q: u64)
    requires
        k > 0,
        k < 64 || m < 0x8000_0000_0000_0000,
    ensures
        q == nearest_even(m as nat, two_to(k as nat)),
{
    if k >= 64 {
        proof {
            vstd::arithmetic::power2::lemma2_to64_rest();
            if k > 64 {
                vstd::arithmetic::power2::lemma_pow2_strictly_increases(64, k as nat);
            }
            let den = two_to(k as nat);
            assert(m as nat / den == 0 && m as nat % den == m) by {
                vstd::arithmetic::div_mod::lemma_small_mod(m as nat, den);
                vstd::arithmetic::div_mod::lemma_basic_div(m as int, den as int);
            }
        }
        return 0;
    }
    let den: u64 = power_of_two(k);
    proof {
        vstd::arithmetic::power2::lemma_pow2_unfold(k as nat);
        vstd::arithmetic::power2::lemma_pow2_pos((k - 1) as nat);
    }
    let half: u64 = den / 2;
    let q: u64 = m / den;
    let r: u64 = m % den;
    assert(den == 2 * half);
    assert(q < u64::MAX) by {
        assert(m / den <= m / 2) by (nonlinear_arith)
            requires
                den >= 2,
        ;
    }
    if r < half || (r == half && q % 2 == 0) {
        q
    } else {
        q + 1
    }
}

proof fn lemma_quotient_bound(m: nat, t: nat, k: nat)
    requires
        m < two_to(t + 1),
        k + 23 >= t,
        k > 0,
    ensures
        nearest_even(m, two_to(k)) <= 0x100_0000,
{
    let den = two_to(k);
    vstd::arithmetic::power2::lemma_pow2_pos(k);
    vstd::arithmetic::power2::lemma_pow2_adds(k, 24);
    vstd::arithmetic::power2::lemma2_to64();
    if k + 24 > t + 1 {
        vstd::arithmetic::power2::lemma_pow2_strictly_increases(t + 1, k + 24);
    }
    assert(m < den * 0x100_0000);
    assert(m / den < 0x100_0000) by (nonlinear_arith)
        requires
            m < den * 0x100_0000,
            den > 0,
    ;
}

proof fn lemma_product_bound(m: nat, t: nat, k: nat)
    requires
        m < two_to(t + 1),
        k + t <= 23,
    ensures
        m * two_to(k) < 0x100_0000,
{
    vstd::arithmetic::power2::lemma_pow2_pos(k);
    vstd::arithmetic::power2::lemma_pow2_adds(t + 1, k);
    vstd::arithmetic::power2::lemma2_to64();
    if t + 1 + k < 24 {
        vstd::arithmetic::power2::lemma_pow2_strictly_increases(t + 1 + k, 24);
    }
    assert(m * two_to(k) < two_to(t + 1) * two_to(k)) by (nonlinear_arith)
        requires
            m < two_to(t + 1),
            two_to(k) > 0,
    ;
}

/// `m * 2^x` in binary32, without a sign.
fn round_fp32(m: u64, x: i32) -> (bits: u32)
    requires
        x == 0 || (-1100 <= x <= 1000 && m < 0x20_0000_0000_0000),
    ensures
        bits == fp32_magnitude(m as nat, x as int),
        bits <= FP32_INFINITY,
{
    if m == 0 {
        return 0;
    }
    let t: i32 = find_top_bit(m) as i32;
    let wanted: i32 = t + x - 23;
    let unit: i32 = if wanted < -149 {
        -149
    } else {
        wanted
    };
    let shift: i32 = x - unit;
    proof {
        lemma_top_bit(m as nat);
        vstd::arithmetic::power2::lemma2_to64();
        if x != 0 {
            vstd::arithmetic::power2::lemma2_to64_rest();
            lemma_top_bit_below(m as nat, 53);
        }
    }
    let q: u64 = if shift >= 0 {
        proof {
            lemma_product_bound(m as nat, t as nat, shift as nat);
        }
        m * power_of_two(shift as u32)
    } else {
        proof {
            lemma_quotient_bound(m as nat, t as nat, (-shift) as nat);
        }
        divide_nearest(m, (-shift) as u32)
    };
    assert(q == scaled(m as nat, shift as int));
    let bits: u64 = (unit + 149) as u64 * 0x80_0000 + q;
    if bits >= FP32_INFINITY as u64 {
        FP32_INFINITY
    } else {
        bits as u32
    }
}

impl Fp32 {
    /// The unsigned integer `n`, rounded to nearest.
    pub fn from_u64(n: u64) -> (v: Fp32)
        ensures
            v.bits == fp32_of_int(n as int),
    {
        Fp32 { bits: round_fp32(n, 0) }
    }

    /// The signed integer `n`, rounded to nearest.
    pub fn from_i64(n: i64) -> (v: Fp32)
        ensures
            v.bits == fp32_of_int(n as int),
    {
        if n < 0 {
            let m: u64 = (-(n as i128)) as u64;
            Fp32 { bits: FP32_SIGN + round_fp32(m, 0) }
        } else {
            Fp32 { bits: round_fp32(n as u64, 0) }
        }
    }

    /// The binary64 number `v`, rounded to nearest.
    pub fn from_fp64(v: Fp64) -> (r: Fp32)
        ensures
            r.bits == fp32_of_fp64(v),
    {
        let fraction: u64 = v.bits % 0x10_0000_0000_0000;
        let exponent: u64 = (v.bits / 0x10_0000_0000_0000) % 0x800;
        let magnitude: u32 = if exponent == 0x7ff {
            if fraction == 0 {
                FP32_INFINITY
            } else {
                let payload: u32 = (fraction / 0x2000_0000) as u32;
                if payload < 0x40_0000 {
                    FP32_INFINITY + 0x40_0000 + payload
                } else {
                    FP32_INFINITY + payload
                }
            }
        } else if exponent == 0 {
            round_fp32(fraction, -1074)
        } else {
            round_fp32(0x10_0000_0000_0000 + fraction, exponent as i32 - 1075)
        };
        if v.bits >= 0x8000_0000_0000_0000 {
            Fp32 { bits: FP32_SIGN + magnitude }
        } else {
            Fp32 { bits: magnitude }
        }
    }
}

/// The significand of a finite binary32 number, as an integer.
pub open spec fn fp32_significand(bits: int) -> int {
    if bits / 0x80_0000 % 0x100 == 0 {
        bits % 0x80_0000
    } else {
        bits % 0x80_0000 + 0x80_0000
    }
}

/// The exponent that goes with that significand: the number is the one times two to the
/// other, with the sign of the highest bit.
pub open spec fn fp32_unit(bits: int) -> int {
    if bits / 0x80_0000 % 0x100 == 0 {
        -149
    } else {
        bits / 0x80_0000 % 0x100 - 150
    }
}

/// Rounding goes to the nearest: the result is off by half a unit at most, and where two
/// neighbours are as near, it is the even one.
pub proof fn law_rounding_is_nearest(num: nat, den: nat)
    requires
        den > 0,
    ensures
        -den <= 2 * (nearest_even(num, den) * den - num) <= den,
        2 * (nearest_even(num, den) * den - num) == den || 2 * (nearest_even(num, den) * den - num)
            == -den ==> nearest_even(num, den) % 2 == 0,
{
    let q = num / den;
    let r = num % den;
    vstd::arithmetic::div_mod::lemma_fundamental_div_mod(num as int, den as int);
    assert((q + 1) * den == q * den + den) by (nonlinear_arith);
    assert(q * den == den * q) by (nonlinear_arith);
}

/// Integers of less than 24 bits are exact in binary32.
pub proof fn law_small_integers_are_exact(n: int)
    requires
        -0x100_0000 < n < 0x100_0000,
        n != 0,
    ensures
        0 <= fp32_of_int(n) < 0x1_0000_0000,
        fp32_of_int(n) >= FP32_SIGN <==> n < 0,
        fp32_unit(fp32_of_int(n)) <= 0,
        fp32_significand(fp32_of_int(n)) == (if n < 0 {
            -n
        } else {
            n
        }) * two_to((-fp32_unit(fp32_of_int(n))) as nat),
{
    let m = if n < 0 {
        (-n) as nat
    } else {
        n as nat
    };
    vstd::arithmetic::power2::lemma2_to64();
    lemma_top_bit(m);
    lemma_top_bit_below(m, 24);
    let t = top_bit(m);
    let k = (23 - t) as nat;
    lemma_product_bound(m, t, k);
    vstd::arithmetic::power2::lemma_pow2_adds(t, k);
    assert(two_to(t) * two_to(k) <= m * two_to(k)) by (nonlinear_arith)
        requires
            two_to(t) <= m,
    ;
    assert(0x80_0000 <= m * two_to(k) < 0x100_0000);
    let p = scaled(m, k as int);
    assert(p == m * two_to(k));
    assert(spacing(m, 0, 23, -149) == -(k as int));
    assert(two_to(23) == 0x80_0000);
    let b = fp32_of_int(n);
    let field = 150 - k + if n < 0 {
        0x100int
    } else {
        0
    };
    assert(b == field * 0x80_0000 + (p - 0x80_0000));
    assert(b / 0x80_0000 == field);
    assert(b % 0x80_0000 == p - 0x80_0000);
    assert(field % 0x100 == 150 - k);
    assert(fp32_unit(b) == -(k as int));
}

proof fn lemma_packed_parts(m: nat, x: int)
    requires
        m > 0,
    ensures
        ({
            let unit = spacing(m, x, 23, -149);
            let k = scaled(m, x - unit);
            &&& unit >= -149
            &&& k <= 0x100_0000
            &&& x >= unit ==> k < 0x100_0000
            &&& unit > -149 ==> k >= 0x80_0000
            &&& packed(m, x, 23, -149) == (unit + 149) * 0x80_0000 + k
        }),
{
    let unit = spacing(m, x, 23, -149);
    let k = scaled(m, x - unit);
    let t = top_bit(m);
    vstd::arithmetic::power2::lemma2_to64();
    lemma_top_bit(m);
    if x >= unit {
        let up = (x - unit) as nat;
        lemma_product_bound(m, t, up);
        if unit > -149 {
            vstd::arithmetic::power2::lemma_pow2_adds(t, up);
            assert(two_to(t) * two_to(up) <= m * two_to(up)) by (nonlinear_arith)
                requires
                    two_to(t) <= m,
            ;
        }
    } else {
        let down = (unit - x) as nat;
        let den = two_to(down);
        lemma_quotient_bound(m, t, down);
        vstd::arithmetic::power2::lemma_pow2_pos(down);
        if unit > -149 {
            vstd::arithmetic::power2::lemma_pow2_adds(23, down);
            assert(m >= 0x80_0000 * den);
            assert(m / den >= 0x80_0000) by (nonlinear_arith)
                requires
                    m >= 0x80_0000 * den,
                    den > 0,
            ;
        }
    }
}

/// Whether a finite binary32 number, without its sign, is nearest to `m * 2^x`: it is that
/// number, or off by half of its last place at most, and by a quarter where the next smaller
/// number is twice as near. Where two numbers are as near, it is the even one.
pub open spec fn is_nearest(bits: int, m: nat, x: int) -> bool {
    let s = fp32_significand(bits);
    let u = fp32_unit(bits);
    if x >= u {
        s == m * two_to((x - u) as nat)
    } else {
        let d = two_to((u - x) as nat);
        &&& -d <= 2 * (s * d - m) <= d
        &&& 2 * (s * d - m) == d || 2 * (s * d - m) == -d ==> s % 2 == 0
        &&& s == 0x80_0000 && u > -149 ==> 4 * (s * d - m) <= d
    }
}

/// A number that is rounded to binary32 becomes the nearest of these, whatever its size.
pub proof fn law_binary32_is_nearest(m: nat, x: int)
    ensures
        0 <= fp32_magnitude(m, x) <= 0x7f80_0000,
        fp32_magnitude(0, x) == 0,
        m > 0 && fp32_magnitude(m, x) < 0x7f80_0000 ==> is_nearest(fp32_magnitude(m, x), m, x),
{
    if m > 0 {
        lemma_packed_parts(m, x);
        let unit = spacing(m, x, 23, -149);
        let k = scaled(m, x - unit);
        let bits = packed(m, x, 23, -149);
        if bits < 0x7f80_0000 {
            let s = fp32_significand(bits);
            let u = fp32_unit(bits);
            if k < 0x100_0000 {
                if k < 0x80_0000 {
                    assert(bits / 0x80_0000 == 0);
                } else {
                    assert(bits / 0x80_0000 == unit + 150);
                    assert(bits % 0x80_0000 == k - 0x80_0000);
                }
                assert(s == k && u == unit);
                if x < unit {
                    let d = two_to((unit - x) as nat);
                    vstd::arithmetic::power2::lemma_pow2_pos((unit - x) as nat);
                    law_rounding_is_nearest(m, d);
                    if s == 0x80_0000 && u > -149 {
                        lemma_lowest_of_a_binade(m, x);
                    }
                }
            } else {
                assert(bits / 0x80_0000 == unit + 151);
                assert(bits % 0x80_0000 == 0);
                assert(s == 0x80_0000 && u == unit + 1);
                let d = two_to((unit - x) as nat);
                vstd::arithmetic::power2::lemma_pow2_pos((unit - x) as nat);
                vstd::arithmetic::power2::lemma_pow2_unfold((u - x) as nat);
                assert(two_to((u - x) as nat) == 2 * d);
                law_rounding_is_nearest(m, d);
                assert(k * d == s * (2 * d)) by (nonlinear_arith)
                    requires
                        k == 2 * s,
                ;
            }
        }
    }
}

proof fn lemma_lowest_of_a_binade(m: nat, x: int)
    requires
        m > 0,
        spacing(m, x, 23, -149) > -149,
        x < spacing(m, x, 23, -149),
    ensures
        m >= 0x80_0000 * two_to((spacing(m, x, 23, -149) - x) as nat),
{
    let down = (spacing(m, x, 23, -149) - x) as nat;
    vstd::arithmetic::power2::lemma2_to64();
    lemma_top_bit(m);
    vstd::arithmetic::power2::lemma_pow2_adds(23, down);
}

/// Only numbers from half a last place beyond the largest binary32 number on are rounded to
/// infinity, and all of them are.
pub proof fn law_overflow_is_infinite(m: nat, x: int)
    requires
        m > 0,
    ensures
        x >= 103 ==> (fp32_magnitude(m, x) == 0x7f80_0000 <==> m * two_to((x - 103) as nat)
            >= 0x1ff_ffff),
        x < 103 ==> (fp32_magnitude(m, x) == 0x7f80_0000 <==> m >= 0x1ff_ffff * two_to(
            (103 - x) as nat,
        )),
{
    lemma_packed_parts(m, x);
    let unit = spacing(m, x, 23, -149);
    let k = scaled(m, x - unit);
    let t = top_bit(m);
    vstd::arithmetic::power2::lemma2_to64();
    lemma_top_bit(m);
    if unit == 104 {
        if x >= 104 {
            let up = (x - 104) as nat;
            vstd::arithmetic::power2::lemma_pow2_unfold((x - 103) as nat);
            assert(m * two_to((x - 103) as nat) == 2 * (m * two_to(up))) by (nonlinear_arith)
                requires
                    two_to((x - 103) as nat) == 2 * two_to(up),
            ;
        } else {
            let d = two_to((104 - x) as nat);
            let h = two_to((103 - x) as nat);
            vstd::arithmetic::power2::lemma_pow2_unfold((104 - x) as nat);
            vstd::arithmetic::power2::lemma_pow2_pos((103 - x) as nat);
            law_rounding_is_nearest(m, d);
            assert(d == 2 * h);
            assert(k * d == 2 * (k * h)) by (nonlinear_arith)
                requires
                    d == 2 * h,
            ;
            if x == 103 {
                assert(h == 1);
                assert(m * h == m) by (nonlinear_arith)
                    requires
                        h == 1,
                ;
            }
            if k == 0x100_0000 {
                assert(k * h == 0x100_0000 * h);
            } else {
                assert(k * h <= 0xff_ffff * h) by (nonlinear_arith)
                    requires
                        k <= 0xff_ffff,
                        h > 0,
                ;
                if m >= 0x1ff_ffff * h {
                    assert(k * h == 0xff_ffff * h);
                    assert(k == 0xff_ffff) by (nonlinear_arith)
                        requires
                            k * h == 0xff_ffff * h,
                            h > 0,
                    ;
                }
            }
        }
    } else if unit > 104 {
        // The number is at least 2^128.
        if x >= 103 {
            let up = (x - 103) as nat;
            vstd::arithmetic::power2::lemma_pow2_adds(t, up);
            assert(two_to(t) * two_to(up) <= m * two_to(up)) by (nonlinear_arith)
                requires
                    two_to(t) <= m,
            ;
            if t + up > 25 {
                vstd::arithmetic::power2::lemma_pow2_strictly_increases(25, t + up);
            }
        } else {
            let down = (103 - x) as nat;
            vstd::arithmetic::power2::lemma_pow2_adds(25, down);
            vstd::arithmetic::power2::lemma_pow2_pos(down);
            if t > 25 + down {
                vstd::arithmetic::power2::lemma_pow2_strictly_increases(25 + down, t);
            }
        }
    } else {
        // The number is below 2^127.
        if x >= 103 {
            let up = (x - 103) as nat;
            vstd::arithmetic::power2::lemma_pow2_adds(t + 1, up);
            vstd::arithmetic::power2::lemma_pow2_pos(up);
            assert(m * two_to(up) < two_to(t + 1) * two_to(up)) by (nonlinear_arith)
                requires
                    m < two_to(t + 1),
                    two_to(up) > 0,
            ;
            if t + 1 + up < 24 {
                vstd::arithmetic::power2::lemma_pow2_strictly_increases(t + 1 + up, 24);
            }
        } else {
            let down = (103 - x) as nat;
            vstd::arithmetic::power2::lemma_pow2_adds(24, down);
            vstd::arithmetic::power2::lemma_pow2_pos(down);
            if t + 1 < 24 + down {
                vstd::arithmetic::power2::lemma_pow2_strictly_increases(t + 1, 24 + down);
            }
        }
    }
}

/// What rounding a binary64 number means, by its fields. A finite number keeps its sign and is
/// rounded as the product of its significand and a power of two; an infinity stays one; and a
/// NaN becomes a quiet NaN of the same sign with the leading bits of its payload.
pub proof fn law_binary64_in_fields(v: Fp64)
    ensures
        ({
            let sign = if v.bits >= 0x8000_0000_0000_0000 {
                0x8000_0000int
            } else {
                0
            };
            let e = v.bits as int / 0x10_0000_0000_0000 % 0x800;
            let f = v.bits as int % 0x10_0000_0000_0000;
            let r = fp32_of_fp64(v);
            &&& 0 <= r < 0x1_0000_0000
            &&& e == 0 ==> r == sign + fp32_magnitude(f as nat, -1074)
            &&& 0 < e < 0x7ff ==> r == sign + fp32_magnitude(
                (f + 0x10_0000_0000_0000) as nat,
                e - 1075,
            )
            &&& e == 0x7ff && f == 0 ==> r == sign + 0x7f80_0000
            &&& e == 0x7ff && f != 0 ==> {
                &&& sign + 0x7fc0_0000 <= r < sign + 0x8000_0000
                &&& r % 0x40_0000 == f / 0x2000_0000 % 0x40_0000
            }
        }),
{
    let e = v.bits as int / 0x10_0000_0000_0000 % 0x800;
    let f = v.bits as int % 0x10_0000_0000_0000;
    law_binary32_is_nearest(f as nat, -1074);
    law_binary32_is_nearest((f + 0x10_0000_0000_0000) as nat, e - 1075);
}

proof fn lemma_binary32_magnitude(e: int, f: int)
    requires
        0 < e < 0xff,
        0 <= f < 0x80_0000,
    ensures
        fp32_magnitude((f * 0x2000_0000 + 0x10_0000_0000_0000) as nat, e - 179) == e * 0x80_0000
            + f,
{
    let m = (f * 0x2000_0000 + 0x10_0000_0000_0000) as nat;
    let x = e - 179;
    vstd::arithmetic::power2::lemma2_to64();
    vstd::arithmetic::power2::lemma2_to64_rest();
    lemma_top_bit(m);
    lemma_top_bit_below(m, 53);
    assert(top_bit(m) == 52) by {
        if top_bit(m) + 1 < 52 {
            vstd::arithmetic::power2::lemma_pow2_strictly_increases(top_bit(m) + 1, 52);
        }
    }
    assert(spacing(m, x, 23, -149) == e - 150);
    assert(two_to(29) == 0x2000_0000);
    assert(m / 0x2000_0000 == f + 0x80_0000);
    assert(m % 0x2000_0000 == 0);
    assert(scaled(m, x - (e - 150)) == f + 0x80_0000);
    assert(two_to(23) == 0x80_0000);
    assert(packed(m, x, 23, -149) == (e - 1) * 0x80_0000 + (f + 0x80_0000));
}

/// A number of binary32 that is held in binary64 is rounded to itself: normal numbers, zeros and
/// infinities of either sign.
pub proof fn law_binary32_survives_binary64(negative: bool, e: int, f: int)
    requires
        0 < e < 0xff || (f == 0 && (e == 0 || e == 0xff)),
        0 <= f < 0x80_0000,
    ensures
        ({
            let sign = if negative {
                1int
            } else {
                0
            };
            let wide = if e == 0 {
                0
            } else if e == 0xff {
                0x7ff
            } else {
                e + 896
            };
            let v = Fp64 {
                bits: (sign * 0x8000_0000_0000_0000 + wide * 0x10_0000_0000_0000 + f
                    * 0x2000_0000) as u64,
            };
            fp32_of_fp64(v) == sign * 0x8000_0000 + e * 0x80_0000 + f
        }),
{
    let sign = if negative {
        1int
    } else {
        0
    };
    let wide = if e == 0 {
        0
    } else if e == 0xff {
        0x7ff
    } else {
        e + 896
    };
    let v = Fp64 {
        bits: (sign * 0x8000_0000_0000_0000 + wide * 0x10_0000_0000_0000 + f * 0x2000_0000) as u64,
    };
    assert(v.bits as int % 0x10_0000_0000_0000 == f * 0x2000_0000);
    assert(v.bits as int / 0x10_0000_0000_0000 == sign * 0x800 + wide);
    law_binary64_in_fields(v);
    if 0 < e < 0xff {
        lemma_binary32_magnitude(e, f);
        assert(wide - 1075 == e - 179);
    }
}

/// An integer is rounded by its absolute value, and keeps its sign.
pub proof fn law_integers_keep_their_sign(n: nat)
    ensures
        fp32_of_int(n as int) == fp32_magnitude(n, 0),
        n > 0 ==> fp32_of_int(-(n as int)) == 0x8000_0000 + fp32_of_int(n as int),
        n > 0 ==> fp64_of_int(-(n as int)) == 0x8000_0000_0000_0000 + fp64_of_int(n as int),
{
}

/// Whether a positive binary64 number is nearest to the integer `n`: it is that integer, or off
/// by half of its last place at most, and by a quarter where the next smaller number is twice
/// as near. Where two numbers are as near, it is the even one.
pub open spec fn is_nearest_fp64(bits: int, n: nat) -> bool {
    let s = bits % 0x10_0000_0000_0000 + 0x10_0000_0000_0000;
    let u = bits / 0x10_0000_0000_0000 - 1075;
    if u <= 0 {
        s == n * two_to((-u) as nat)
    } else {
        let d = two_to(u as nat);
        &&& -d <= 2 * (s * d - n) <= d
        &&& 2 * (s * d - n) == d || 2 * (s * d - n) == -d ==> s % 2 == 0
        &&& s == 0x10_0000_0000_0000 ==> 4 * (s * d - n) <= d
    }
}

/// A positive integer that is rounded to binary64 becomes the nearest of these numbers, and one
/// of less than 54 bits stays as it is.
pub proof fn law_binary64_integer_is_nearest(n: nat)
    requires
        n > 0,
    ensures
        is_nearest_fp64(fp64_of_int(n as int), n),
        n < 0x20_0000_0000_0000 ==> fp64_of_int(n as int) / 0x10_0000_0000_0000 <= 1075,
        fp64_of_int(0) == 0,
{
    let t = top_bit(n);
    let unit = t - 52;
    let k = scaled(n, -unit);
    let bits = fp64_of_int(n as int);
    vstd::arithmetic::power2::lemma2_to64();
    vstd::arithmetic::power2::lemma2_to64_rest();
    lemma_top_bit(n);
    if n < 0x20_0000_0000_0000 {
        lemma_top_bit_below(n, 53);
    }
    assert(spacing(n, 0, 52, -1074) == unit);
    assert(bits == (unit + 1074) * 0x10_0000_0000_0000 + k);
    if unit <= 0 {
        let up = (-unit) as nat;
        vstd::arithmetic::power2::lemma_pow2_adds(t, up);
        vstd::arithmetic::power2::lemma_pow2_adds(t + 1, up);
        vstd::arithmetic::power2::lemma_pow2_pos(up);
        assert(two_to(t) * two_to(up) <= n * two_to(up) < two_to(t + 1) * two_to(up))
            by (nonlinear_arith)
            requires
                two_to(t) <= n < two_to(t + 1),
                two_to(up) > 0,
        ;
        assert(0x10_0000_0000_0000 <= k < 0x20_0000_0000_0000);
        assert(bits / 0x10_0000_0000_0000 == unit + 1075);
        assert(bits % 0x10_0000_0000_0000 == k - 0x10_0000_0000_0000);
    } else {
        let d = two_to(unit as nat);
        vstd::arithmetic::power2::lemma_pow2_pos(unit as nat);
        vstd::arithmetic::power2::lemma_pow2_adds(52, unit as nat);
        vstd::arithmetic::power2::lemma_pow2_adds(53, unit as nat);
        assert(0x10_0000_0000_0000 * d <= n < 0x20_0000_0000_0000 * d);
        assert(0x10_0000_0000_0000 <= n / d < 0x20_0000_0000_0000) by (nonlinear_arith)
            requires
                0x10_0000_0000_0000 * d <= n < 0x20_0000_0000_0000 * d,
                d > 0,
        ;
        law_rounding_is_nearest(n, d);
        if k < 0x20_0000_0000_0000 {
            assert(bits / 0x10_0000_0000_0000 == unit + 1075);
            assert(bits % 0x10_0000_0000_0000 == k - 0x10_0000_0000_0000);
        } else {
            let s = 0x10_0000_0000_0000int;
            assert(k == 2 * s);
            assert(bits / 0x10_0000_0000_0000 == unit + 1076);
            assert(bits % 0x10_0000_0000_0000 == 0);
            vstd::arithmetic::power2::lemma_pow2_unfold((unit + 1) as nat);
            assert(two_to((unit + 1) as nat) == 2 * d);
            assert(k * d == s * (2 * d)) by (nonlinear_arith)
                requires
                    k == 2 * s,
            ;
        }
    }
}

} // verus!
