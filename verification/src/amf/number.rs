//! AMF numbers are IEEE 754 doubles. The client holds them as their 64 bits
//! and only ever needs whole numbers of 32 bits: these are the conversions.

use vstd::arithmetic::div_mod::lemma_div_denominator;
use vstd::arithmetic::mul::lemma_mul_strict_inequality;
use vstd::arithmetic::power2::{lemma2_to64, lemma2_to64_rest, lemma_pow2_pos, lemma_pow2_unfold, pow2};
use vstd::prelude::*;

verus! {

/// The weight of the exponent field in the bits of a double: 2^52.
pub const EXPONENT_UNIT: u64 = 0x10_0000_0000_0000;

/// The exponent field of 1.0.
pub const EXPONENT_BIAS: u64 = 1023;

/// The place of the highest set bit of `v`, counted from 0.
pub open spec fn spec_top_bit(v: nat) -> nat
    decreases v,
{
    if v < 2 {
        0
    } else {
        1 + spec_top_bit(v / 2)
    }
}

/// The bits of the double that equals `v`. Every 32-bit whole number is a
/// double: for `v > 0` with highest bit `e`, the exponent field is
/// `1023 + e` and the fraction is what `v` has below that bit, moved up to
/// the top of the 52 fraction bits.
pub open spec fn spec_number_from_u32(v: u32) -> u64 {
    if v == 0 {
        0
    } else {
        let e = spec_top_bit(v as nat);
        ((EXPONENT_BIAS + e) * EXPONENT_UNIT + (v - pow2(e)) * pow2((52 - e) as nat)) as u64
    }
}

/// The whole number that a double with the given bits is cut down to:
/// zero for a NaN, for anything negative and for anything below one; the
/// largest 32-bit number for anything from 2^32 up, infinity included;
/// else the double without what stands behind its point.
pub open spec fn spec_number_to_u32(bits: u64) -> u32 {
    let negative = bits / 0x8000_0000_0000_0000 == 1;
    let exponent = (bits / EXPONENT_UNIT) % 2048;
    let fraction = bits % EXPONENT_UNIT;
    if exponent == 2047 && fraction != 0 {
        0
    } else if negative || exponent < EXPONENT_BIAS {
        0
    } else if exponent >= EXPONENT_BIAS + 32 {
        u32::MAX
    } else {
        ((EXPONENT_UNIT + fraction) / (pow2((1075 - exponent) as nat) as int)) as u32
    }
}

/// The highest set bit of `v` is at `e` exactly when `v` lies between 2^e
/// and 2^(e+1).
pub proof fn lemma_top_bit(v: nat, e: nat)
    requires
        pow2(e) <= v < 2 * pow2(e),
    ensures
        spec_top_bit(v) == e,
    decreases e,
{
    lemma2_to64();
    if e == 0 {
    } else {
        lemma_pow2_unfold(e);
        lemma_top_bit(v / 2, (e - 1) as nat);
    }
}

/// The bits of the double that equals `v`.
pub fn number_from_u32(v: u32) -> (r: u64)
    ensures
        r == spec_number_from_u32(v),
{
    if v == 0 {
        return 0;
    }
    let mut e: u64 = 31;
    let mut p: u64 = 0x8000_0000;
    let mut q: u64 = 0x20_0000;
    proof {
        lemma2_to64();
    }
    while (v as u64) < p
        invariant
            v > 0,
            e <= 31,
            p == pow2(e as nat),
            q == pow2((52 - e) as nat),
            p * q == EXPONENT_UNIT,
            v < 2 * p,
            1 <= p <= 0x8000_0000,
        decreases e,
    {
        proof {
            if e == 0 {
                lemma2_to64();
                assert(p == 1);
                assert(false);
            }
            lemma_pow2_unfold(e as nat);
            lemma_pow2_unfold((52 - e + 1) as nat);
            assert((p / 2) * (q * 2) == p * q) by (nonlinear_arith)
                requires
                    p % 2 == 0,
            ;
            assert(q * 2 <= EXPONENT_UNIT) by (nonlinear_arith)
                requires
                    p * q == EXPONENT_UNIT,
                    p >= 2,
                    q >= 0,
            ;
        }
        e = e - 1;
        p = p / 2;
        q = q * 2;
    }
    proof {
        lemma_top_bit(v as nat, e as nat);
        lemma_mul_strict_inequality(v - p, p as int, q as int);
        assert((v - p) * q < EXPONENT_UNIT);
        assert((v - p) * q >= 0) by (nonlinear_arith)
            requires
                v - p >= 0,
                q >= 0,
        ;
    }
    (EXPONENT_BIAS + e) * EXPONENT_UNIT + (v as u64 - p) * q
}

/// The whole number that a double with the given bits is cut down to.
pub fn number_to_u32(bits: u64) -> (r: u32)
    ensures
        r == spec_number_to_u32(bits),
{
    let negative = bits / 0x8000_0000_0000_0000 == 1;
    let exponent = (bits / EXPONENT_UNIT) % 2048;
    let fraction = bits % EXPONENT_UNIT;
    if exponent == 2047 && fraction != 0 {
        return 0;
    }
    if negative || exponent < EXPONENT_BIAS {
        return 0;
    }
    if exponent >= EXPONENT_BIAS + 32 {
        return u32::MAX;
    }
    let shift: u64 = 1075 - exponent;
    let mut m: u64 = EXPONENT_UNIT + fraction;
    let mut done: u64 = 0;
    proof {
        lemma2_to64();
    }
    while done < shift
        invariant
            done <= shift,
            21 <= shift <= 52,
            m == (EXPONENT_UNIT + fraction) / (pow2(done as nat) as int),
            fraction < EXPONENT_UNIT,
        decreases shift - done,
    {
        proof {
            lemma_pow2_pos(done as nat);
            lemma_pow2_unfold((done + 1) as nat);
            lemma_div_denominator((EXPONENT_UNIT + fraction) as int, pow2(done as nat) as int, 2);
            assert(pow2(done as nat) * 2 == 2 * pow2(done as nat));
        }
        m = m / 2;
        done = done + 1;
    }
    proof {
        lemma2_to64();
        lemma2_to64_rest();
        lemma_pow2_pos(shift as nat);
        lemma_shifted_fits(fraction, shift);
    }
    m as u32
}

/// A double below 2^32 has a 32-bit whole part.
proof fn lemma_shifted_fits(fraction: u64, shift: u64)
    requires
        fraction < EXPONENT_UNIT,
        21 <= shift <= 52,
    ensures
        (EXPONENT_UNIT + fraction) / (pow2(shift as nat) as int) <= u32::MAX,
{
    lemma2_to64();
    lemma_pow2_pos(shift as nat);
    lemma_pow2_pos((shift - 21) as nat);
    vstd::arithmetic::power2::lemma_pow2_adds(21, (shift - 21) as nat);
    let d = pow2(shift as nat) as int;
    let x = (EXPONENT_UNIT + fraction) as int;
    assert(d >= 0x20_0000) by (nonlinear_arith)
        requires
            d == 0x20_0000 * pow2((shift - 21) as nat),
            pow2((shift - 21) as nat) >= 1,
    ;
    assert(x / d <= u32::MAX) by (nonlinear_arith)
        requires
            d >= 0x20_0000,
            0 <= x < 0x20_0000_0000_0000,
    ;
}

/// A whole number that is made a double and cut down again is the number
/// it was.
pub proof fn lemma_number_roundtrip(v: u32)
    ensures
        spec_number_to_u32(spec_number_from_u32(v)) == v,
{
    lemma2_to64();
    lemma2_to64_rest();
    if v != 0 {
        let e = spec_top_bit(v as nat);
        lemma_top_bit_bounds(v as nat);
        assert(e <= 31) by {
            if e > 32 {
                vstd::arithmetic::power2::lemma_pow2_strictly_increases(32, e);
            }
        }
        let p = pow2(e) as int;
        let q = pow2((52 - e) as nat) as int;
        let low = v - p;
        vstd::arithmetic::power2::lemma_pow2_adds(e, (52 - e) as nat);
        lemma_pow2_pos((52 - e) as nat);
        assert(p * q == 0x10_0000_0000_0000);
        assert(0 <= low * q < 0x10_0000_0000_0000) by (nonlinear_arith)
            requires
                0 <= low < p,
                q > 0,
                p * q == 0x10_0000_0000_0000,
        ;
        let fraction = low * q;
        let bits = (EXPONENT_BIAS + e) * EXPONENT_UNIT + fraction;
        assert(bits == spec_number_from_u32(v));
        assert(bits / 0x10_0000_0000_0000 == EXPONENT_BIAS + e && bits % 0x10_0000_0000_0000
            == fraction) by {
            vstd::arithmetic::div_mod::lemma_fundamental_div_mod_converse(
                bits,
                0x10_0000_0000_0000,
                (EXPONENT_BIAS + e) as int,
                fraction,
            );
        }
        assert((EXPONENT_UNIT + fraction) == v * q) by (nonlinear_arith)
            requires
                fraction == (v - p) * q,
                p * q == EXPONENT_UNIT,
        ;
        assert(1075 - (EXPONENT_BIAS + e) == 52 - e);
        assert((v * q) / q == v) by (nonlinear_arith)
            requires
                q > 0,
        ;
    }
}

/// A number lies between two to the place of its highest set bit and
/// twice that.
pub proof fn lemma_top_bit_bounds(v: nat)
    requires
        v >= 1,
    ensures
        pow2(spec_top_bit(v)) <= v < 2 * pow2(spec_top_bit(v)),
    decreases v,
{
    lemma2_to64();
    if v < 2 {
    } else {
        lemma_top_bit_bounds(v / 2);
        lemma_pow2_unfold(spec_top_bit(v));
    }
}

} // verus!
