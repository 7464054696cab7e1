//! CPU usage as a sample gives it: a percentage in IEEE 754 single
//! precision, held as its bit pattern.
//!
//! The library does no arithmetic in that format. It takes the pattern
//! apart, reads the number that it stands for as a whole multiple of
//! 2^-149, and compares it exactly with whole percentages and with other
//! samples. A pattern that stands for no number compares with nothing.

use vstd::arithmetic::power2::lemma2_to64;
use vstd::arithmetic::power2::lemma_pow2_adds;
use vstd::arithmetic::power2::lemma_pow2_pos;
use vstd::arithmetic::power2::lemma_pow2_strictly_increases;
use vstd::arithmetic::power2::lemma_pow2_unfold;
use vstd::arithmetic::power2::pow2;
use vstd::prelude::*;

verus! {

/// The patterns from here on carry the sign of a negative number.
pub const SIGN: u32 = 0x8000_0000;

/// How many fractions one exponent has: 2^23.
pub const FRACTIONS: u32 = 0x80_0000;

/// The exponent that marks infinity and the patterns that are no number.
pub const TOP_EXPONENT: u32 = 0xff;

/// The power of two to which one whole is scaled: a magnitude counts in
/// units of 2^-149, the smallest step of the format.
pub const UNIT_SCALE: u32 = 149;

/// The 23 low bits of the pattern.
pub open spec fn fraction(bits: u32) -> int {
    bits as int % 0x80_0000
}

/// The 8 bits above the fraction.
pub open spec fn exponent(bits: u32) -> int {
    (bits as int / 0x80_0000) % 0x100
}

/// The pattern carries the sign of a negative number.
pub open spec fn is_negative(bits: u32) -> bool {
    bits >= SIGN
}

/// The pattern stands for a number, finite or infinite.
pub open spec fn is_number(bits: u32) -> bool {
    exponent(bits) != 0xff || fraction(bits) == 0
}

/// The digits of the number: the fraction, with the leading one where the
/// exponent is not zero.
pub open spec fn significand(bits: u32) -> int {
    if exponent(bits) == 0 {
        fraction(bits)
    } else {
        0x80_0000 + fraction(bits)
    }
}

/// The power of two by which the digits are multiplied to give the magnitude.
pub open spec fn scale(bits: u32) -> nat {
    if exponent(bits) == 0 {
        0
    } else {
        (exponent(bits) - 1) as nat
    }
}

/// The size of the number without its sign, in units of 2^-149. Infinity
/// counts as 2^128, above every finite number.
pub open spec fn magnitude(bits: u32) -> int {
    significand(bits) * pow2(scale(bits))
}

/// A whole number of percent in the units of `magnitude`.
pub open spec fn whole(percent: int) -> int {
    percent * pow2(149)
}

/// The usage is a number greater than `percent`.
pub open spec fn exceeds(bits: u32, percent: u32) -> bool {
    is_number(bits) && !is_negative(bits) && magnitude(bits) > whole(percent as int)
}

/// The usage is a number less than `percent`.
pub open spec fn falls_short(bits: u32, percent: u32) -> bool {
    is_number(bits) && if is_negative(bits) {
        magnitude(bits) > 0 || percent > 0
    } else {
        magnitude(bits) < whole(percent as int)
    }
}

/// The usage is a number greater than half a percent.
pub open spec fn exceeds_half(bits: u32) -> bool {
    is_number(bits) && !is_negative(bits) && 2 * magnitude(bits) > whole(1)
}

/// The first usage is greater than the second, for usages that are not
/// negative.
pub open spec fn busier(first: u32, second: u32) -> bool {
    magnitude(first) > magnitude(second)
}

/// No usage is greater than a percentage and less than one that is not
/// higher.
pub proof fn lemma_exceeds_excludes_falls_short(bits: u32, high: u32, low: u32)
    requires
        low <= high,
    ensures
        !(exceeds(bits, high) && falls_short(bits, low)),
{
    lemma_pow2_pos(149);
    let unit = pow2(149) as int;
    assert(low as int * unit <= high as int * unit) by (nonlinear_arith)
        requires
            0 <= low <= high,
            unit > 0,
    ;
}

/// Among usages that are not negative, the greater number has the greater
/// pattern.
pub proof fn lemma_order_of_patterns(first: u32, second: u32)
    requires
        !is_negative(first),
        !is_negative(second),
    ensures
        first < second <==> magnitude(first) < magnitude(second),
        first == second <==> magnitude(first) == magnitude(second),
{
    if first < second {
        lemma_pattern_rises(first, second);
    } else if second < first {
        lemma_pattern_rises(second, first);
    }
}

/// A greater pattern stands for a greater magnitude.
proof fn lemma_pattern_rises(low: u32, high: u32)
    requires
        low < high,
        !is_negative(high),
    ensures
        magnitude(low) < magnitude(high),
{
    let low_scale = pow2(scale(low)) as int;
    let high_scale = pow2(scale(high)) as int;
    lemma_pow2_pos(scale(low));
    lemma_pow2_pos(scale(high));
    if exponent(low) == exponent(high) {
        assert(significand(low) * low_scale < significand(high) * low_scale) by (nonlinear_arith)
            requires
                significand(low) < significand(high),
                low_scale > 0,
        ;
        assert(magnitude(low) < magnitude(high));
    } else {
        assert(exponent(low) < exponent(high));
        assert(significand(high) * high_scale >= 0x80_0000 * high_scale) by (nonlinear_arith)
            requires
                significand(high) >= 0x80_0000,
                high_scale > 0,
        ;
        if exponent(low) == 0 {
            assert(low_scale == 1) by {
                lemma2_to64();
            }
            assert(0x80_0000 * high_scale >= 0x80_0000) by (nonlinear_arith)
                requires
                    high_scale >= 1,
            ;
            assert(magnitude(low) == significand(low));
            assert(magnitude(low) < magnitude(high));
        } else {
            let next_scale = pow2((scale(low) + 1) as nat) as int;
            lemma_pow2_unfold((scale(low) + 1) as nat);
            assert(next_scale == 2 * low_scale);
            if scale(low) + 1 < scale(high) {
                lemma_pow2_strictly_increases((scale(low) + 1) as nat, scale(high));
            }
            assert(next_scale <= high_scale);
            assert(significand(low) * low_scale < 0x100_0000 * low_scale) by (nonlinear_arith)
                requires
                    significand(low) < 0x100_0000,
                    low_scale > 0,
            ;
            assert(0x80_0000 * next_scale <= 0x80_0000 * high_scale) by (nonlinear_arith)
                requires
                    next_scale <= high_scale,
            ;
            assert(magnitude(low) < magnitude(high));
        }
    }
}

/// Whether the pattern stands for a number.
pub fn stands_for_number(bits: u32) -> (number: bool)
    ensures
        number == is_number(bits),
{
    (bits / FRACTIONS) % 0x100 != TOP_EXPONENT || bits % FRACTIONS == 0
}

/// The digits and the scale of the pattern.
fn digits_and_scale(bits: u32) -> (parts: (u64, u32))
    ensures
        parts.0 == significand(bits),
        parts.1 == scale(bits),
        parts.0 < 0x100_0000,
        parts.1 < 0xff,
{
    let exponent: u32 = (bits / FRACTIONS) % 0x100;
    let fraction: u32 = bits % FRACTIONS;
    if exponent == 0 {
        (fraction as u64, 0)
    } else {
        (FRACTIONS as u64 + fraction as u64, exponent - 1)
    }
}

/// Two to the power of `e`.
fn power_of_two(e: u32) -> (power: u64)
    requires
        e < 32,
    ensures
        power == pow2(e as nat),
        power < 0x1_0000_0000,
{
    proof {
        lemma2_to64();
    }
    let mut power: u64 = 1;
    let mut i: u32 = 0;
    while i < e
        invariant
            i <= e < 32,
            power == pow2(i as nat),
            power <= 0x8000_0000,
            pow2(31) == 0x8000_0000,
        decreases e - i,
    {
        proof {
            lemma_pow2_unfold((i + 1) as nat);
            if i + 1 < 31 {
                lemma_pow2_strictly_increases((i + 1) as nat, 31);
            }
        }
        power = power * 2;
        i = i + 1;
    }
    power
}

/// Whether `m` times two to the `s` is greater than `n` times two to the `t`.
fn scaled_greater(m: u64, s: u32, n: u64, t: u32) -> (greater: bool)
    requires
        m < 0x1_0000_0000,
        n < 0x1_0000_0000,
    ensures
        greater == (m * pow2(s as nat) > n * pow2(t as nat)),
{
    proof {
        lemma2_to64();
    }
    if s >= t {
        let d: u32 = s - t;
        proof {
            lemma_split_scale(m as int, n as int, d as nat, t as nat);
        }
        if d >= 32 {
            proof {
                if d > 32 {
                    lemma_pow2_strictly_increases(32, d as nat);
                }
                lemma_at_least(m as int, pow2(d as nat) as int);
            }
            m > 0
        } else {
            let power = power_of_two(d);
            assert(m * power < 0x1_0000_0000 * 0x1_0000_0000) by (nonlinear_arith)
                requires
                    m < 0x1_0000_0000,
                    power < 0x1_0000_0000,
            ;
            m * power > n
        }
    } else {
        let d: u32 = t - s;
        proof {
            lemma_split_scale(n as int, m as int, d as nat, s as nat);
        }
        if d >= 32 {
            proof {
                if d > 32 {
                    lemma_pow2_strictly_increases(32, d as nat);
                }
                lemma_at_least(n as int, pow2(d as nat) as int);
            }
            n == 0 && m > 0
        } else {
            let power = power_of_two(d);
            assert(n * power < 0x1_0000_0000 * 0x1_0000_0000) by (nonlinear_arith)
                requires
                    n < 0x1_0000_0000,
                    power < 0x1_0000_0000,
            ;
            m > n * power
        }
    }
}

/// Comparing at the scale `d + t` against the scale `t` is comparing at
/// the scale `d` against the plain number.
proof fn lemma_split_scale(m: int, n: int, d: nat, t: nat)
    ensures
        m * pow2(d + t) > n * pow2(t) <==> m * pow2(d) > n,
        m * pow2(d + t) < n * pow2(t) <==> m * pow2(d) < n,
{
    lemma_pow2_adds(d, t);
    lemma_pow2_pos(t);
    let high = pow2(d) as int;
    let low = pow2(t) as int;
    assert(m * (high * low) == (m * high) * low) by (nonlinear_arith);
    assert(((m * high) * low > n * low) == (m * high > n)) by (nonlinear_arith)
        requires
            low > 0,
    ;
    assert(((m * high) * low < n * low) == (m * high < n)) by (nonlinear_arith)
        requires
            low > 0,
    ;
}

/// A positive multiple of a number is at least that number, and no
/// multiple of it by nothing is positive.
proof fn lemma_at_least(m: int, power: int)
    requires
        0 <= m,
        0 <= power,
    ensures
        m > 0 ==> m * power >= power,
        m == 0 ==> m * power == 0,
{
    assert(m > 0 ==> m * power >= power) by (nonlinear_arith)
        requires
            0 <= m,
            0 <= power,
    ;
}

/// Whether the usage is a number greater than `percent`.
pub fn is_above(bits: u32, percent: u32) -> (above: bool)
    ensures
        above == exceeds(bits, percent),
{
    if bits >= SIGN || !stands_for_number(bits) {
        return false;
    }
    let parts = digits_and_scale(bits);
    scaled_greater(parts.0, parts.1, percent as u64, UNIT_SCALE)
}

/// Whether the usage is a number less than `percent`.
pub fn is_below(bits: u32, percent: u32) -> (below: bool)
    ensures
        below == falls_short(bits, percent),
{
    if !stands_for_number(bits) {
        return false;
    }
    let parts = digits_and_scale(bits);
    if bits >= SIGN {
        proof {
            lemma_pow2_pos(scale(bits));
            lemma_at_least(significand(bits), pow2(scale(bits)) as int);
        }
        parts.0 > 0 || percent > 0
    } else {
        scaled_greater(percent as u64, UNIT_SCALE, parts.0, parts.1)
    }
}

/// Whether the usage is a number greater than half a percent.
pub fn is_above_half(bits: u32) -> (above: bool)
    ensures
        above == exceeds_half(bits),
{
    if bits >= SIGN || !stands_for_number(bits) {
        return false;
    }
    let parts = digits_and_scale(bits);
    proof {
        lemma_pow2_unfold((scale(bits) + 1) as nat);
        assert(significand(bits) * (2 * pow2(scale(bits))) == 2 * (significand(bits) * pow2(
            scale(bits),
        ))) by (nonlinear_arith);
    }
    scaled_greater(parts.0, parts.1 + 1, 1, UNIT_SCALE)
}

} // verus!
