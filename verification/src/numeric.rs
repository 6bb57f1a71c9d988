//! The arithmetic of the machine, stated over mathematical integers.
//!
//! Integer results wrap in two's complement. Floating-point cells are bit
//! patterns; what can be read off a pattern exactly (its sign, whether it is a
//! number, how it orders, its integer part) is computed here. What needs
//! rounding to a floating-point format is not.

use crate::error::MistError;
use crate::value::MistValue;
use vstd::arithmetic::div_mod::{
    lemma_div_denominator, lemma_div_is_ordered, lemma_div_is_ordered_by_denominator,
    lemma_div_pos_is_pos,
};
use vstd::arithmetic::mul::lemma_mul_inequality;
use vstd::arithmetic::power2::{
    lemma2_to64, lemma_pow2_pos, lemma_pow2_strictly_increases, lemma_pow2_unfold, pow2,
};
use vstd::prelude::*;

verus! {

/// The 32-bit two's-complement number congruent to `x`.
pub open spec fn wrap_i32(x: int) -> i32 {
    let m = x % 0x1_0000_0000;
    if m >= 0x8000_0000 {
        (m - 0x1_0000_0000) as i32
    } else {
        m as i32
    }
}

/// The 64-bit two's-complement number congruent to `x`.
pub open spec fn wrap_i64(x: int) -> i64 {
    let m = x % 0x1_0000_0000_0000_0000;
    if m >= 0x8000_0000_0000_0000 {
        (m - 0x1_0000_0000_0000_0000) as i64
    } else {
        m as i64
    }
}

/// The 16-bit two's-complement number congruent to `x`.
pub open spec fn wrap_i16(x: int) -> i16 {
    let m = x % 0x1_0000;
    if m >= 0x8000 {
        (m - 0x1_0000) as i16
    } else {
        m as i16
    }
}

/// The 8-bit two's-complement number congruent to `x`.
pub open spec fn wrap_i8(x: int) -> i8 {
    let m = x % 0x100;
    if m >= 0x80 {
        (m - 0x100) as i8
    } else {
        m as i8
    }
}

/// The 16-bit unsigned number congruent to `x`.
pub open spec fn wrap_u16(x: int) -> u16 {
    (x % 0x1_0000) as u16
}

/// The quotient of `x` by `d` rounded toward zero, for `d` other than 0.
pub open spec fn trunc_div(x: int, d: int) -> int {
    if x >= 0 && d > 0 {
        x / d
    } else if x < 0 && d < 0 {
        (-x) / (-d)
    } else if x < 0 {
        -((-x) / d)
    } else {
        -(x / (-d))
    }
}

/// The remainder that goes with [`trunc_div`]: it has the sign of `x`.
pub open spec fn trunc_rem(x: int, d: int) -> int {
    if x >= 0 && d > 0 {
        x % d
    } else if x < 0 && d < 0 {
        -((-x) % (-d))
    } else if x < 0 {
        -((-x) % d)
    } else {
        x % (-d)
    }
}

/// The remainder is smaller in magnitude than the divisor and has the sign of
/// the dividend.
pub proof fn lemma_trunc_rem_bounds(x: int, d: int)
    requires
        d != 0,
    ensures
        x >= 0 ==> 0 <= trunc_rem(x, d) <= x,
        x <= 0 ==> x <= trunc_rem(x, d) <= 0,
        d > 0 ==> -d < trunc_rem(x, d) < d,
        d < 0 ==> d < trunc_rem(x, d) < -d,
{
    if x >= 0 && d > 0 {
        vstd::arithmetic::div_mod::lemma_mod_decreases(x as nat, d as nat);
    } else if x < 0 && d < 0 {
        vstd::arithmetic::div_mod::lemma_mod_decreases((-x) as nat, (-d) as nat);
    } else if x < 0 {
        vstd::arithmetic::div_mod::lemma_mod_decreases((-x) as nat, d as nat);
    } else {
        vstd::arithmetic::div_mod::lemma_mod_decreases(x as nat, (-d) as nat);
    }
}

/// The distance of a 32-bit shift: the low five bits of `count`.
pub open spec fn shift_distance_32(count: i32) -> u32 {
    (count as int % 32) as u32
}

/// The distance of a 64-bit shift: the low six bits of `count`.
pub open spec fn shift_distance_64(count: i32) -> u32 {
    (count as int % 64) as u32
}

/// The bits of a 32-bit number read as unsigned.
pub open spec fn unsigned_32(x: i32) -> u32 {
    if x < 0 {
        (x + 0x1_0000_0000) as u32
    } else {
        x as u32
    }
}

/// The bits of a 64-bit number read as unsigned.
pub open spec fn unsigned_64(x: i64) -> u64 {
    if x < 0 {
        (x + 0x1_0000_0000_0000_0000) as u64
    } else {
        x as u64
    }
}

/// The sum of two ints, wrapping.

pub fn add_i32(a: i32, b: i32) -> (r: i32)
    ensures
        r == wrap_i32(a + b),
{
    a.wrapping_add(b)
}

/// The difference of two ints, wrapping.

pub fn sub_i32(a: i32, b: i32) -> (r: i32)
    ensures
        r == wrap_i32(a - b),
{
    a.wrapping_sub(b)
}

/// The product of two ints, wrapping.

pub fn mul_i32(a: i32, b: i32) -> (r: i32)
    ensures
        r == wrap_i32(a * b),
{
    a.wrapping_mul(b)
}

/// Division rounding toward zero; the one quotient out of range,
/// -2147483648 / -1, wraps to -2147483648.
fn div_i32(a: i32, b: i32) -> (r: i32)
    requires
        b != 0,
    ensures
        r == wrap_i32(trunc_div(a as int, b as int)),
{
    match a.checked_div(b) {
        Some(q) => q,
        None => i32::MIN,
    }
}

fn rem_i32(a: i32, b: i32) -> (r: i32)
    requires
        b != 0,
    ensures
        r == wrap_i32(trunc_rem(a as int, b as int)),
{
    proof {
        lemma_trunc_rem_bounds(a as int, b as int);
    }
    match a.checked_rem(b) {
        Some(q) => q,
        None => 0,
    }
}

/// The distance of a 32-bit shift by `count`.

pub fn shift_count_32(count: i32) -> (r: u32)
    ensures
        r == shift_distance_32(count),
        r < 32,
{
    match count.checked_rem_euclid(32) {
        Some(q) => q as u32,
        None => 0,
    }
}

/// The distance of a 64-bit shift by `count`.

pub fn shift_count_64(count: i32) -> (r: u32)
    ensures
        r == shift_distance_64(count),
        r < 64,
{
    match count.checked_rem_euclid(64) {
        Some(q) => q as u32,
        None => 0,
    }
}

/// The int `a` shifted left by the low five bits of `count`.

pub fn shl_i32(a: i32, count: i32) -> (r: i32)
    ensures
        r == a << shift_distance_32(count),
{
    a.wrapping_shl(shift_count_32(count))
}

/// The int `a` shifted right by the low five bits of `count`, keeping its sign.

pub fn shr_i32(a: i32, count: i32) -> (r: i32)
    ensures
        r == a >> shift_distance_32(count),
{
    a.wrapping_shr(shift_count_32(count))
}

/// The bits of the int `x`, read as unsigned.

pub fn bits_of_i32(x: i32) -> (r: u32)
    ensures
        r == unsigned_32(x),
{
    if x < 0 {
        (x as i64 + 0x1_0000_0000) as u32
    } else {
        x as u32
    }
}

/// The int whose bits are `x`.

pub fn i32_of_bits(x: u32) -> (r: i32)
    ensures
        r == wrap_i32(x as int),
        unsigned_32(r) == x,
{
    if x >= 0x8000_0000 {
        (x as i64 - 0x1_0000_0000) as i32
    } else {
        x as i32
    }
}

/// The int `a` shifted right by the low five bits of `count`, filling with zeros.

pub fn ushr_i32(a: i32, count: i32) -> (r: i32)
    ensures
        r == wrap_i32((unsigned_32(a) >> shift_distance_32(count)) as int),
{
    i32_of_bits(bits_of_i32(a).wrapping_shr(shift_count_32(count)))
}

/// The sum of two longs, wrapping.

pub fn add_i64(a: i64, b: i64) -> (r: i64)
    ensures
        r == wrap_i64(a + b),
{
    a.wrapping_add(b)
}

/// The difference of two longs, wrapping.

pub fn sub_i64(a: i64, b: i64) -> (r: i64)
    ensures
        r == wrap_i64(a - b),
{
    a.wrapping_sub(b)
}

/// The product of two longs, wrapping.

pub fn mul_i64(a: i64, b: i64) -> (r: i64)
    ensures
        r == wrap_i64(a * b),
{
    a.wrapping_mul(b)
}

/// Division rounding toward zero; the one quotient out of range wraps to the
/// least long.
fn div_i64(a: i64, b: i64) -> (r: i64)
    requires
        b != 0,
    ensures
        r == wrap_i64(trunc_div(a as int, b as int)),
{
    match a.checked_div(b) {
        Some(q) => q,
        None => i64::MIN,
    }
}

fn rem_i64(a: i64, b: i64) -> (r: i64)
    requires
        b != 0,
    ensures
        r == wrap_i64(trunc_rem(a as int, b as int)),
{
    proof {
        lemma_trunc_rem_bounds(a as int, b as int);
    }
    match a.checked_rem(b) {
        Some(q) => q,
        None => 0,
    }
}

/// The long `a` shifted left by the low six bits of `count`.

pub fn shl_i64(a: i64, count: i32) -> (r: i64)
    ensures
        r == a << shift_distance_64(count),
{
    a.wrapping_shl(shift_count_64(count))
}

/// The long `a` shifted right by the low six bits of `count`, keeping its sign.

pub fn shr_i64(a: i64, count: i32) -> (r: i64)
    ensures
        r == a >> shift_distance_64(count),
{
    a.wrapping_shr(shift_count_64(count))
}

/// The bits of the long `x`, read as unsigned.

pub fn bits_of_i64(x: i64) -> (r: u64)
    ensures
        r == unsigned_64(x),
{
    if x < 0 {
        (x as i128 + 0x1_0000_0000_0000_0000) as u64
    } else {
        x as u64
    }
}

/// The long whose bits are `x`.

pub fn i64_of_bits(x: u64) -> (r: i64)
    ensures
        r == wrap_i64(x as int),
        unsigned_64(r) == x,
{
    if x >= 0x8000_0000_0000_0000 {
        (x as i128 - 0x1_0000_0000_0000_0000) as i64
    } else {
        x as i64
    }
}

/// The long `a` shifted right by the low six bits of `count`, filling with zeros.

pub fn ushr_i64(a: i64, count: i32) -> (r: i64)
    ensures
        r == wrap_i64((unsigned_64(a) >> shift_distance_64(count)) as int),
{
    i64_of_bits(bits_of_i64(a).wrapping_shr(shift_count_64(count)))
}

/// The long `x` cut down to its low 32 bits.
pub fn narrow_to_i32(x: i64) -> (r: i32)
    ensures
        r == wrap_i32(x as int),
{
    match x.checked_rem_euclid(0x1_0000_0000) {
        Some(m) => if m >= 0x8000_0000 {
            (m - 0x1_0000_0000) as i32
        } else {
            m as i32
        },
        None => 0,
    }
}

/// The int `x` cut down to its low 16 bits, read as signed.
pub fn narrow_to_i16(x: i32) -> (r: i16)
    ensures
        r == wrap_i16(x as int),
{
    match x.checked_rem_euclid(0x1_0000) {
        Some(m) => if m >= 0x8000 {
            (m - 0x1_0000) as i16
        } else {
            m as i16
        },
        None => 0,
    }
}

/// The int `x` cut down to its low 8 bits, read as signed.
pub fn narrow_to_i8(x: i32) -> (r: i8)
    ensures
        r == wrap_i8(x as int),
{
    match x.checked_rem_euclid(0x100) {
        Some(m) => if m >= 0x80 {
            (m - 0x100) as i8
        } else {
            m as i8
        },
        None => 0,
    }
}

/// The int `x` cut down to its low 16 bits, read as unsigned.
pub fn narrow_to_u16(x: i32) -> (r: u16)
    ensures
        r == wrap_u16(x as int),
{
    match x.checked_rem_euclid(0x1_0000) {
        Some(m) => m as u16,
        None => 0,
    }
}

/// Whether the pattern of a double is not a number: all exponent bits set and
/// a fraction other than zero.
pub open spec fn double_is_nan(bits: u64) -> bool {
    bits % 0x8000_0000_0000_0000 > 0x7ff0_0000_0000_0000
}

/// Whether the pattern of a float is not a number.
pub open spec fn float_is_nan(bits: u32) -> bool {
    bits % 0x8000_0000 > 0x7f80_0000
}

/// Where the double with the pattern `bits` stands among the doubles.
///
/// IEEE-754 lays its numbers out so that magnitude grows with the pattern read
/// without its sign bit; the rank negates that reading for a set sign bit.
/// Both zeros have rank 0, and of two numbers the lesser has the lesser rank.
pub open spec fn double_rank(bits: u64) -> int {
    if bits >= 0x8000_0000_0000_0000 {
        -(bits - 0x8000_0000_0000_0000)
    } else {
        bits as int
    }
}

/// Where the float with the pattern `bits` stands among the floats; see
/// [`double_rank`].
pub open spec fn float_rank(bits: u32) -> int {
    if bits >= 0x8000_0000 {
        -(bits - 0x8000_0000)
    } else {
        bits as int
    }
}

/// -1, 0 or 1 as `a` is less than, equal to or greater than `b`.
pub open spec fn three_way(a: int, b: int) -> i32 {
    if a < b {
        -1i32
    } else if a == b {
        0i32
    } else {
        1i32
    }
}

/// How two doubles order: [`three_way`] of their ranks, or `unordered` if
/// either is not a number.
pub open spec fn double_order(a: u64, b: u64, unordered: i32) -> i32 {
    if double_is_nan(a) || double_is_nan(b) {
        unordered
    } else {
        three_way(double_rank(a), double_rank(b))
    }
}

/// How two floats order; see [`double_order`].
pub open spec fn float_order(a: u32, b: u32, unordered: i32) -> i32 {
    if float_is_nan(a) || float_is_nan(b) {
        unordered
    } else {
        three_way(float_rank(a), float_rank(b))
    }
}

/// How two longs order: -1, 0 or 1.

pub fn order_i64(a: i64, b: i64) -> (r: i32)
    ensures
        r == three_way(a as int, b as int),
{
    if a < b {
        -1
    } else if a == b {
        0
    } else {
        1
    }
}

/// How two doubles order; see [`double_order`].

pub fn order_double(a: u64, b: u64, unordered: i32) -> (r: i32)
    ensures
        r == double_order(a, b, unordered),
{
    let ma: u64 = a % 0x8000_0000_0000_0000;
    let mb: u64 = b % 0x8000_0000_0000_0000;
    if ma > 0x7ff0_0000_0000_0000 || mb > 0x7ff0_0000_0000_0000 {
        unordered
    } else {
        let ra: i128 = if a >= 0x8000_0000_0000_0000 { -(ma as i128) } else { ma as i128 };
        let rb: i128 = if b >= 0x8000_0000_0000_0000 { -(mb as i128) } else { mb as i128 };
        if ra < rb {
            -1
        } else if ra == rb {
            0
        } else {
            1
        }
    }
}

/// How two floats order; see [`float_order`].

pub fn order_float(a: u32, b: u32, unordered: i32) -> (r: i32)
    ensures
        r == float_order(a, b, unordered),
{
    let ma: u32 = a % 0x8000_0000;
    let mb: u32 = b % 0x8000_0000;
    if ma > 0x7f80_0000 || mb > 0x7f80_0000 {
        unordered
    } else {
        let ra: i64 = if a >= 0x8000_0000 { -(ma as i64) } else { ma as i64 };
        let rb: i64 = if b >= 0x8000_0000 { -(mb as i64) } else { mb as i64 };
        if ra < rb {
            -1
        } else if ra == rb {
            0
        } else {
            1
        }
    }
}

/// The pattern `bits` with its sign bit flipped: the negated double.
pub open spec fn double_negated(bits: u64) -> u64 {
    if bits >= 0x8000_0000_0000_0000 {
        (bits - 0x8000_0000_0000_0000) as u64
    } else {
        (bits + 0x8000_0000_0000_0000) as u64
    }
}

/// The pattern `bits` with its sign bit flipped: the negated float.
pub open spec fn float_negated(bits: u32) -> u32 {
    if bits >= 0x8000_0000 {
        (bits - 0x8000_0000) as u32
    } else {
        (bits + 0x8000_0000) as u32
    }
}

/// The double with the pattern `bits`, negated.

pub fn negate_double(bits: u64) -> (r: u64)
    ensures
        r == double_negated(bits),
{
    if bits >= 0x8000_0000_0000_0000 {
        bits - 0x8000_0000_0000_0000
    } else {
        bits + 0x8000_0000_0000_0000
    }
}

/// The float with the pattern `bits`, negated.

pub fn negate_float(bits: u32) -> (r: u32)
    ensures
        r == float_negated(bits),
{
    if bits >= 0x8000_0000 {
        bits - 0x8000_0000
    } else {
        bits + 0x8000_0000
    }
}

/// `m` times two to the power of `k`, rounded down where `k` is negative.
pub open spec fn scaled(m: int, k: int) -> int {
    if k >= 0 {
        m * pow2(k as nat)
    } else {
        m / (pow2((-k) as nat) as int)
    }
}

/// `x` brought into the range from `low` to `high`.
pub open spec fn clamped(x: int, low: int, high: int) -> int {
    if x < low {
        low
    } else if x > high {
        high
    } else {
        x
    }
}

/// The exponent field of a double: the eleven bits under the sign.
pub open spec fn double_exponent(bits: u64) -> int {
    ((bits / 0x10_0000_0000_0000) % 0x800) as int
}

/// The fraction field of a double: its low 52 bits.
pub open spec fn double_fraction(bits: u64) -> int {
    (bits % 0x10_0000_0000_0000) as int
}

/// The exponent field of a float: the eight bits under the sign.
pub open spec fn float_exponent(bits: u32) -> int {
    ((bits / 0x80_0000) % 0x100) as int
}

/// The fraction field of a float: its low 23 bits.
pub open spec fn float_fraction(bits: u32) -> int {
    (bits % 0x80_0000) as int
}

/// The integer part of the magnitude of the double with the pattern `bits`.
///
/// A double of exponent field `e` and fraction `f` has the magnitude
/// `(2^52 + f) * 2^(e - 1075)`; below the exponent 1023 the magnitude is less
/// than 1, zero and the subnormal numbers included. The integer part of an
/// infinity is a number beyond every long.
pub open spec fn double_integer_part(bits: u64) -> int {
    if double_exponent(bits) < 1023 {
        0
    } else {
        scaled(0x10_0000_0000_0000 + double_fraction(bits), double_exponent(bits) - 1075)
    }
}

/// The double with the pattern `bits` rounded toward zero; 0 if it is not a
/// number.
pub open spec fn double_truncated(bits: u64) -> int {
    if double_is_nan(bits) {
        0
    } else if bits >= 0x8000_0000_0000_0000 {
        -double_integer_part(bits)
    } else {
        double_integer_part(bits)
    }
}

/// The integer part of the magnitude of the float with the pattern `bits`.
///
/// A float of exponent field `e` and fraction `f` has the magnitude
/// `(2^23 + f) * 2^(e - 150)`; below the exponent 127 the magnitude is less
/// than 1.
pub open spec fn float_integer_part(bits: u32) -> int {
    if float_exponent(bits) < 127 {
        0
    } else {
        scaled(0x80_0000 + float_fraction(bits), float_exponent(bits) - 150)
    }
}

/// The float with the pattern `bits` rounded toward zero; 0 if it is not a
/// number.
pub open spec fn float_truncated(bits: u32) -> int {
    if float_is_nan(bits) {
        0
    } else if bits >= 0x8000_0000 {
        -float_integer_part(bits)
    } else {
        float_integer_part(bits)
    }
}

/// The int nearest to `x`: `x` itself within the range of the ints, else the
/// least or the greatest int.
pub open spec fn saturated_i32(x: int) -> i32 {
    clamped(x, i32::MIN as int, i32::MAX as int) as i32
}

/// The long nearest to `x`.
pub open spec fn saturated_i64(x: int) -> i64 {
    clamped(x, i64::MIN as int, i64::MAX as int) as i64
}

/// Scaling keeps a number that is not negative so.
pub proof fn lemma_scaled_is_no_less_than_zero(m: int, k: int)
    requires
        m >= 0,
    ensures
        scaled(m, k) >= 0,
{
    if k >= 0 {
        lemma_pow2_pos(k as nat);
        lemma_mul_inequality(0, pow2(k as nat) as int, m);
        assert(m * pow2(k as nat) == pow2(k as nat) * m) by (nonlinear_arith);
    } else {
        lemma_pow2_pos((-k) as nat);
        lemma_div_pos_is_pos(m, pow2((-k) as nat) as int);
    }
}

/// `m` halved `times` times, rounding down each time.
fn halved(m: u64, times: u32) -> (r: u64)
    ensures
        r == m as int / (pow2(times as nat) as int),
{
    let mut p = m;
    let mut i: u32 = 0;
    proof {
        lemma2_to64();
    }
    while i < times
        invariant
            i <= times,
            p == m as int / (pow2(i as nat) as int),
        decreases times - i,
    {
        proof {
            lemma_pow2_pos(i as nat);
            lemma_pow2_unfold((i + 1) as nat);
            lemma_div_denominator(m as int, pow2(i as nat) as int, 2);
        }
        p = p / 2;
        i += 1;
    }
    p
}

/// `m` doubled `times` times, or 2^63 if that is less.
fn doubled(m: u64, times: u32) -> (r: u64)
    requires
        m >= 1,
    ensures
        r == clamped(m * pow2(times as nat), 0, 0x8000_0000_0000_0000),
{
    let mut p = m;
    let mut i: u32 = 0;
    proof {
        lemma2_to64();
    }
    if p >= 0x8000_0000_0000_0000 {
        proof {
            lemma_pow2_pos(times as nat);
            lemma_mul_inequality(1, pow2(times as nat) as int, m as int);
        }
        return 0x8000_0000_0000_0000;
    }
    while i < times
        invariant
            i <= times,
            m >= 1,
            p == m * pow2(i as nat),
            p < 0x8000_0000_0000_0000,
        decreases times - i,
    {
        proof {
            lemma_pow2_unfold((i + 1) as nat);
            assert(m * pow2((i + 1) as nat) == 2 * (m * pow2(i as nat))) by (nonlinear_arith)
                requires
                    pow2((i + 1) as nat) == 2 * pow2(i as nat),
            ;
        }
        if p >= 0x4000_0000_0000_0000 {
            proof {
                if i + 1 < times {
                    lemma_pow2_strictly_increases((i + 1) as nat, times as nat);
                }
                lemma_mul_inequality(
                    pow2((i + 1) as nat) as int,
                    pow2(times as nat) as int,
                    m as int,
                );
                assert(m * pow2((i + 1) as nat) == pow2((i + 1) as nat) * m) by (nonlinear_arith);
                assert(m * pow2(times as nat) == pow2(times as nat) * m) by (nonlinear_arith);
            }
            return 0x8000_0000_0000_0000;
        }
        p = p * 2;
        i += 1;
    }
    p
}

/// `scaled(m, k)`, or 2^63 if that is less.
fn integer_part(m: u64, k: i32) -> (r: u64)
    requires
        1 <= m < 0x8000_0000_0000_0000,
        -0x1000 < k < 0x1000,
    ensures
        r == clamped(scaled(m as int, k as int), 0, 0x8000_0000_0000_0000),
        scaled(m as int, k as int) >= 0,
{
    proof {
        lemma_scaled_is_no_less_than_zero(m as int, k as int);
    }
    if k >= 0 {
        doubled(m, k as u32)
    } else {
        let r = halved(m, (-k) as u32);
        proof {
            lemma_pow2_pos((-k) as nat);
            lemma_div_pos_is_pos(m as int, pow2((-k) as nat) as int);
            lemma_div_is_ordered_by_denominator(m as int, 1, pow2((-k) as nat) as int);
        }
        r
    }
}

/// The long of magnitude `part`, which is capped at 2^63, and of the given
/// sign, saturated.
fn signed_part(negative: bool, part: u64) -> (r: i64)
    requires
        part <= 0x8000_0000_0000_0000,
    ensures
        !negative ==> r == saturated_i64(part as int),
        negative ==> r == saturated_i64(-(part as int)),
{
    if part >= 0x8000_0000_0000_0000 {
        if negative {
            i64::MIN
        } else {
            i64::MAX
        }
    } else if negative {
        -(part as i64)
    } else {
        part as i64
    }
}

/// The double with the pattern `bits` as a long: rounded toward zero, 0 if it
/// is not a number, the nearest long if it is out of range.
pub fn double_to_i64(bits: u64) -> (r: i64)
    ensures
        r == saturated_i64(double_truncated(bits)),
{
    let magnitude: u64 = bits % 0x8000_0000_0000_0000;
    if magnitude > 0x7ff0_0000_0000_0000 {
        return 0;
    }
    let exponent: u64 = (bits / 0x10_0000_0000_0000) % 0x800;
    let fraction: u64 = bits % 0x10_0000_0000_0000;
    let negative = bits >= 0x8000_0000_0000_0000;
    if exponent < 1023 {
        return 0;
    }
    let part = integer_part(0x10_0000_0000_0000 + fraction, exponent as i32 - 1075);
    proof {
        let x = scaled(0x10_0000_0000_0000 + fraction as int, exponent as int - 1075);
        assert(saturated_i64(clamped(x, 0, 0x8000_0000_0000_0000)) == saturated_i64(x));
        assert(saturated_i64(-clamped(x, 0, 0x8000_0000_0000_0000)) == saturated_i64(-x));
    }
    signed_part(negative, part)
}

/// The float with the pattern `bits` as a long; see [`double_to_i64`].
pub fn float_to_i64(bits: u32) -> (r: i64)
    ensures
        r == saturated_i64(float_truncated(bits)),
{
    let magnitude: u32 = bits % 0x8000_0000;
    if magnitude > 0x7f80_0000 {
        return 0;
    }
    let exponent: u32 = (bits / 0x80_0000) % 0x100;
    let fraction: u32 = bits % 0x80_0000;
    let negative = bits >= 0x8000_0000;
    if exponent < 127 {
        return 0;
    }
    let part = integer_part((0x80_0000 + fraction) as u64, exponent as i32 - 150);
    proof {
        let x = scaled(0x80_0000 + fraction as int, exponent as int - 150);
        assert(saturated_i64(clamped(x, 0, 0x8000_0000_0000_0000)) == saturated_i64(x));
        assert(saturated_i64(-clamped(x, 0, 0x8000_0000_0000_0000)) == saturated_i64(-x));
    }
    signed_part(negative, part)
}

/// The long `x` as an int, the nearest int if it is out of range.
fn saturate_to_i32(x: i64) -> (r: i32)
    ensures
        r == saturated_i32(x as int),
{
    if x < i32::MIN as i64 {
        i32::MIN
    } else if x > i32::MAX as i64 {
        i32::MAX
    } else {
        x as i32
    }
}

/// The double with the pattern `bits` as an int: rounded toward zero, 0 if it
/// is not a number, the nearest int if it is out of range.
pub fn double_to_i32(bits: u64) -> (r: i32)
    ensures
        r == saturated_i32(double_truncated(bits)),
{
    saturate_to_i32(double_to_i64(bits))
}

/// The float with the pattern `bits` as an int; see [`double_to_i32`].
pub fn float_to_i32(bits: u32) -> (r: i32)
    ensures
        r == saturated_i32(float_truncated(bits)),
{
    saturate_to_i32(float_to_i64(bits))
}

/// The instructions that take two operands off the stack and leave one
/// result, computed here.
#[derive(Clone, Copy, Debug, PartialEq, Eq, Structural)]
pub enum BinaryOp {
    IntAdd,
    IntSub,
    IntMul,
    IntDiv,
    IntRem,
    IntAnd,
    IntOr,
    IntXor,
    IntShl,
    IntShr,
    IntUshr,
    LongAdd,
    LongSub,
    LongMul,
    LongDiv,
    LongRem,
    LongAnd,
    LongOr,
    LongXor,
    LongShl,
    LongShr,
    LongUshr,
    /// Three-way comparison of two longs.
    LongCompare,
    /// Three-way comparison of two floats; -1 if either is not a number.
    FloatCompareLow,
    /// Three-way comparison of two floats; 1 if either is not a number.
    FloatCompareHigh,
    /// Three-way comparison of two doubles; -1 if either is not a number.
    DoubleCompareLow,
    /// Three-way comparison of two doubles; 1 if either is not a number.
    DoubleCompareHigh,
}

/// The instructions that replace the top of the stack by a value computed
/// here from it.
#[derive(Clone, Copy, Debug, PartialEq, Eq, Structural)]
pub enum UnaryOp {
    IntNeg,
    LongNeg,
    FloatNeg,
    DoubleNeg,
    IntToByte,
    IntToChar,
    IntToShort,
    IntToLong,
    LongToInt,
    FloatToInt,
    FloatToLong,
    DoubleToInt,
    DoubleToLong,
}

/// What an int instruction makes of `a` and `b`.
pub open spec fn int_result(op: BinaryOp, a: i32, b: i32) -> Result<i32, MistError> {
    match op {
        BinaryOp::IntAdd => Ok(wrap_i32(a + b)),
        BinaryOp::IntSub => Ok(wrap_i32(a - b)),
        BinaryOp::IntMul => Ok(wrap_i32(a * b)),
        BinaryOp::IntDiv => if b == 0 {
            Err(MistError::ArithmeticError)
        } else {
            Ok(wrap_i32(trunc_div(a as int, b as int)))
        },
        BinaryOp::IntRem => if b == 0 {
            Err(MistError::ArithmeticError)
        } else {
            Ok(wrap_i32(trunc_rem(a as int, b as int)))
        },
        BinaryOp::IntAnd => Ok(a & b),
        BinaryOp::IntOr => Ok(a | b),
        BinaryOp::IntXor => Ok(a ^ b),
        BinaryOp::IntShl => Ok(a << shift_distance_32(b)),
        BinaryOp::IntShr => Ok(a >> shift_distance_32(b)),
        BinaryOp::IntUshr => Ok(wrap_i32((unsigned_32(a) >> shift_distance_32(b)) as int)),
        _ => Err(MistError::TypeMismatch),
    }
}

/// What a long instruction makes of `a` and `b`.
pub open spec fn long_result(op: BinaryOp, a: i64, b: i64) -> Result<i64, MistError> {
    match op {
        BinaryOp::LongAdd => Ok(wrap_i64(a + b)),
        BinaryOp::LongSub => Ok(wrap_i64(a - b)),
        BinaryOp::LongMul => Ok(wrap_i64(a * b)),
        BinaryOp::LongDiv => if b == 0 {
            Err(MistError::ArithmeticError)
        } else {
            Ok(wrap_i64(trunc_div(a as int, b as int)))
        },
        BinaryOp::LongRem => if b == 0 {
            Err(MistError::ArithmeticError)
        } else {
            Ok(wrap_i64(trunc_rem(a as int, b as int)))
        },
        BinaryOp::LongAnd => Ok(a & b),
        BinaryOp::LongOr => Ok(a | b),
        BinaryOp::LongXor => Ok(a ^ b),
        _ => Err(MistError::TypeMismatch),
    }
}

/// What a long shift makes of `a` moved by `count`.
pub open spec fn long_shift_result(op: BinaryOp, a: i64, count: i32) -> Result<i64, MistError> {
    match op {
        BinaryOp::LongShl => Ok(a << shift_distance_64(count)),
        BinaryOp::LongShr => Ok(a >> shift_distance_64(count)),
        BinaryOp::LongUshr => Ok(wrap_i64((unsigned_64(a) >> shift_distance_64(count)) as int)),
        _ => Err(MistError::TypeMismatch),
    }
}

/// Whether `op` is one of the three long shifts.
pub open spec fn is_long_shift(op: BinaryOp) -> bool {
    op == BinaryOp::LongShl || op == BinaryOp::LongShr || op == BinaryOp::LongUshr
}

/// The result of the instruction `op` on the operands `lhs` and `rhs`, the
/// first the one pushed first.
///
/// The int instructions take two ints and the long instructions two longs;
/// a long shift takes its distance as an int or as a long, of which only the
/// low six bits count. The comparisons give an int. Operands of any other
/// kind are a `TypeMismatch`, and a zero divisor is an `ArithmeticError`.
pub open spec fn binary_value(op: BinaryOp, lhs: MistValue, rhs: MistValue) -> Result<
    MistValue,
    MistError,
> {
    match (lhs, rhs) {
        (MistValue::Integer(a), MistValue::Integer(b)) => match int_result(op, a, b) {
            Ok(v) => Ok(MistValue::Integer(v)),
            Err(e) => Err(e),
        },
        (MistValue::Long(a), MistValue::Integer(b)) => match long_shift_result(op, a, b) {
            Ok(v) => Ok(MistValue::Long(v)),
            Err(e) => Err(e),
        },
        (MistValue::Long(a), MistValue::Long(b)) => if op == BinaryOp::LongCompare {
            Ok(MistValue::Integer(three_way(a as int, b as int)))
        } else if is_long_shift(op) {
            match long_shift_result(op, a, wrap_i32(b as int)) {
                Ok(v) => Ok(MistValue::Long(v)),
                Err(e) => Err(e),
            }
        } else {
            match long_result(op, a, b) {
                Ok(v) => Ok(MistValue::Long(v)),
                Err(e) => Err(e),
            }
        },
        (MistValue::Float(a), MistValue::Float(b)) => if op == BinaryOp::FloatCompareLow {
            Ok(MistValue::Integer(float_order(a, b, -1i32)))
        } else if op == BinaryOp::FloatCompareHigh {
            Ok(MistValue::Integer(float_order(a, b, 1i32)))
        } else {
            Err(MistError::TypeMismatch)
        },
        (MistValue::Double(a), MistValue::Double(b)) => if op == BinaryOp::DoubleCompareLow {
            Ok(MistValue::Integer(double_order(a, b, -1i32)))
        } else if op == BinaryOp::DoubleCompareHigh {
            Ok(MistValue::Integer(double_order(a, b, 1i32)))
        } else {
            Err(MistError::TypeMismatch)
        },
        _ => Err(MistError::TypeMismatch),
    }
}

/// The result of the instruction `op` on the operand `v`.
///
/// Negation of an int or a long wraps; negation of a float or a double flips
/// the sign bit. Narrowing an int or a long keeps the low bits; widening
/// keeps the value. A float or a double becomes an int or a long by rounding
/// toward zero: what is not a number becomes 0, and what is out of range the
/// nearest number of the range. An operand of another kind than `op` takes
/// is a `TypeMismatch`.
pub open spec fn unary_value(op: UnaryOp, v: MistValue) -> Result<MistValue, MistError> {
    match (op, v) {
        (UnaryOp::IntNeg, MistValue::Integer(a)) => Ok(MistValue::Integer(wrap_i32(-a))),
        (UnaryOp::LongNeg, MistValue::Long(a)) => Ok(MistValue::Long(wrap_i64(-a))),
        (UnaryOp::FloatNeg, MistValue::Float(a)) => Ok(MistValue::Float(float_negated(a))),
        (UnaryOp::DoubleNeg, MistValue::Double(a)) => Ok(MistValue::Double(double_negated(a))),
        (UnaryOp::IntToByte, MistValue::Integer(a)) => Ok(MistValue::Byte(wrap_i8(a as int))),
        (UnaryOp::IntToChar, MistValue::Integer(a)) => Ok(MistValue::Char(wrap_u16(a as int))),
        (UnaryOp::IntToShort, MistValue::Integer(a)) => Ok(MistValue::Short(wrap_i16(a as int))),
        (UnaryOp::IntToLong, MistValue::Integer(a)) => Ok(MistValue::Long(a as i64)),
        (UnaryOp::LongToInt, MistValue::Long(a)) => Ok(MistValue::Integer(wrap_i32(a as int))),
        (UnaryOp::FloatToInt, MistValue::Float(a)) => Ok(
            MistValue::Integer(saturated_i32(float_truncated(a))),
        ),
        (UnaryOp::FloatToLong, MistValue::Float(a)) => Ok(
            MistValue::Long(saturated_i64(float_truncated(a))),
        ),
        (UnaryOp::DoubleToInt, MistValue::Double(a)) => Ok(
            MistValue::Integer(saturated_i32(double_truncated(a))),
        ),
        (UnaryOp::DoubleToLong, MistValue::Double(a)) => Ok(
            MistValue::Long(saturated_i64(double_truncated(a))),
        ),
        _ => Err(MistError::TypeMismatch),
    }
}

fn compute_int(op: BinaryOp, a: i32, b: i32) -> (r: Result<i32, MistError>)
    ensures
        r == int_result(op, a, b),
{
    match op {
        BinaryOp::IntAdd => Ok(add_i32(a, b)),
        BinaryOp::IntSub => Ok(sub_i32(a, b)),
        BinaryOp::IntMul => Ok(mul_i32(a, b)),
        BinaryOp::IntDiv => if b == 0 {
            Err(MistError::ArithmeticError)
        } else {
            Ok(div_i32(a, b))
        },
        BinaryOp::IntRem => if b == 0 {
            Err(MistError::ArithmeticError)
        } else {
            Ok(rem_i32(a, b))
        },
        BinaryOp::IntAnd => Ok(a & b),
        BinaryOp::IntOr => Ok(a | b),
        BinaryOp::IntXor => Ok(a ^ b),
        BinaryOp::IntShl => Ok(shl_i32(a, b)),
        BinaryOp::IntShr => Ok(shr_i32(a, b)),
        BinaryOp::IntUshr => Ok(ushr_i32(a, b)),
        _ => Err(MistError::TypeMismatch),
    }
}

fn compute_long(op: BinaryOp, a: i64, b: i64) -> (r: Result<i64, MistError>)
    ensures
        r == long_result(op, a, b),
{
    match op {
        BinaryOp::LongAdd => Ok(add_i64(a, b)),
        BinaryOp::LongSub => Ok(sub_i64(a, b)),
        BinaryOp::LongMul => Ok(mul_i64(a, b)),
        BinaryOp::LongDiv => if b == 0 {
            Err(MistError::ArithmeticError)
        } else {
            Ok(div_i64(a, b))
        },
        BinaryOp::LongRem => if b == 0 {
            Err(MistError::ArithmeticError)
        } else {
            Ok(rem_i64(a, b))
        },
        BinaryOp::LongAnd => Ok(a & b),
        BinaryOp::LongOr => Ok(a | b),
        BinaryOp::LongXor => Ok(a ^ b),
        _ => Err(MistError::TypeMismatch),
    }
}

fn compute_long_shift(op: BinaryOp, a: i64, count: i32) -> (r: Result<i64, MistError>)
    ensures
        r == long_shift_result(op, a, count),
{
    match op {
        BinaryOp::LongShl => Ok(shl_i64(a, count)),
        BinaryOp::LongShr => Ok(shr_i64(a, count)),
        BinaryOp::LongUshr => Ok(ushr_i64(a, count)),
        _ => Err(MistError::TypeMismatch),
    }
}

fn long_cell(r: Result<i64, MistError>) -> (v: Result<MistValue, MistError>)
    ensures
        v == (match r {
            Ok(x) => Ok::<MistValue, MistError>(MistValue::Long(x)),
            Err(e) => Err(e),
        }),
{
    match r {
        Ok(x) => Ok(MistValue::Long(x)),
        Err(e) => Err(e),
    }
}

/// Computes [`binary_value`].
pub fn apply_binary(op: BinaryOp, lhs: MistValue, rhs: MistValue) -> (r: Result<
    MistValue,
    MistError,
>)
    ensures
        r == binary_value(op, lhs, rhs),
{
    match (lhs, rhs) {
        (MistValue::Integer(a), MistValue::Integer(b)) => match compute_int(op, a, b) {
            Ok(v) => Ok(MistValue::Integer(v)),
            Err(e) => Err(e),
        },
        (MistValue::Long(a), MistValue::Integer(b)) => long_cell(compute_long_shift(op, a, b)),
        (MistValue::Long(a), MistValue::Long(b)) => match op {
            BinaryOp::LongCompare => Ok(MistValue::Integer(order_i64(a, b))),
            BinaryOp::LongShl | BinaryOp::LongShr | BinaryOp::LongUshr => long_cell(
                compute_long_shift(op, a, narrow_to_i32(b)),
            ),
            _ => long_cell(compute_long(op, a, b)),
        },
        (MistValue::Float(a), MistValue::Float(b)) => match op {
            BinaryOp::FloatCompareLow => Ok(MistValue::Integer(order_float(a, b, -1))),
            BinaryOp::FloatCompareHigh => Ok(MistValue::Integer(order_float(a, b, 1))),
            _ => Err(MistError::TypeMismatch),
        },
        (MistValue::Double(a), MistValue::Double(b)) => match op {
            BinaryOp::DoubleCompareLow => Ok(MistValue::Integer(order_double(a, b, -1))),
            BinaryOp::DoubleCompareHigh => Ok(MistValue::Integer(order_double(a, b, 1))),
            _ => Err(MistError::TypeMismatch),
        },
        _ => Err(MistError::TypeMismatch),
    }
}

/// Computes [`unary_value`].
pub fn apply_unary(op: UnaryOp, v: MistValue) -> (r: Result<MistValue, MistError>)
    ensures
        r == unary_value(op, v),
{
    match (op, v) {
        (UnaryOp::IntNeg, MistValue::Integer(a)) => Ok(MistValue::Integer(sub_i32(0, a))),
        (UnaryOp::LongNeg, MistValue::Long(a)) => Ok(MistValue::Long(sub_i64(0, a))),
        (UnaryOp::FloatNeg, MistValue::Float(a)) => Ok(MistValue::Float(negate_float(a))),
        (UnaryOp::DoubleNeg, MistValue::Double(a)) => Ok(MistValue::Double(negate_double(a))),
        (UnaryOp::IntToByte, MistValue::Integer(a)) => Ok(MistValue::Byte(narrow_to_i8(a))),
        (UnaryOp::IntToChar, MistValue::Integer(a)) => Ok(MistValue::Char(narrow_to_u16(a))),
        (UnaryOp::IntToShort, MistValue::Integer(a)) => Ok(MistValue::Short(narrow_to_i16(a))),
        (UnaryOp::IntToLong, MistValue::Integer(a)) => Ok(MistValue::Long(a as i64)),
        (UnaryOp::LongToInt, MistValue::Long(a)) => Ok(MistValue::Integer(narrow_to_i32(a))),
        (UnaryOp::FloatToInt, MistValue::Float(a)) => Ok(MistValue::Integer(float_to_i32(a))),
        (UnaryOp::FloatToLong, MistValue::Float(a)) => Ok(MistValue::Long(float_to_i64(a))),
        (UnaryOp::DoubleToInt, MistValue::Double(a)) => Ok(MistValue::Integer(double_to_i32(a))),
        (UnaryOp::DoubleToLong, MistValue::Double(a)) => Ok(MistValue::Long(double_to_i64(a))),
        _ => Err(MistError::TypeMismatch),
    }
}

/// A zero divisor is an `ArithmeticError` for the quotient and for the
/// remainder, of ints and of longs, whatever the dividend; any other divisor
/// gives a result.
pub proof fn lemma_division_by_zero(a: i32, b: i32, c: i64, d: i64)
    ensures
        b == 0 <==> binary_value(BinaryOp::IntDiv, MistValue::Integer(a), MistValue::Integer(b))
            == Err::<MistValue, MistError>(MistError::ArithmeticError),
        b == 0 <==> binary_value(BinaryOp::IntRem, MistValue::Integer(a), MistValue::Integer(b))
            == Err::<MistValue, MistError>(MistError::ArithmeticError),
        d == 0 <==> binary_value(BinaryOp::LongDiv, MistValue::Long(c), MistValue::Long(d))
            == Err::<MistValue, MistError>(MistError::ArithmeticError),
        d == 0 <==> binary_value(BinaryOp::LongRem, MistValue::Long(c), MistValue::Long(d))
            == Err::<MistValue, MistError>(MistError::ArithmeticError),
        b != 0 ==> binary_value(BinaryOp::IntDiv, MistValue::Integer(a), MistValue::Integer(b))
            is Ok,
        b != 0 ==> binary_value(BinaryOp::IntRem, MistValue::Integer(a), MistValue::Integer(b))
            is Ok,
        d != 0 ==> binary_value(BinaryOp::LongDiv, MistValue::Long(c), MistValue::Long(d)) is Ok,
        d != 0 ==> binary_value(BinaryOp::LongRem, MistValue::Long(c), MistValue::Long(d)) is Ok,
{
}

/// The comparison of two doubles is -1, 0 or 1. Of two numbers it tells how
/// they order: -1 exactly if the first is the lesser, 1 exactly if it is the
/// greater, 0 exactly if they are equal in value, which both zeros are. If
/// either operand is not a number, the low comparison gives -1 and the high
/// comparison 1.
pub proof fn lemma_double_order(a: u64, b: u64)
    ensures
        -1 <= double_order(a, b, -1i32) <= 1,
        -1 <= double_order(a, b, 1i32) <= 1,
        !double_is_nan(a) && !double_is_nan(b) ==> {
            &&& double_order(a, b, -1i32) == double_order(a, b, 1i32)
            &&& (double_order(a, b, -1i32) == -1 <==> double_rank(a) < double_rank(b))
            &&& (double_order(a, b, -1i32) == 0 <==> double_rank(a) == double_rank(b))
            &&& (double_order(a, b, -1i32) == 1 <==> double_rank(a) > double_rank(b))
            &&& double_order(b, a, -1i32) == -double_order(a, b, -1i32)
        },
        double_is_nan(a) || double_is_nan(b) ==> {
            &&& double_order(a, b, -1i32) == -1
            &&& double_order(a, b, 1i32) == 1
        },
        double_rank(0x8000_0000_0000_0000) == double_rank(0),
{
}

/// The order of the doubles is total on the numbers: comparing is reflexive
/// and transitive.
pub proof fn lemma_double_order_total(a: u64, b: u64, c: u64)
    requires
        !double_is_nan(a),
        !double_is_nan(b),
        !double_is_nan(c),
    ensures
        double_order(a, a, -1i32) == 0,
        double_order(a, b, -1i32) <= 0 && double_order(b, c, -1i32) <= 0 ==> double_order(
            a,
            c,
            -1i32,
        ) <= 0,
        double_order(a, b, -1i32) <= 0 || double_order(b, a, -1i32) <= 0,
{
}

/// As [`lemma_double_order`], of floats.
pub proof fn lemma_float_order(a: u32, b: u32)
    ensures
        -1 <= float_order(a, b, -1i32) <= 1,
        -1 <= float_order(a, b, 1i32) <= 1,
        !float_is_nan(a) && !float_is_nan(b) ==> {
            &&& float_order(a, b, -1i32) == float_order(a, b, 1i32)
            &&& (float_order(a, b, -1i32) == -1 <==> float_rank(a) < float_rank(b))
            &&& (float_order(a, b, -1i32) == 0 <==> float_rank(a) == float_rank(b))
            &&& (float_order(a, b, -1i32) == 1 <==> float_rank(a) > float_rank(b))
            &&& float_order(b, a, -1i32) == -float_order(a, b, -1i32)
        },
        float_is_nan(a) || float_is_nan(b) ==> {
            &&& float_order(a, b, -1i32) == -1
            &&& float_order(a, b, 1i32) == 1
        },
{
}

/// Scaling keeps the order of numbers that are not negative.
pub proof fn lemma_scaled_keeps_order(m1: int, m2: int, k: int)
    requires
        0 <= m1 <= m2,
    ensures
        scaled(m1, k) <= scaled(m2, k),
{
    if k >= 0 {
        lemma_pow2_pos(k as nat);
        lemma_mul_inequality(m1, m2, pow2(k as nat) as int);
    } else {
        lemma_pow2_pos((-k) as nat);
        lemma_div_is_ordered(m1, m2, pow2((-k) as nat) as int);
    }
}

/// Twice a number, scaled, is the number scaled one step further.
pub proof fn lemma_scaled_twice(m: int, k: int)
    requires
        m >= 0,
    ensures
        scaled(2 * m, k) == scaled(m, k + 1),
{
    lemma2_to64();
    if k >= 0 {
        lemma_pow2_unfold((k + 1) as nat);
        assert((2 * m) * pow2(k as nat) == m * (2 * pow2(k as nat))) by (nonlinear_arith);
        assert(scaled(2 * m, k) == scaled(m, k + 1));
    } else if k == -1 {
        assert(pow2(1) == 2 && pow2(0) == 1);
        assert(scaled(2 * m, k) == (2 * m) / 2);
        assert(scaled(m, k + 1) == m * 1);
    } else {
        let d = pow2((-k - 1) as nat) as int;
        lemma_pow2_pos((-k - 1) as nat);
        lemma_pow2_unfold((-k) as nat);
        assert(pow2((-k) as nat) == 2 * d);
        lemma_div_denominator(2 * m, 2, d);
        assert((2 * m) / 2 == m);
        assert(scaled(2 * m, k) == (2 * m) / (2 * d));
        assert(scaled(m, k + 1) == m / d);
    }
}

/// A number that is not negative, scaled further, is no less.
pub proof fn lemma_scaled_grows(m: int, k1: int, k2: int)
    requires
        m >= 0,
        k1 <= k2,
    ensures
        scaled(m, k1) <= scaled(m, k2),
    decreases k2 - k1,
{
    if k1 < k2 {
        lemma_scaled_grows(m, k1, k2 - 1);
        lemma_scaled_keeps_order(m, 2 * m, k2 - 1);
        lemma_scaled_twice(m, k2 - 1);
    }
}

/// Of two significands of one width, the one scaled further is no less
/// after scaling: `m1` and `m2` lie between `unit` and twice `unit`.
pub proof fn lemma_scaled_by_exponent_first(unit: int, m1: int, m2: int, k1: int, k2: int)
    requires
        0 <= unit <= m1 < 2 * unit,
        unit <= m2,
        k1 < k2,
    ensures
        scaled(m1, k1) <= scaled(m2, k2),
{
    lemma_scaled_keeps_order(m1, 2 * unit, k1);
    lemma_scaled_twice(unit, k1);
    lemma_scaled_grows(unit, k1 + 1, k2);
    lemma_scaled_keeps_order(unit, m2, k2);
}

/// The greater the pattern of a double without its sign, the greater the
/// integer part of its magnitude: magnitude grows with the pattern.
pub proof fn lemma_double_integer_part_grows(a: u64, b: u64)
    requires
        a % 0x8000_0000_0000_0000 <= b % 0x8000_0000_0000_0000,
    ensures
        0 <= double_integer_part(a) <= double_integer_part(b),
{
    let unit = 0x10_0000_0000_0000int;
    let (ea, fa) = (double_exponent(a), double_fraction(a));
    let (eb, fb) = (double_exponent(b), double_fraction(b));
    assert(a % 0x8000_0000_0000_0000 == ea * unit + fa);
    assert(b % 0x8000_0000_0000_0000 == eb * unit + fb);
    lemma_scaled_is_no_less_than_zero(unit + fa, ea - 1075);
    lemma_scaled_is_no_less_than_zero(unit + fb, eb - 1075);
    if ea >= 1023 {
        if ea == eb {
            lemma_scaled_keeps_order(unit + fa, unit + fb, ea - 1075);
        } else {
            lemma_scaled_by_exponent_first(unit, unit + fa, unit + fb, ea - 1075, eb - 1075);
        }
    }
}

/// Rounding toward zero keeps the order of the doubles: of two numbers, the
/// one of the lesser rank has the lesser integer, or the same.
pub proof fn lemma_double_truncation_keeps_order(a: u64, b: u64)
    requires
        !double_is_nan(a),
        !double_is_nan(b),
        double_rank(a) <= double_rank(b),
    ensures
        double_truncated(a) <= double_truncated(b),
{
    let sign = 0x8000_0000_0000_0000u64;
    if a >= sign && b >= sign {
        lemma_double_integer_part_grows(b, a);
    } else if a < sign && b < sign {
        lemma_double_integer_part_grows(a, b);
    } else {
        lemma_double_integer_part_grows(a, a);
        lemma_double_integer_part_grows(b, b);
    }
}

/// The greater the pattern of a float without its sign, the greater the
/// integer part of its magnitude.
pub proof fn lemma_float_integer_part_grows(a: u32, b: u32)
    requires
        a % 0x8000_0000 <= b % 0x8000_0000,
    ensures
        0 <= float_integer_part(a) <= float_integer_part(b),
{
    let unit = 0x80_0000int;
    let (ea, fa) = (float_exponent(a), float_fraction(a));
    let (eb, fb) = (float_exponent(b), float_fraction(b));
    assert(a % 0x8000_0000 == ea * unit + fa);
    assert(b % 0x8000_0000 == eb * unit + fb);
    lemma_scaled_is_no_less_than_zero(unit + fa, ea - 150);
    lemma_scaled_is_no_less_than_zero(unit + fb, eb - 150);
    if ea >= 127 {
        if ea == eb {
            lemma_scaled_keeps_order(unit + fa, unit + fb, ea - 150);
        } else {
            lemma_scaled_by_exponent_first(unit, unit + fa, unit + fb, ea - 150, eb - 150);
        }
    }
}

/// Rounding toward zero keeps the order of the floats.
pub proof fn lemma_float_truncation_keeps_order(a: u32, b: u32)
    requires
        !float_is_nan(a),
        !float_is_nan(b),
        float_rank(a) <= float_rank(b),
    ensures
        float_truncated(a) <= float_truncated(b),
{
    let sign = 0x8000_0000u32;
    if a >= sign && b >= sign {
        lemma_float_integer_part_grows(b, a);
    } else if a < sign && b < sign {
        lemma_float_integer_part_grows(a, b);
    } else {
        lemma_float_integer_part_grows(a, a);
        lemma_float_integer_part_grows(b, b);
    }
}

} // verus!
