//! Fixed-point arithmetic of the machine's numeric values.
//!
//! A numeric is an `i64` that counts millionths: `1_000_000` stands for 1.0.
//! Results that leave the `i64` range saturate at its ends; quotients round
//! toward zero.

use vstd::prelude::*;
use vstd::string::StringExecFns;
use crate::config::{EQUALITY_TOLERANCE, MOVEMENT_DIVISOR, NUMERIC_SCALE};

verus! {

/// `x` limited to the range of `i64`.
pub open spec fn saturate(x: int) -> int {
    if x < i64::MIN {
        i64::MIN as int
    } else if x > i64::MAX {
        i64::MAX as int
    } else {
        x
    }
}

/// The absolute value of `x`.
pub open spec fn magnitude(x: int) -> int {
    if x < 0 { -x } else { x }
}

/// The quotient of `a` by `b`, rounded toward zero (`b` is not zero).
pub open spec fn quotient_toward_zero(a: int, b: int) -> int {
    if (a < 0) == (b < 0) {
        magnitude(a) / magnitude(b)
    } else {
        -(magnitude(a) / magnitude(b))
    }
}

/// Sum of two numerics.
pub open spec fn numeric_sum(a: int, b: int) -> int {
    saturate(a + b)
}

/// Difference of two numerics.
pub open spec fn numeric_difference(a: int, b: int) -> int {
    saturate(a - b)
}

/// Product of two numerics.
pub open spec fn numeric_product(a: int, b: int) -> int {
    saturate(quotient_toward_zero(a * b, NUMERIC_SCALE as int))
}

/// Quotient of two numerics; zero where the divisor is zero.
pub open spec fn numeric_quotient(a: int, b: int) -> int {
    if b == 0 {
        0
    } else {
        saturate(quotient_toward_zero(a * NUMERIC_SCALE, b))
    }
}

/// Whether two numerics lie closer together than the tolerance.
pub open spec fn numeric_close(a: int, b: int) -> bool {
    magnitude(a - b) < EQUALITY_TOLERANCE
}

/// A movement operand scaled down and clamped to `[-limit, limit]`.
pub open spec fn scaled_delta(x: int, limit: int) -> int {
    let scaled = quotient_toward_zero(x, MOVEMENT_DIVISOR as int);
    if scaled < -limit {
        -limit
    } else if scaled > limit {
        limit
    } else {
        scaled
    }
}

fn abs_wide(a: i64) -> (m: u128)
    ensures
        m == magnitude(a as int),
        m <= 0x8000_0000_0000_0000,
{
    if a < 0 {
        (-(a as i128)) as u128
    } else {
        a as u128
    }
}

fn with_sign(negative: bool, m: u128) -> (r: i64)
    ensures
        r == saturate(if negative { -(m as int) } else { m as int }),
{
    if negative {
        if m > 0x8000_0000_0000_0000 {
            i64::MIN
        } else {
            (-(m as i128)) as i64
        }
    } else if m > 0x7fff_ffff_ffff_ffff {
        i64::MAX
    } else {
        m as i64
    }
}

/// Adds two numerics.
pub fn add_numeric(a: i64, b: i64) -> (r: i64)
    ensures
        r == numeric_sum(a as int, b as int),
{
    let wide: i128 = a as i128 + b as i128;
    if wide < i64::MIN as i128 {
        i64::MIN
    } else if wide > i64::MAX as i128 {
        i64::MAX
    } else {
        wide as i64
    }
}

/// Subtracts `b` from `a`.
pub fn subtract_numeric(a: i64, b: i64) -> (r: i64)
    ensures
        r == numeric_difference(a as int, b as int),
{
    let wide: i128 = a as i128 - b as i128;
    if wide < i64::MIN as i128 {
        i64::MIN
    } else if wide > i64::MAX as i128 {
        i64::MAX
    } else {
        wide as i64
    }
}

/// Multiplies two numerics.
pub fn multiply_numeric(a: i64, b: i64) -> (r: i64)
    ensures
        r == numeric_product(a as int, b as int),
{
    let ma: u128 = abs_wide(a);
    let mb: u128 = abs_wide(b);
    let negative: bool = (a < 0) != (b < 0);
    assert(ma * mb <= 0x8000_0000_0000_0000 * 0x8000_0000_0000_0000) by (nonlinear_arith)
        requires
            ma <= 0x8000_0000_0000_0000,
            mb <= 0x8000_0000_0000_0000,
    ;
    assert(magnitude(a as int) * magnitude(b as int) == magnitude((a as int) * (b as int))
        && (((a as int) * (b as int) < 0) ==> negative)
        && (negative ==> (a as int) * (b as int) <= 0)) by (nonlinear_arith)
        requires
            negative == ((a < 0) != (b < 0)),
    ;
    let q: u128 = ma * mb / (NUMERIC_SCALE as u128);
    with_sign(negative, q)
}

/// Divides `a` by `b`; the result is zero where `b` is zero.
pub fn divide_numeric(a: i64, b: i64) -> (r: i64)
    ensures
        r == numeric_quotient(a as int, b as int),
        b == 0 ==> r == 0,
{
    if b == 0 {
        return 0;
    }
    let ma: u128 = abs_wide(a);
    let mb: u128 = abs_wide(b);
    let negative: bool = (a < 0) != (b < 0);
    assert(ma * 1_000_000 <= 0x8000_0000_0000_0000 * 1_000_000) by (nonlinear_arith)
        requires
            ma <= 0x8000_0000_0000_0000,
    ;
    assert(magnitude((a as int) * 1_000_000) == magnitude(a as int) * 1_000_000
        && (((a as int) * 1_000_000 < 0) == (a < 0))) by (nonlinear_arith);
    let q: u128 = ma * (NUMERIC_SCALE as u128) / mb;
    with_sign(negative, q)
}

/// Compares two numerics for equality within the tolerance.
pub fn numerics_close(a: i64, b: i64) -> (r: bool)
    ensures
        r == numeric_close(a as int, b as int),
{
    let wide: i128 = a as i128 - b as i128;
    -(EQUALITY_TOLERANCE as i128) < wide && wide < EQUALITY_TOLERANCE as i128
}

/// The numeric that stands for a whole count of units.
pub fn numeric_from_units(units: u32) -> (r: i64)
    ensures
        r == units * NUMERIC_SCALE,
{
    (units as i64) * NUMERIC_SCALE
}

/// Scales a movement operand by 0.01 and clamps it to `[-limit, limit]`.
pub fn scale_and_clamp(x: i64, limit: i64) -> (r: i64)
    requires
        0 <= limit,
    ensures
        r == scaled_delta(x as int, limit as int),
{
    let m: u128 = abs_wide(x) / (MOVEMENT_DIVISOR as u128);
    let scaled: i64 = with_sign(x < 0, m);
    if scaled < -limit {
        -limit
    } else if scaled > limit {
        limit
    } else {
        scaled
    }
}

/// The decimal digit `d` as text.
pub open spec fn digit_text(d: int) -> Seq<char> {
    if d == 0 {
        "0"@
    } else if d == 1 {
        "1"@
    } else if d == 2 {
        "2"@
    } else if d == 3 {
        "3"@
    } else if d == 4 {
        "4"@
    } else if d == 5 {
        "5"@
    } else if d == 6 {
        "6"@
    } else if d == 7 {
        "7"@
    } else if d == 8 {
        "8"@
    } else {
        "9"@
    }
}

/// A natural number in decimal, without leading zeros.
pub open spec fn natural_text(n: nat) -> Seq<char>
    decreases n,
{
    if n < 10 {
        digit_text(n as int)
    } else {
        natural_text(n / 10) + digit_text((n % 10) as int)
    }
}

/// The sign of a numeric as text: a minus for a negative one.
pub open spec fn sign_text(v: int) -> Seq<char> {
    if v < 0 {
        "-"@
    } else {
        ""@
    }
}

/// A numeric in decimal with one place after the point, rounded half away
/// from zero.
pub open spec fn one_place_text(v: int) -> Seq<char> {
    let tenths = (magnitude(v) + 50_000) / 100_000;
    sign_text(v) + natural_text((tenths / 10) as nat) + "."@ + digit_text(tenths % 10)
}

/// A numeric in decimal with two places after the point, rounded half away
/// from zero.
pub open spec fn two_place_text(v: int) -> Seq<char> {
    let hundredths = (magnitude(v) + 5_000) / 10_000;
    sign_text(v) + natural_text((hundredths / 100) as nat) + "."@ + digit_text(
        (hundredths / 10) % 10,
    ) + digit_text(hundredths % 10)
}

fn digit_str(d: u64) -> (s: &'static str)
    ensures
        s@ == digit_text(d as int),
{
    if d == 0 {
        "0"
    } else if d == 1 {
        "1"
    } else if d == 2 {
        "2"
    } else if d == 3 {
        "3"
    } else if d == 4 {
        "4"
    } else if d == 5 {
        "5"
    } else if d == 6 {
        "6"
    } else if d == 7 {
        "7"
    } else if d == 8 {
        "8"
    } else {
        "9"
    }
}

fn natural_string(n: u64) -> (s: String)
    ensures
        s@ == natural_text(n as nat),
    decreases n,
{
    if n < 10 {
        String::from_str(digit_str(n))
    } else {
        let mut s = natural_string(n / 10);
        s.append(digit_str(n % 10));
        s
    }
}

fn sign_string(v: i64) -> (s: String)
    ensures
        s@ == sign_text(v as int),
{
    if v < 0 {
        String::from_str("-")
    } else {
        String::from_str("")
    }
}

fn abs_u64(v: i64) -> (m: u64)
    ensures
        m == magnitude(v as int),
{
    if v < 0 {
        (-(v as i128)) as u64
    } else {
        v as u64
    }
}

/// Renders a numeric with one place after the point.
pub fn one_place_string(v: i64) -> (s: String)
    ensures
        s@ == one_place_text(v as int),
{
    let tenths: u64 = (abs_u64(v) + 50_000) / 100_000;
    let mut s = sign_string(v);
    s.append(natural_string(tenths / 10).as_str());
    s.append(".");
    s.append(digit_str(tenths % 10));
    s
}

/// Renders a numeric with two places after the point.
pub fn two_place_string(v: i64) -> (s: String)
    ensures
        s@ == two_place_text(v as int),
{
    let hundredths: u64 = (abs_u64(v) + 5_000) / 10_000;
    let mut s = sign_string(v);
    s.append(natural_string(hundredths / 100).as_str());
    s.append(".");
    s.append(digit_str((hundredths / 10) % 10));
    s.append(digit_str(hundredths % 10));
    s
}

} // verus!
