//! JSON numbers: 64-bit signed integers, or IEEE 754 double-precision
//! floating-point values.
//!
//! Integers are held and computed on directly as `i64`. Floating-point
//! values are held as opaque `serde_json` `Number`s, since this crate's
//! verified code works only on plain values; each float is described in
//! specifications by the `u64` bit pattern of its `f64` value, and the
//! few operations that truly compute on floats sit behind trusted
//! wrappers around `serde_json`'s `Number` and the standard `f64`
//! arithmetic.

use vstd::prelude::*;

use serde_json_bytes::serde_json::Number;

verus! {

#[verifier::external_type_specification]
#[verifier::external_body]
pub struct ExNumber(Number);

/// The IEEE 754 bit pattern of the `f64` value of a `serde_json` `Number`,
/// that is, of what `Number::as_f64` returns (an integer `Number` is read
/// as the nearest `f64`). A function of the number alone.
pub uninterp spec fn num_f64_bits(n: Number) -> u64;

/// The IEEE 754 bit pattern of an `i64` converted to `f64` (Rust's `as`
/// conversion, rounding to nearest). A function of the integer alone.
pub uninterp spec fn i64_to_f64_bits(i: i64) -> u64;

/// The bit pattern of the IEEE 754 sum of the two `f64` values given by
/// the argument bit patterns.
pub uninterp spec fn add_f64_bits(a: u64, b: u64) -> u64;

/// The bit pattern of the IEEE 754 difference of the two `f64` values.
pub uninterp spec fn sub_f64_bits(a: u64, b: u64) -> u64;

/// The bit pattern of the IEEE 754 product of the two `f64` values.
pub uninterp spec fn mul_f64_bits(a: u64, b: u64) -> u64;

/// The bit pattern of the IEEE 754 quotient of the two `f64` values.
pub uninterp spec fn div_f64_bits(a: u64, b: u64) -> u64;

/// The bit pattern of the IEEE 754 remainder (Rust's `%`) of the two
/// `f64` values.
pub uninterp spec fn rem_f64_bits(a: u64, b: u64) -> u64;

/// The biased exponent field of an `f64` bit pattern.
pub open spec fn f64_bits_exp(b: u64) -> u64 {
    (b >> 52) & 0x7ff
}

/// The fraction (mantissa) field of an `f64` bit pattern.
pub open spec fn f64_bits_frac(b: u64) -> u64 {
    b & 0xf_ffff_ffff_ffff
}

/// Whether an `f64` bit pattern denotes a NaN.
pub open spec fn f64_bits_is_nan(b: u64) -> bool {
    f64_bits_exp(b) == 0x7ff && f64_bits_frac(b) != 0
}

/// Whether an `f64` bit pattern denotes a finite value (neither an
/// infinity nor a NaN).
pub open spec fn f64_bits_finite(b: u64) -> bool {
    f64_bits_exp(b) != 0x7ff
}

/// Whether an `f64` bit pattern denotes positive or negative zero.
pub open spec fn f64_bits_is_zero(b: u64) -> bool {
    b == 0 || b == 0x8000_0000_0000_0000
}

/// IEEE 754 equality of two `f64` bit patterns: NaN equals nothing, and
/// the two zeroes equal each other.
pub open spec fn f64_bits_eq(a: u64, b: u64) -> bool {
    if f64_bits_is_nan(a) || f64_bits_is_nan(b) {
        false
    } else if f64_bits_is_zero(a) && f64_bits_is_zero(b) {
        true
    } else {
        a == b
    }
}

/// IEEE 754 equality of two `f64` bit patterns, computed on the bits.
pub fn f64_bits_eq_exec(a: u64, b: u64) -> (r: bool)
    ensures
        r == f64_bits_eq(a, b),
{
    let a_nan: bool = (a >> 52) & 0x7ff == 0x7ff && a & 0xf_ffff_ffff_ffff != 0;
    let b_nan: bool = (b >> 52) & 0x7ff == 0x7ff && b & 0xf_ffff_ffff_ffff != 0;
    if a_nan || b_nan {
        false
    } else if (a == 0 || a == 0x8000_0000_0000_0000) && (b == 0 || b == 0x8000_0000_0000_0000) {
        true
    } else {
        a == b
    }
}

/// Relies on `serde_json`'s `Number::from::<i64>` and `Number::as_f64`:
/// the resulting number reads as `i` converted to `f64`.
#[verifier::external_body]
pub(crate) fn num_from_i64(i: i64) -> (r: Number)
    ensures
        num_f64_bits(r) == i64_to_f64_bits(i),
{
    Number::from(i)
}

/// Relies on `Number::clone`: a clone is the same number, so its `f64`
/// value has the same bits.
#[verifier::external_body]
pub(crate) fn num_clone(n: &Number) -> (r: Number)
    ensures
        num_f64_bits(r) == num_f64_bits(*n),
{
    n.clone()
}

/// Relies on `Number::as_f64` and `f64::to_bits`: returns the bit
/// pattern of the number's `f64` value. (`as_f64` never returns `None`
/// when serde_json's arbitrary-precision feature is off.)
#[verifier::external_body]
pub(crate) fn num_to_f64_bits(n: &Number) -> (r: u64)
    ensures
        r == num_f64_bits(*n),
{
    n.as_f64().map(|x| x.to_bits()).unwrap_or(0)
}

/// Relies on `f64` addition and `Number::from_f64`, which returns `None`
/// exactly when the result is not finite.
#[verifier::external_body]
pub(crate) fn num_add(a: &Number, b: &Number) -> (r: Option<Number>)
    ensures
        ({
            let bits = add_f64_bits(num_f64_bits(*a), num_f64_bits(*b));
            match r {
                Some(n) => f64_bits_finite(bits) && num_f64_bits(n) == bits,
                None => !f64_bits_finite(bits),
            }
        }),
{
    match (a.as_f64(), b.as_f64()) {
        (Some(x), Some(y)) => Number::from_f64(x + y),
        _ => None,
    }
}

/// Relies on `f64` subtraction and `Number::from_f64`, which returns
/// `None` exactly when the result is not finite.
#[verifier::external_body]
pub(crate) fn num_sub(a: &Number, b: &Number) -> (r: Option<Number>)
    ensures
        ({
            let bits = sub_f64_bits(num_f64_bits(*a), num_f64_bits(*b));
            match r {
                Some(n) => f64_bits_finite(bits) && num_f64_bits(n) == bits,
                None => !f64_bits_finite(bits),
            }
        }),
{
    match (a.as_f64(), b.as_f64()) {
        (Some(x), Some(y)) => Number::from_f64(x - y),
        _ => None,
    }
}

/// Relies on `f64` multiplication and `Number::from_f64`, which returns
/// `None` exactly when the result is not finite.
#[verifier::external_body]
pub(crate) fn num_mul(a: &Number, b: &Number) -> (r: Option<Number>)
    ensures
        ({
            let bits = mul_f64_bits(num_f64_bits(*a), num_f64_bits(*b));
            match r {
                Some(n) => f64_bits_finite(bits) && num_f64_bits(n) == bits,
                None => !f64_bits_finite(bits),
            }
        }),
{
    match (a.as_f64(), b.as_f64()) {
        (Some(x), Some(y)) => Number::from_f64(x * y),
        _ => None,
    }
}

/// Relies on `f64` division and `Number::from_f64`, which returns `None`
/// exactly when the result is not finite (so division by zero yields
/// `None`, never a panic).
#[verifier::external_body]
pub(crate) fn num_div(a: &Number, b: &Number) -> (r: Option<Number>)
    ensures
        ({
            let bits = div_f64_bits(num_f64_bits(*a), num_f64_bits(*b));
            match r {
                Some(n) => f64_bits_finite(bits) && num_f64_bits(n) == bits,
                None => !f64_bits_finite(bits),
            }
        }),
{
    match (a.as_f64(), b.as_f64()) {
        (Some(x), Some(y)) => Number::from_f64(x / y),
        _ => None,
    }
}

/// Relies on `f64` remainder (`%`) and `Number::from_f64`, which returns
/// `None` exactly when the result is not finite (so a zero divisor
/// yields `None`, never a panic).
#[verifier::external_body]
pub(crate) fn num_rem(a: &Number, b: &Number) -> (r: Option<Number>)
    ensures
        ({
            let bits = rem_f64_bits(num_f64_bits(*a), num_f64_bits(*b));
            match r {
                Some(n) => f64_bits_finite(bits) && num_f64_bits(n) == bits,
                None => !f64_bits_finite(bits),
            }
        }),
{
    match (a.as_f64(), b.as_f64()) {
        (Some(x), Some(y)) => Number::from_f64(x % y),
        _ => None,
    }
}

/// One decimal digit as a character.
pub open spec fn spec_digit_char(d: nat) -> char {
    ((48 + (d % 10)) as u8) as char
}

/// The decimal rendering of a natural number, most significant digit
/// first.
pub open spec fn spec_nat_decimal(n: nat) -> Seq<char>
    decreases n,
{
    if n < 10 {
        seq![spec_digit_char(n)]
    } else {
        spec_nat_decimal(n / 10).push(spec_digit_char(n % 10))
    }
}

/// The decimal rendering of an `i64`, as std's `Display` writes it.
pub open spec fn spec_i64_decimal(i: i64) -> Seq<char> {
    if i < 0 {
        seq!['-'] + spec_nat_decimal((-(i as int)) as nat)
    } else {
        spec_nat_decimal(i as nat)
    }
}

/// Relies on std's `Display` for `i64`: it writes the decimal
/// rendering, a minus sign first for a negative number.
#[verifier::external_body]
pub(crate) fn i64_display(i: i64) -> (r: Vec<char>)
    ensures
        r@ == spec_i64_decimal(i),
{
    format!("{}", i).chars().collect()
}

/// The rendering of the `f64` value with this bit pattern: what
/// `serde_json`'s `Display` writes for a number built from that value
/// with `Number::from_f64` when it is finite, and std's `f64` rendering
/// otherwise. A function of the bits alone.
pub uninterp spec fn f64_bits_display(bits: u64) -> Seq<char>;

/// Relies on `Number::as_f64` (total when serde_json's
/// arbitrary-precision feature is off), `Number::from_f64`, and the
/// `Display` impls of `Number` and `f64`: the number's `f64` value is
/// read out and rendered, so the text depends on that value's bits
/// alone, whatever representation the number holds.
#[verifier::external_body]
pub(crate) fn num_float_display(n: &Number) -> (r: Vec<char>)
    ensures
        r@ == f64_bits_display(num_f64_bits(*n)),
{
    let x = n.as_f64().unwrap_or_default();
    match Number::from_f64(x) {
        Some(m) => format!("{}", m).chars().collect(),
        None => format!("{}", x).chars().collect(),
    }
}

/// A JSON number: a 64-bit signed integer, or a floating-point value
/// held as an opaque `serde_json` `Number` and described in
/// specifications solely by the bit pattern of its `f64` value.
#[derive(Debug, PartialEq)]
pub enum JsonNum {
    Int(i64),
    Float(Number),
}

/// The `f64` bit pattern a number contributes when an arithmetic fold
/// is promoted to floating point.
pub open spec fn num_promoted_bits(n: JsonNum) -> u64 {
    match n {
        JsonNum::Int(i) => i64_to_f64_bits(i),
        JsonNum::Float(m) => num_f64_bits(m),
    }
}

/// Promotes a number to a `serde_json` `Number` for a floating-point
/// arithmetic step.
pub(crate) fn num_promote(n: &JsonNum) -> (r: Number)
    ensures
        num_f64_bits(r) == num_promoted_bits(*n),
{
    match n {
        JsonNum::Int(i) => num_from_i64(*i),
        JsonNum::Float(m) => num_clone(m),
    }
}

} // verus!
