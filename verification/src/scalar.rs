//! The scalar layer: a coordinate of the search space is an IEEE 754
//! double-precision value, carried as its 64-bit pattern.  All arithmetic on
//! such values goes through `rustc_apfloat`, a software implementation of
//! IEEE 754 binary64; what each operation returns is named by an
//! uninterpreted spec function of the operand bits.

use vstd::prelude::*;

use rustc_apfloat::Float;
use rustc_apfloat::ieee::Double;

verus! {

/// The bit pattern of the double zero.
pub const ZERO_BITS: u64 = 0;

/// The bit pattern of the double one.
pub const ONE_BITS: u64 = 0x3FF0_0000_0000_0000;

/// The bit pattern of the double minus one.
pub const NEG_ONE_BITS: u64 = 0xBFF0_0000_0000_0000;

/// The bit pattern of the double two.
pub const TWO_BITS: u64 = 0x4000_0000_0000_0000;

/// The bit pattern of the double one half.
pub const HALF_BITS: u64 = 0x3FE0_0000_0000_0000;

/// The bit pattern of two raised to the minus fifty-third power, the spacing
/// of the doubles just below one; a fifty-three-bit integer scaled by it
/// lands in the unit interval.
pub const UNIT_STEP_BITS: u64 = 0x3CA0_0000_0000_0000;

/// The bit pattern of the greatest finite double.
pub const MAX_BITS: u64 = 0x7FEF_FFFF_FFFF_FFFF;

/// The bit pattern of the least finite double.
pub const MIN_BITS: u64 = 0xFFEF_FFFF_FFFF_FFFF;

/// Whether the bit pattern `x` denotes a NaN.
pub uninterp spec fn is_nan_of(x: u64) -> bool;

/// The rank of a non-NaN bit pattern in the order that IEEE 754 comparison
/// puts on the values it denotes, as an embedding into the integers.  Two
/// patterns that compare equal (such as the two zeros) share a rank; NaN
/// patterns have no meaningful rank.
pub uninterp spec fn ord_of(x: u64) -> int;

/// The bit pattern of the IEEE 754 sum of the values denoted by `a` and `b`.
pub uninterp spec fn add_of(a: u64, b: u64) -> u64;

/// The bit pattern of the IEEE 754 difference of the values denoted by `a` and `b`.
pub uninterp spec fn sub_of(a: u64, b: u64) -> u64;

/// The bit pattern of the IEEE 754 product of the values denoted by `a` and `b`.
pub uninterp spec fn mul_of(a: u64, b: u64) -> u64;

/// The bit pattern of the IEEE 754 quotient of the values denoted by `a` and `b`.
pub uninterp spec fn div_of(a: u64, b: u64) -> u64;

/// The bit pattern of the IEEE 754 double nearest to the integer `n`.
pub uninterp spec fn of_u64(n: u64) -> u64;

/// What the strict IEEE 754 comparison of the values behind `a` and `b`
/// returns: false whenever either operand is a NaN.
pub open spec fn lt_bits(a: u64, b: u64) -> bool {
    !is_nan_of(a) && !is_nan_of(b) && ord_of(a) < ord_of(b)
}

/// What the non-strict IEEE 754 comparison of the values behind `a` and `b`
/// returns: false whenever either operand is a NaN.
pub open spec fn le_bits(a: u64, b: u64) -> bool {
    !is_nan_of(a) && !is_nan_of(b) && ord_of(a) <= ord_of(b)
}

/// The outcome of comparing two values: the three orderings, or no ordering
/// at all when a NaN is involved.
pub enum Cmp {
    Less,
    Equal,
    Greater,
    Unordered,
}

/// Relies on `rustc_apfloat`'s `partial_cmp` for `Double`: it decides the
/// IEEE 754 partial order, which is total on non-NaN values and leaves a NaN
/// unordered against everything.
#[verifier::external_body]
pub(crate) fn fcmp(a: u64, b: u64) -> (r: Cmp)
    ensures
        (r is Unordered) <==> (is_nan_of(a) || is_nan_of(b)),
        (r is Less) <==> lt_bits(a, b),
        (r is Greater) <==> lt_bits(b, a),
        (r is Equal) <==> (!is_nan_of(a) && !is_nan_of(b) && ord_of(a) == ord_of(b)),
{
    let x = Double::from_bits(a as u128);
    let y = Double::from_bits(b as u128);
    match x.partial_cmp(&y) {
        None => Cmp::Unordered,
        Some(core::cmp::Ordering::Less) => Cmp::Less,
        Some(core::cmp::Ordering::Equal) => Cmp::Equal,
        Some(core::cmp::Ordering::Greater) => Cmp::Greater,
    }
}

/// Relies on `rustc_apfloat`'s addition for `Double`, rounded to nearest:
/// the result depends on the operand bits alone.
#[verifier::external_body]
pub(crate) fn fadd(a: u64, b: u64) -> (r: u64)
    ensures
        r == add_of(a, b),
{
    let x = Double::from_bits(a as u128);
    let y = Double::from_bits(b as u128);
    (x + y).value.to_bits() as u64
}

/// Relies on `rustc_apfloat`'s subtraction for `Double`, rounded to nearest:
/// the result depends on the operand bits alone.
#[verifier::external_body]
pub(crate) fn fsub(a: u64, b: u64) -> (r: u64)
    ensures
        r == sub_of(a, b),
{
    let x = Double::from_bits(a as u128);
    let y = Double::from_bits(b as u128);
    (x - y).value.to_bits() as u64
}

/// Relies on `rustc_apfloat`'s multiplication for `Double`, rounded to
/// nearest: the result depends on the operand bits alone.
#[verifier::external_body]
pub(crate) fn fmul(a: u64, b: u64) -> (r: u64)
    ensures
        r == mul_of(a, b),
{
    let x = Double::from_bits(a as u128);
    let y = Double::from_bits(b as u128);
    (x * y).value.to_bits() as u64
}

/// Relies on `rustc_apfloat`'s division for `Double`, rounded to nearest:
/// the result depends on the operand bits alone.
#[verifier::external_body]
pub(crate) fn fdiv(a: u64, b: u64) -> (r: u64)
    ensures
        r == div_of(a, b),
{
    let x = Double::from_bits(a as u128);
    let y = Double::from_bits(b as u128);
    (x / y).value.to_bits() as u64
}

/// Relies on `rustc_apfloat`'s `from_u128` for `Double`, rounded to nearest:
/// the result depends on the integer alone.
#[verifier::external_body]
pub(crate) fn ffrom_u64(n: u64) -> (r: u64)
    ensures
        r == of_u64(n),
{
    Double::from_u128(n as u128).value.to_bits() as u64
}

/// The value denoted by `x` compares strictly below the one denoted by `y`.
pub fn lt(x: u64, y: u64) -> (r: bool)
    ensures
        r == lt_bits(x, y),
{
    match fcmp(x, y) {
        Cmp::Less => true,
        _ => false,
    }
}

/// The value denoted by `x` compares at or below the one denoted by `y`.
pub fn le(x: u64, y: u64) -> (r: bool)
    ensures
        r == le_bits(x, y),
{
    match fcmp(x, y) {
        Cmp::Less => true,
        Cmp::Equal => true,
        _ => false,
    }
}

/// The bit pattern `x` denotes a NaN.
pub fn is_nan(x: u64) -> (r: bool)
    ensures
        r == is_nan_of(x),
{
    match fcmp(x, x) {
        Cmp::Unordered => true,
        _ => false,
    }
}

} // verus!
