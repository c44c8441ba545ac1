//! Complex numbers as bit patterns, and the trusted floating-point kernel.
//!
//! Verified code in this crate never touches a floating-point value
//! directly: the crate cannot even name the double-precision type.  A
//! complex number is therefore carried as the IEEE 754 bit patterns of its
//! two double-precision components, and each primitive operation on those
//! components is a small trusted wrapper whose result is a named,
//! uninterpreted function of the operand bits.  IEEE 754 arithmetic and
//! comparison are functions of the operand bits alone, which is what
//! naming the results claims.
//!
//! Inside the wrapper bodies, a pair of scalar operands rides in one
//! `Complex64` value: `Complex64::new` is the only way this crate has to
//! pin the scalar type of the bytes being converted.

use vstd::prelude::*;
use num::complex::Complex64;
use num::traits::FromBytes;
use num::traits::AsPrimitive;

verus! {

/// A complex number held as the IEEE 754 bit patterns of its
/// double-precision real and imaginary components.  The all-zero pattern
/// is positive zero.
#[derive(Clone, Copy, PartialEq, Eq, Structural, Debug)]
pub struct ComplexBits {
    pub re: u64,
    pub im: u64,
}

/// The sum of two doubles, as bit patterns.
pub uninterp spec fn fp_add_bits(a: u64, b: u64) -> u64;

/// The difference of two doubles, as bit patterns.
pub uninterp spec fn fp_sub_bits(a: u64, b: u64) -> u64;

/// The product of two doubles, as bit patterns.
pub uninterp spec fn fp_mul_bits(a: u64, b: u64) -> u64;

/// The quotient of two doubles, as bit patterns.
pub uninterp spec fn fp_div_bits(a: u64, b: u64) -> u64;

/// Whether the double with bit pattern `a` compares strictly greater than
/// the one with bit pattern `b`.
pub uninterp spec fn fp_gt_bits(a: u64, b: u64) -> bool;

/// The double nearest to the integer `x`, as a bit pattern.
pub uninterp spec fn fp_of_usize_bits(x: usize) -> u64;

/// The product of two complex doubles, as component bit patterns.
pub uninterp spec fn cpx_mul_bits(ar: u64, ai: u64, br: u64, bi: u64) -> (u64, u64);

/// The sum of two complex doubles, as component bit patterns.
pub uninterp spec fn cpx_add_bits(ar: u64, ai: u64, br: u64, bi: u64) -> (u64, u64);

/// The squared norm of a complex double, as a bit pattern.
pub uninterp spec fn cpx_norm_sqr_bits(re: u64, im: u64) -> u64;

/// Relies on core's double-precision addition (IEEE 754).
#[verifier::external_body]
pub(crate) fn fp_add(a: u64, b: u64) -> (r: u64)
    ensures
        r == fp_add_bits(a, b),
{
    let v = Complex64::new(
        FromBytes::from_ne_bytes(&a.to_ne_bytes()),
        FromBytes::from_ne_bytes(&b.to_ne_bytes()),
    );
    u64::from_ne_bytes((v.re + v.im).to_ne_bytes())
}

/// Relies on core's double-precision subtraction (IEEE 754).
#[verifier::external_body]
pub(crate) fn fp_sub(a: u64, b: u64) -> (r: u64)
    ensures
        r == fp_sub_bits(a, b),
{
    let v = Complex64::new(
        FromBytes::from_ne_bytes(&a.to_ne_bytes()),
        FromBytes::from_ne_bytes(&b.to_ne_bytes()),
    );
    u64::from_ne_bytes((v.re - v.im).to_ne_bytes())
}

/// Relies on core's double-precision multiplication (IEEE 754).
#[verifier::external_body]
pub(crate) fn fp_mul(a: u64, b: u64) -> (r: u64)
    ensures
        r == fp_mul_bits(a, b),
{
    let v = Complex64::new(
        FromBytes::from_ne_bytes(&a.to_ne_bytes()),
        FromBytes::from_ne_bytes(&b.to_ne_bytes()),
    );
    u64::from_ne_bytes((v.re * v.im).to_ne_bytes())
}

/// Relies on core's double-precision division (IEEE 754).
#[verifier::external_body]
pub(crate) fn fp_div(a: u64, b: u64) -> (r: u64)
    ensures
        r == fp_div_bits(a, b),
{
    let v = Complex64::new(
        FromBytes::from_ne_bytes(&a.to_ne_bytes()),
        FromBytes::from_ne_bytes(&b.to_ne_bytes()),
    );
    u64::from_ne_bytes((v.re / v.im).to_ne_bytes())
}

/// Relies on core's double-precision comparison (IEEE 754), which is a
/// deterministic predicate on the operand bits.
#[verifier::external_body]
pub(crate) fn fp_gt(a: u64, b: u64) -> (r: bool)
    ensures
        r == fp_gt_bits(a, b),
{
    let v = Complex64::new(
        FromBytes::from_ne_bytes(&a.to_ne_bytes()),
        FromBytes::from_ne_bytes(&b.to_ne_bytes()),
    );
    v.re > v.im
}

/// Relies on num's `AsPrimitive`, whose `as_` is the primitive `as`
/// conversion from an integer to the nearest double.
#[verifier::external_body]
pub(crate) fn fp_of_usize(x: usize) -> (r: u64)
    ensures
        r == fp_of_usize_bits(x),
{
    let v = Complex64::new(AsPrimitive::as_(x), AsPrimitive::as_(x));
    u64::from_ne_bytes(v.re.to_ne_bytes())
}

/// Relies on num's `Complex` multiplication of two complex doubles.
#[verifier::external_body]
pub(crate) fn cpx_mul(a: ComplexBits, b: ComplexBits) -> (r: ComplexBits)
    ensures
        (r.re, r.im) == cpx_mul_bits(a.re, a.im, b.re, b.im),
{
    let x = Complex64::new(
        FromBytes::from_ne_bytes(&a.re.to_ne_bytes()),
        FromBytes::from_ne_bytes(&a.im.to_ne_bytes()),
    );
    let y = Complex64::new(
        FromBytes::from_ne_bytes(&b.re.to_ne_bytes()),
        FromBytes::from_ne_bytes(&b.im.to_ne_bytes()),
    );
    let p = x * y;
    ComplexBits { re: u64::from_ne_bytes(p.re.to_ne_bytes()), im: u64::from_ne_bytes(p.im.to_ne_bytes()) }
}

/// Relies on num's `Complex` addition of two complex doubles.
#[verifier::external_body]
pub(crate) fn cpx_add(a: ComplexBits, b: ComplexBits) -> (r: ComplexBits)
    ensures
        (r.re, r.im) == cpx_add_bits(a.re, a.im, b.re, b.im),
{
    let x = Complex64::new(
        FromBytes::from_ne_bytes(&a.re.to_ne_bytes()),
        FromBytes::from_ne_bytes(&a.im.to_ne_bytes()),
    );
    let y = Complex64::new(
        FromBytes::from_ne_bytes(&b.re.to_ne_bytes()),
        FromBytes::from_ne_bytes(&b.im.to_ne_bytes()),
    );
    let s = x + y;
    ComplexBits { re: u64::from_ne_bytes(s.re.to_ne_bytes()), im: u64::from_ne_bytes(s.im.to_ne_bytes()) }
}

/// Relies on num's `Complex::norm_sqr` of a complex double.
#[verifier::external_body]
pub(crate) fn cpx_norm_sqr(a: ComplexBits) -> (r: u64)
    ensures
        r == cpx_norm_sqr_bits(a.re, a.im),
{
    let x = Complex64::new(
        FromBytes::from_ne_bytes(&a.re.to_ne_bytes()),
        FromBytes::from_ne_bytes(&a.im.to_ne_bytes()),
    );
    u64::from_ne_bytes(x.norm_sqr().to_ne_bytes())
}

} // verus!
