//! The bounded escape-time test for one point of the complex plane.

use vstd::prelude::*;
use crate::numeric::ComplexBits;
use crate::numeric::{cpx_mul, cpx_add, cpx_norm_sqr, fp_gt};
use crate::numeric::{cpx_mul_bits, cpx_add_bits, cpx_norm_sqr_bits, fp_gt_bits};

verus! {

/// Bit pattern of the double value four: the escape threshold for the
/// squared norm.  Once `|z|^2` exceeds it, `z` has left the disk of
/// radius two and the orbit provably diverges.
pub const ESCAPE_THRESHOLD_BITS: u64 = 0x4010000000000000;

/// Complex zero, the starting iterate.
pub open spec fn cpx_zero() -> ComplexBits {
    ComplexBits { re: 0u64, im: 0u64 }
}

/// One escape-time step: `z * z + c`, evaluated in double precision.
pub open spec fn cpx_step(z: ComplexBits, c: ComplexBits) -> ComplexBits {
    let m = cpx_mul_bits(z.re, z.im, z.re, z.im);
    let s = cpx_add_bits(m.0, m.1, c.re, c.im);
    ComplexBits { re: s.0, im: s.1 }
}

/// The `n`-th iterate of `z = z * z + c` starting from zero.
pub open spec fn iterate(c: ComplexBits, n: nat) -> ComplexBits
    decreases n,
{
    if n == 0 {
        cpx_zero()
    } else {
        cpx_step(iterate(c, (n - 1) as nat), c)
    }
}

/// Whether the squared norm of `z` exceeds the escape threshold.
pub open spec fn escaped(z: ComplexBits) -> bool {
    fp_gt_bits(cpx_norm_sqr_bits(z.re, z.im), ESCAPE_THRESHOLD_BITS)
}

/// Whether the iterate tested at loop index `i` — the `(i + 1)`-th, since
/// the step precedes the test — has escaped.
pub open spec fn escapes_at(c: ComplexBits, i: u32) -> bool {
    escaped(iterate(c, i as nat + 1))
}

/// The first index in `[lo, limit)` at which the orbit of `c` escapes.
pub open spec fn escape_from(c: ComplexBits, lo: u32, limit: u32) -> Option<u32>
    decreases limit - lo,
{
    if lo >= limit {
        None
    } else if escapes_at(c, lo) {
        Some(lo)
    } else {
        escape_from(c, (lo + 1) as u32, limit)
    }
}

/// The escape time of `c`: the first `i < limit` at which the orbit
/// escapes, or `None` if it stays within the threshold for `limit` steps.
pub open spec fn escape_time_spec(c: ComplexBits, limit: u32) -> Option<u32> {
    escape_from(c, 0, limit)
}

/// What `escape_from` returns, spelled out: the index it yields is the
/// least escaping one in range, and `None` means no index in range escapes.
pub proof fn lemma_escape_from(c: ComplexBits, lo: u32, limit: u32)
    ensures
        match escape_from(c, lo, limit) {
            Some(i) => lo <= i < limit && escapes_at(c, i)
                && forall|j: u32| lo <= j < i ==> !#[trigger] escapes_at(c, j),
            None => forall|j: u32| lo <= j < limit ==> !#[trigger] escapes_at(c, j),
        },
    decreases limit - lo,
{
    if lo < limit && !escapes_at(c, lo) {
        lemma_escape_from(c, (lo + 1) as u32, limit);
    }
}

/// An orbit that never leaves the threshold has no escape time, whatever
/// the iteration limit.
pub proof fn lemma_bounded_orbit_never_escapes(c: ComplexBits, limit: u32)
    requires
        forall|j: u32| !#[trigger] escapes_at(c, j),
    ensures
        escape_time_spec(c, limit) is None,
{
    lemma_escape_from(c, 0, limit);
}

/// A point whose very first iterate escapes has escape time zero for
/// every positive limit.
pub proof fn lemma_immediate_escape(c: ComplexBits, limit: u32)
    requires
        limit >= 1,
        escapes_at(c, 0),
    ensures
        escape_time_spec(c, limit) == Some(0u32),
{
}

/// Iterates `z = z * z + c` from zero for at most `limit` steps and
/// returns the first step at which `|z|^2` exceeds four, or `None` if the
/// orbit stays bounded that long.
pub fn escape_time(c: ComplexBits, limit: u32) -> (r: Option<u32>)
    ensures
        r == escape_time_spec(c, limit),
{
    let mut z = ComplexBits { re: 0, im: 0 };
    let mut i: u32 = 0;
    while i < limit
        invariant
            i <= limit,
            z == iterate(c, i as nat),
            escape_from(c, 0, limit) == escape_from(c, i, limit),
        decreases limit - i,
    {
        z = cpx_add(cpx_mul(z, z), c);
        assert(z == iterate(c, i as nat + 1));
        let n = cpx_norm_sqr(z);
        if fp_gt(n, ESCAPE_THRESHOLD_BITS) {
            assert(escapes_at(c, i));
            return Some(i);
        }
        assert(escape_from(c, i, limit) == escape_from(c, (i + 1) as u32, limit));
        i = i + 1;
    }
    None
}

} // verus!
