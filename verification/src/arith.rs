//! Saturating integer helpers shared by the simulation modules.

use vstd::prelude::*;

verus! {

/// `a * b`, clamped at `u32::MAX`.
pub open spec fn spec_sat_mul(a: int, b: int) -> int {
    if a * b > u32::MAX {
        u32::MAX as int
    } else {
        a * b
    }
}

/// `a + b`, clamped at `u32::MAX`.
pub open spec fn spec_sat_add(a: int, b: int) -> int {
    if a + b > u32::MAX {
        u32::MAX as int
    } else {
        a + b
    }
}

/// `a - b`, clamped at zero.
pub open spec fn spec_sat_sub(a: int, b: int) -> int {
    if a > b {
        a - b
    } else {
        0
    }
}

/// Saturating addition of two `u32`s.
pub fn sat_add(a: u32, b: u32) -> (r: u32)
    ensures
        r == spec_sat_add(a as int, b as int),
{
    a.saturating_add(b)
}

/// Saturating multiplication of two `u32`s.
pub fn sat_mul(a: u32, b: u32) -> (r: u32)
    ensures
        r == spec_sat_mul(a as int, b as int),
{
    let a64: u64 = a as u64;
    let b64: u64 = b as u64;
    proof {
        assert(a64 * b64 <= 0xffff_ffffu64 * 0xffff_ffffu64) by (nonlinear_arith)
            requires
                a64 <= 0xffff_ffffu64,
                b64 <= 0xffff_ffffu64,
        ;
    }
    let wide: u64 = a64 * b64;
    if wide > 0xffff_ffffu64 {
        u32::MAX
    } else {
        wide as u32
    }
}

/// The product of two non-negative integers is non-negative.
pub proof fn lemma_mul_nonneg(a: int, b: int)
    requires
        a >= 0,
        b >= 0,
    ensures
        a * b >= 0,
{
    assert(a * b >= 0) by (nonlinear_arith)
        requires
            a >= 0,
            b >= 0,
    ;
}

} // verus!
