//! The zoom coefficient and its two one-directional update rules.
//!
//! The coefficient is held exactly as a count of `10^-12` units, so the
//! power-of-ten searches of the update rules are plain integer arithmetic.
//! Refinement that would need a step finer than one unit removes nothing:
//! the coefficient is floored at the finest representable granularity and
//! in particular never reaches zero.

use vstd::prelude::*;
use vstd::arithmetic::div_mod::{
    lemma_div_is_ordered, lemma_div_multiples_vanish, lemma_fundamental_div_mod,
    lemma_mod_division_less_than_divisor, lemma_mod_multiples_basic,
};

verus! {

/// Number of units in a coefficient of one, where the coarsening step's
/// power-of-ten search starts.
pub const UNIT_ONE: u64 = 1_000_000_000_000;

/// Number of units in a coefficient of one thousand, where the refinement
/// step's power-of-ten search starts.
pub const REFINE_START: u64 = 1_000_000_000_000_000;

/// The zoom coefficient: `units` counts of `10^-12`.
#[derive(Clone, Copy, PartialEq, Eq, Structural, Debug)]
pub struct Coeff {
    pub units: u64,
}

/// The largest power of ten that is at most `m`; one when `m` is below ten.
pub open spec fn floor_pow10(m: nat) -> nat
    decreases m,
{
    if m < 10 {
        1
    } else {
        10 * floor_pow10(m / 10)
    }
}

/// Whether `p` is a power of ten.
pub open spec fn is_pow10(p: nat) -> bool
    decreases p,
{
    if p == 1 {
        true
    } else if p < 10 {
        false
    } else {
        p % 10 == 0 && is_pow10(p / 10)
    }
}

/// `floor_pow10(m)` is a power of ten and brackets `m` from below.
proof fn lemma_floor_pow10_bounds(m: nat)
    requires
        m >= 1,
    ensures
        1 <= floor_pow10(m) <= m < 10 * floor_pow10(m),
        is_pow10(floor_pow10(m)),
    decreases m,
{
    if m >= 10 {
        lemma_fundamental_div_mod(m as int, 10);
        lemma_mod_division_less_than_divisor(m as int, 10);
        lemma_floor_pow10_bounds(m / 10);
        let f = floor_pow10(m / 10);
        lemma_mod_multiples_basic(f as int, 10);
        lemma_div_multiples_vanish(f as int, 10);
        assert((10 * f) % 10 == 0);
        assert((10 * f) / 10 == f);
    }
}

/// No power of ten other than `floor_pow10(m)` brackets `m` the same way.
proof fn lemma_floor_pow10_unique(m: nat, p: nat)
    requires
        m >= 1,
        is_pow10(p),
        p <= m < 10 * p,
    ensures
        p == floor_pow10(m),
    decreases m,
{
    if m < 10 {
        assert(p == 1);
    } else {
        assert(p != 1);
        assert(p >= 10);
        lemma_fundamental_div_mod(m as int, 10);
        lemma_mod_division_less_than_divisor(m as int, 10);
        lemma_fundamental_div_mod(p as int, 10);
        let q = p / 10;
        assert(p == 10 * q);
        assert(q <= m / 10 < 10 * q);
        lemma_floor_pow10_unique(m / 10, q);
    }
}

/// Largest power of ten at most `m`, found by repeated multiplication.
fn floor_pow10_exec(m: u64) -> (p: u64)
    requires
        m >= 1,
    ensures
        p == floor_pow10(m as nat),
{
    let mut p: u64 = 1;
    while p <= m / 10
        invariant
            m >= 1,
            1 <= p <= m,
            is_pow10(p as nat),
        decreases m - p,
    {
        proof {
            lemma_fundamental_div_mod(m as int, 10);
            lemma_mod_division_less_than_divisor(m as int, 10);
            assert(10 * (p as int) <= m as int);
            lemma_mod_multiples_basic(p as int, 10);
            lemma_div_multiples_vanish(p as int, 10);
            assert((10 * (p as nat)) % 10 == 0);
            assert((10 * (p as nat)) / 10 == p as nat);
        }
        p = p * 10;
    }
    proof {
        lemma_fundamental_div_mod(m as int, 10);
        lemma_mod_division_less_than_divisor(m as int, 10);
        assert(m < 10 * (p as nat));
        lemma_floor_pow10_unique(m as nat, p as nat);
    }
    p
}

/// The step by which one coarsening grows the coefficient: the largest
/// power-of-ten reciprocal not above the coefficient, capped at one.
pub open spec fn coarsen_step(units: nat) -> nat {
    if floor_pow10(units) > UNIT_ONE {
        UNIT_ONE as nat
    } else {
        floor_pow10(units)
    }
}

/// The amount one refinement removes: a tenth of the largest power of ten
/// not above the coefficient, that power capped at one thousand. Below ten
/// units the tenth is finer than one unit and the amount is zero.
pub open spec fn refine_step(units: nat) -> nat {
    (if floor_pow10(units) > REFINE_START {
        REFINE_START as nat
    } else {
        floor_pow10(units)
    }) / 10
}

impl Coeff {
    /// A coefficient is well formed when it is strictly positive.
    pub open spec fn wf(self) -> bool {
        self.units >= 1
    }

    /// The startup coefficient of one.
    pub fn one() -> (r: Coeff)
        ensures
            r.wf(),
            r.units == UNIT_ONE,
    {
        Coeff { units: UNIT_ONE }
    }
}

/// Zooms out one step. The increment scales with the coefficient's own
/// order of magnitude, so the result is always strictly larger.
pub fn coarsen(c: Coeff) -> (r: Coeff)
    requires
        c.wf(),
        c.units <= u64::MAX - UNIT_ONE,
    ensures
        r.wf(),
        r.units == c.units + coarsen_step(c.units as nat),
        r.units > c.units,
{
    let p = floor_pow10_exec(c.units);
    proof {
        lemma_floor_pow10_bounds(c.units as nat);
    }
    let step = if p > UNIT_ONE {
        UNIT_ONE
    } else {
        p
    };
    Coeff { units: c.units + step }
}

/// Zooms in one step. The decrement shrinks with the coefficient, the
/// result stays strictly positive, and once the coefficient is below ten
/// units it is left unchanged.
pub fn refine(c: Coeff) -> (r: Coeff)
    requires
        c.wf(),
    ensures
        r.wf(),
        r.units == c.units - refine_step(c.units as nat),
        c.units >= 10 ==> r.units < c.units,
        c.units < 10 ==> r.units == c.units,
{
    let p = floor_pow10_exec(c.units);
    proof {
        lemma_floor_pow10_bounds(c.units as nat);
    }
    let capped = if p > REFINE_START {
        REFINE_START
    } else {
        p
    };
    let step = capped / 10;
    proof {
        lemma_div_is_ordered(capped as int, c.units as int, 10);
        lemma_fundamental_div_mod(c.units as int, 10);
        lemma_mod_division_less_than_divisor(c.units as int, 10);
        assert(step <= c.units / 10);
        assert(c.units - c.units / 10 >= 1);
        if c.units >= 10 {
            assert(floor_pow10(c.units as nat) >= 10);
            assert(capped >= 10);
            assert(step >= 1) by {
                lemma_fundamental_div_mod(capped as int, 10);
                lemma_mod_division_less_than_divisor(capped as int, 10);
            }
        }
    }
    Coeff { units: c.units - step }
}

} // verus!
