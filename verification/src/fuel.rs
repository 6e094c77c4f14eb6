//! The fuel formula and its recursive refinement.
//!
//! The direct formula for a mass `m` is `floor(m / 3) - 2`.  The recursive
//! refinement additionally charges fuel for the mass of the fuel itself:
//! the formula is iterated on its own output, and every strictly positive
//! follow-on term is added, until a term is not positive.

use vstd::prelude::*;

verus! {

/// Fuel required to lift a mass `m`, not counting the fuel's own mass:
/// `floor(m / 3) - 2`.  (In spec code `/` is Euclidean division, which for
/// the positive divisor 3 is exactly floor division, also on negative `m`.)
pub open spec fn spec_fuel(m: int) -> int {
    m / 3 - 2
}

/// Sum of the strictly positive follow-on terms obtained by iterating the
/// fuel formula, starting from a fuel amount `f` (which has itself already
/// been counted).  The chain stops at the first term that is not positive.
pub open spec fn fuel_chain(f: int) -> int
    decreases f,
{
    if f <= 0 {
        0
    } else {
        let g = spec_fuel(f);
        if g > 0 {
            g + fuel_chain(g)
        } else {
            0
        }
    }
}

/// Fuel required to lift a mass `m`, counting the fuel's own mass: the
/// direct term plus every strictly positive follow-on term.
pub open spec fn spec_total_fuel(m: int) -> int {
    spec_fuel(m) + fuel_chain(spec_fuel(m))
}

/// Iterating the fuel formula on a positive value strictly decreases it, so
/// the chain of follow-on terms is finite for every starting value.
pub proof fn lemma_fuel_decreases(f: int)
    requires
        f > 0,
    ensures
        spec_fuel(f) < f,
{
}

/// The chain of follow-on terms is never negative, and never exceeds the
/// fuel amount it starts from.
pub proof fn lemma_fuel_chain_bounds(f: int)
    ensures
        0 <= fuel_chain(f),
        fuel_chain(f) <= if f > 0 { f } else { 0 },
    decreases f,
{
    if f > 0 {
        let g = spec_fuel(f);
        if g > 0 {
            lemma_fuel_chain_bounds(g);
        }
    }
}

/// Fuel required to lift `mass`, not counting the fuel's own mass.
pub fn calc_fuel(mass: i32) -> (r: i32)
    ensures
        r as int == spec_fuel(mass as int),
{
    if mass >= 0 {
        mass / 3 - 2
    } else {
        let n: i64 = -(mass as i64);
        let q: i64 = (n + 2) / 3;
        assert(-q == mass as int / 3) by (nonlinear_arith)
            requires
                n == -(mass as int) && mass < 0 && q == (n + 2) / 3,
        ;
        (-q) as i32 - 2
    }
}

/// Fuel required to lift `mass`, counting the fuel's own mass: the direct
/// fuel term plus every strictly positive follow-on term of the chain.
pub fn calc_total_fuel(mass: i32) -> (r: i32)
    ensures
        r as int == spec_total_fuel(mass as int),
{
    let f0 = calc_fuel(mass);
    let mut total: i32 = f0;
    let mut current: i32 = f0;
    proof {
        lemma_fuel_chain_bounds(f0 as int);
    }
    while current > 0
        invariant
            f0 as int == spec_fuel(mass as int),
            current as int <= f0 as int || f0 <= 0,
            0 <= fuel_chain(current as int) <= fuel_chain(f0 as int),
            total as int == f0 as int + fuel_chain(f0 as int) - fuel_chain(current as int),
        decreases (if current > 0 { current as int } else { 0 }),
    {
        let next = calc_fuel(current);
        proof {
            lemma_fuel_chain_bounds(next as int);
            lemma_fuel_chain_bounds(f0 as int);
        }
        if next > 0 {
            total = total + next;
        }
        current = next;
    }
    total
}

} // verus!
