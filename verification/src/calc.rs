//! Aggregation of fuel over the lines of an input file.
//!
//! Both aggregation variants share one iteration and error-handling path
//! and differ only in the per-mass transform applied: the direct fuel
//! formula, or the formula with the recursive correction for the fuel's
//! own mass.  A line that does not parse as an `i32` mass fails the whole
//! aggregation; lines before it are reported well formed, so errors can be
//! attributed line by line.

use vstd::prelude::*;
use crate::fuel::calc_fuel;
use crate::fuel::calc_total_fuel;
use crate::fuel::spec_fuel;
use crate::fuel::spec_total_fuel;
use crate::parse::literal_value;
use crate::parse::parse_mass;
use crate::parse::parses_as_i32;

verus! {

/// The per-mass transform an aggregation run applies.
#[derive(Clone, Copy, PartialEq, Eq, Structural, Debug)]
pub enum FuelMode {
    /// Direct formula only.
    Basic,
    /// Direct formula plus the recursive correction for the fuel's own mass.
    WithFuelMass,
}

/// Why an aggregation run failed.
#[derive(Clone, Copy, PartialEq, Eq, Structural, Debug)]
pub enum CalcError {
    /// The line at this index (counted from zero) does not parse as an
    /// `i32` mass.
    ParseError { line: usize },
}

/// The transform a mode applies to one mass.
pub open spec fn transform(mode: FuelMode, m: int) -> int {
    match mode {
        FuelMode::Basic => spec_fuel(m),
        FuelMode::WithFuelMass => spec_total_fuel(m),
    }
}

/// Sum of the transform over the masses of the first `n` lines.
pub open spec fn fuel_sum(mode: FuelMode, lines: Seq<Seq<char>>, n: int) -> int
    decreases n,
{
    if n <= 0 {
        0
    } else {
        fuel_sum(mode, lines, n - 1) + transform(mode, literal_value(lines[n - 1]))
    }
}

/// The first `n` lines all parse as `i32` masses.
pub open spec fn prefix_ok(lines: Seq<Seq<char>>, n: int) -> bool {
    forall|i: int| 0 <= i < n ==> parses_as_i32(#[trigger] lines[i])
}

/// `x` is representable as an `i32`.
pub open spec fn fits_i32(x: int) -> bool {
    i32::MIN <= x <= i32::MAX
}

/// Every partial total of an aggregation run stays in `i32` range, as far
/// as the lines parse.  (A run adds line by line; a later unparseable line
/// stops it, so only the sums over parseable prefixes are ever formed.)
pub open spec fn sums_fit(mode: FuelMode, lines: Seq<Seq<char>>) -> bool {
    forall|n: int|
        0 <= n <= lines.len() && prefix_ok(lines, n) ==> fits_i32(
            #[trigger] fuel_sum(mode, lines, n),
        )
}

/// Decides whether every partial total of an aggregation run over `lines`
/// stays in `i32` range, so a caller that cannot discharge that bound can
/// test it before aggregating.  Partial totals past the first unparseable
/// line are never formed by a run, so they do not count.
pub fn check_sums_fit(lines: &Vec<String>, mode: FuelMode) -> (r: bool)
    ensures
        r == sums_fit(mode, lines.deep_view()),
{
    let ghost dv = lines.deep_view();
    let mut sum: i64 = 0;
    let mut idx: usize = 0;
    while idx < lines.len()
        invariant
            dv == lines.deep_view(),
            dv.len() == lines@.len(),
            idx <= lines@.len(),
            prefix_ok(dv, idx as int),
            sum as int == fuel_sum(mode, dv, idx as int),
            forall|n: int| 0 <= n <= idx ==> fits_i32(#[trigger] fuel_sum(mode, dv, n)),
        decreases lines@.len() - idx,
    {
        let line = &lines[idx];
        match parse_mass(line.as_str()) {
            None => {
                // no run forms a partial total past this line
                proof {
                    assert forall|n: int|
                        0 <= n <= dv.len() && prefix_ok(dv, n) implies fits_i32(
                        #[trigger] fuel_sum(mode, dv, n),
                    ) by {
                        if n > idx {
                            assert(parses_as_i32(dv[idx as int]));
                        }
                    }
                }
                return true;
            },
            Some(mass) => {
                let f = match mode {
                    FuelMode::Basic => calc_fuel(mass),
                    FuelMode::WithFuelMass => calc_total_fuel(mass),
                };
                proof {
                    assert(fuel_sum(mode, dv, idx as int + 1) == fuel_sum(mode, dv, idx as int)
                        + transform(mode, literal_value(dv[idx as int])));
                }
                sum = sum + (f as i64);
                if sum < (i32::MIN as i64) || sum > (i32::MAX as i64) {
                    return false;
                }
                idx = idx + 1;
            },
        }
    }
    true
}

/// Runs one aggregation pass: parses every line as a mass, applies the
/// mode's transform to each, and sums the results in line order.  Returns
/// the total when every line parses; otherwise fails with the index of the
/// first unparseable line, and no partial result.
pub fn calc_fuel_for_modules_via(lines: &Vec<String>, mode: FuelMode) -> (r: Result<
    i32,
    CalcError,
>)
    requires
        sums_fit(mode, lines.deep_view()),
    ensures
        r matches Ok(total) ==> prefix_ok(lines.deep_view(), lines@.len() as int) && total as int
            == fuel_sum(mode, lines.deep_view(), lines@.len() as int),
        r matches Err(CalcError::ParseError { line }) ==> line < lines@.len() && !parses_as_i32(
            lines.deep_view()[line as int],
        ) && prefix_ok(lines.deep_view(), line as int),
{
    let ghost dv = lines.deep_view();
    let mut total: i32 = 0;
    let mut idx: usize = 0;
    while idx < lines.len()
        invariant
            dv == lines.deep_view(),
            dv.len() == lines@.len(),
            sums_fit(mode, dv),
            idx <= lines@.len(),
            prefix_ok(dv, idx as int),
            total as int == fuel_sum(mode, dv, idx as int),
        decreases lines@.len() - idx,
    {
        let line = &lines[idx];
        match parse_mass(line.as_str()) {
            None => {
                return Err(CalcError::ParseError { line: idx });
            },
            Some(mass) => {
                let f = match mode {
                    FuelMode::Basic => calc_fuel(mass),
                    FuelMode::WithFuelMass => calc_total_fuel(mass),
                };
                proof {
                    assert(prefix_ok(dv, idx as int + 1));
                    assert(fits_i32(fuel_sum(mode, dv, idx as int + 1)));
                    assert(fuel_sum(mode, dv, idx as int + 1) == fuel_sum(mode, dv, idx as int)
                        + transform(mode, literal_value(dv[idx as int])));
                }
                total = total + f;
                idx = idx + 1;
            },
        }
    }
    Ok(total)
}

/// Basic aggregation: the sum of the direct fuel for each module mass.
pub fn calc_fuel_for_modules_basic(lines: &Vec<String>) -> (r: Result<i32, CalcError>)
    requires
        sums_fit(FuelMode::Basic, lines.deep_view()),
    ensures
        r matches Ok(total) ==> prefix_ok(lines.deep_view(), lines@.len() as int) && total as int
            == fuel_sum(FuelMode::Basic, lines.deep_view(), lines@.len() as int),
        r matches Err(CalcError::ParseError { line }) ==> line < lines@.len() && !parses_as_i32(
            lines.deep_view()[line as int],
        ) && prefix_ok(lines.deep_view(), line as int),
{
    calc_fuel_for_modules_via(lines, FuelMode::Basic)
}

/// Recursive aggregation: the sum, for each module mass, of the direct
/// fuel plus every strictly positive follow-on fuel-for-fuel term.
pub fn calc_fuel_for_modules_and_fuel_mass(lines: &Vec<String>) -> (r: Result<i32, CalcError>)
    requires
        sums_fit(FuelMode::WithFuelMass, lines.deep_view()),
    ensures
        r matches Ok(total) ==> prefix_ok(lines.deep_view(), lines@.len() as int) && total as int
            == fuel_sum(FuelMode::WithFuelMass, lines.deep_view(), lines@.len() as int),
        r matches Err(CalcError::ParseError { line }) ==> line < lines@.len() && !parses_as_i32(
            lines.deep_view()[line as int],
        ) && prefix_ok(lines.deep_view(), line as int),
{
    calc_fuel_for_modules_via(lines, FuelMode::WithFuelMass)
}

/// An aggregation run is a pure function of its input lines: any two runs
/// over the same immutable lines, in the same mode, are pinned to one and
/// the same total, so running an aggregation twice yields identical
/// results.
pub proof fn lemma_aggregation_repeatable(
    mode: FuelMode,
    lines: Seq<Seq<char>>,
    r1: int,
    r2: int,
)
    requires
        r1 == fuel_sum(mode, lines, lines.len() as int),
        r2 == fuel_sum(mode, lines, lines.len() as int),
    ensures
        r1 == r2,
{
}

} // verus!
