//! Fixed-point conventions shared by the whole library.
use vstd::prelude::*;

verus! {

/// Number of fixed-point steps in one whole unit: amounts count billionths.
pub const UNIT: u64 = 1_000_000_000;

/// Fixed-point scale of the ratio between two neighbouring grid levels.
pub const RATIO_UNIT: u128 = 1_000_000_000_000_000_000;

/// Fine steps in one billionth: ladder rungs are computed in units of
/// `10^-18`, then rounded to billionths for orders.
pub const FINE_PER_UNIT: u128 = 1_000_000_000;

/// Tolerance used by order matching and the affordability gate: one billionth.
pub const TOLERANCE: u64 = 1;

/// Product of two fixed-point amounts, rounded down.
pub open spec fn mul_units(a: int, b: int) -> int {
    a * b / (UNIT as int)
}

} // verus!
