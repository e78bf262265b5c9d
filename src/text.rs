//! Human-readable renderings of numbers, for signal and event reasons.
use vstd::prelude::*;
use crate::units::UNIT;

verus! {

/// Decimal digits of `n`.
pub uninterp spec fn decimal_text(n: u64) -> Seq<char>;

/// `whole`, a point, and `hundredths` as two digits.
pub uninterp spec fn two_decimals_text(whole: u64, hundredths: u64) -> Seq<char>;

/// Relies on `alloc::fmt::format` with `{}`: the decimal digits of `n`.
#[verifier::external_body]
pub(crate) fn decimal_string(n: u64) -> (s: String)
    ensures
        s@ == decimal_text(n),
{
    format!("{}", n)
}

/// Relies on `alloc::fmt::format` with `{}.{:02}`: a number with two decimals.
#[verifier::external_body]
fn two_decimals_string(whole: u64, hundredths: u64) -> (s: String)
    ensures
        s@ == two_decimals_text(whole, hundredths),
{
    format!("{}.{:02}", whole, hundredths)
}

/// A fixed-point amount rounded to hundredths (halves away from zero).
pub open spec fn hundredths_of(v: u64) -> int {
    (v as int + (UNIT as int) / 200) / ((UNIT as int) / 100)
}

/// The fixed-point amount `v` written with two decimals.
pub open spec fn amount_text(v: u64) -> Seq<char> {
    two_decimals_text((hundredths_of(v) / 100) as u64, (hundredths_of(v) % 100) as u64)
}

/// Writes a fixed-point amount with two decimals.
pub fn amount_string(v: u64) -> (s: String)
    ensures
        s@ == amount_text(v),
{
    let h: u64 = ((v as u128 + (UNIT / 200) as u128) / ((UNIT / 100) as u128)) as u64;
    two_decimals_string(h / 100, h % 100)
}

} // verus!
