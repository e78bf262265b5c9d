//! Geometric price ladders in fixed point.
//!
//! A ladder starts at `min` and multiplies by a fixed-point ratio `r` (scaled
//! by [`RATIO_UNIT`]) at each step, rounding down. The ratio of a grid spanning
//! `[min, max]` with `n` levels is the largest one whose top rung stays at or
//! below `max`.
use vstd::prelude::*;
use crate::units::RATIO_UNIT;

verus! {

/// The `k`-th rung of the ladder that starts at `min` with ratio `r`.
pub open spec fn rung(min: int, r: int, k: nat) -> int
    decreases k,
{
    if k == 0 {
        min
    } else {
        rung(min, r, (k - 1) as nat) * r / (RATIO_UNIT as int)
    }
}

/// `r` is the grid ratio of `n` levels over `[min, max]`: the top rung fits
/// under `max`, and with the next larger ratio it would not.
pub open spec fn is_grid_ratio(min: int, max: int, n: nat, r: int) -> bool {
    &&& r >= RATIO_UNIT as int
    &&& rung(min, r, (n - 1) as nat) <= max
    &&& rung(min, r + 1, (n - 1) as nat) > max
}

/// The grid ratio of `n` levels over `[min, max]` (see [`is_grid_ratio`]).
pub open spec fn grid_ratio(min: int, max: int, n: nat) -> int {
    choose|r: int| is_grid_ratio(min, max, n, r)
}

proof fn lemma_div_monotone(a: int, b: int, d: int)
    requires
        0 <= a <= b,
        d > 0,
    ensures
        a / d <= b / d,
{
    vstd::arithmetic::div_mod::lemma_div_is_ordered(a, b, d);
}

/// With a ratio of at least one, each rung is at least the one before.
pub proof fn lemma_rung_step(min: int, r: int, k: nat)
    requires
        min >= 0,
        r >= RATIO_UNIT as int,
    ensures
        rung(min, r, k) >= 0,
        rung(min, r, k + 1) >= rung(min, r, k),
    decreases k,
{
    if k > 0 {
        lemma_rung_step(min, r, (k - 1) as nat);
    }
    let a = rung(min, r, k);
    let ru = RATIO_UNIT as int;
    assert(a * r >= a * ru) by (nonlinear_arith)
        requires a >= 0, r >= ru;
    lemma_div_monotone(a * ru, a * r, ru);
    vstd::arithmetic::div_mod::lemma_div_by_multiple(a, ru);
}

/// Rungs never decrease along the ladder when the ratio is at least one.
pub proof fn lemma_rung_monotone_in_k(min: int, r: int, j: nat, k: nat)
    requires
        min >= 0,
        r >= RATIO_UNIT as int,
        j <= k,
    ensures
        rung(min, r, j) <= rung(min, r, k),
    decreases k - j,
{
    if j < k {
        lemma_rung_step(min, r, j);
        lemma_rung_monotone_in_k(min, r, j + 1, k);
    }
}

/// A larger ratio never gives a lower rung.
pub proof fn lemma_rung_monotone_in_r(min: int, r1: int, r2: int, k: nat)
    requires
        min >= 0,
        0 <= r1 <= r2,
    ensures
        0 <= rung(min, r1, k) <= rung(min, r2, k),
    decreases k,
{
    if k > 0 {
        lemma_rung_monotone_in_r(min, r1, r2, (k - 1) as nat);
        let a = rung(min, r1, (k - 1) as nat);
        let b = rung(min, r2, (k - 1) as nat);
        assert(0 <= a * r1 <= b * r2) by (nonlinear_arith)
            requires 0 <= a <= b, 0 <= r1 <= r2;
        lemma_div_monotone(a * r1, b * r2, RATIO_UNIT as int);
        assert(0 <= a * r1 / (RATIO_UNIT as int)) by (nonlinear_arith)
            requires a * r1 >= 0;
    }
}

/// The grid ratio is the only ratio with its defining property.
pub proof fn lemma_grid_ratio_unique(min: int, max: int, n: nat, r: int)
    requires
        min >= 0,
        is_grid_ratio(min, max, n, r),
    ensures
        grid_ratio(min, max, n) == r,
{
    let c = grid_ratio(min, max, n);
    assert(is_grid_ratio(min, max, n, c));
    if c < r {
        lemma_rung_monotone_in_r(min, c + 1, r, (n - 1) as nat);
    } else if r < c {
        lemma_rung_monotone_in_r(min, r + 1, c, (n - 1) as nat);
    }
}

/// `(ru * x + y) / ru == x + y / ru` for non-negative `y`.
proof fn lemma_div_shift(x: int, y: int, ru: int)
    requires
        y >= 0,
        ru > 0,
    ensures
        (ru * x + y) / ru == x + y / ru,
{
    vstd::arithmetic::div_mod::lemma_fundamental_div_mod(y, ru);
    assert(ru * x + y == ru * (x + y / ru) + y % ru) by (nonlinear_arith)
        requires y == ru * (y / ru) + y % ru;
    vstd::arithmetic::div_mod::lemma_div_multiples_vanish_fancy(x + y / ru, y % ru, ru);
}

/// One step up the ladder, `cur * r / RATIO_UNIT` rounded down, computed
/// exactly; `None` when it exceeds `bound`.
pub fn ratio_step(cur: u128, r: u128, bound: u128) -> (o: Option<u128>)
    ensures
        match o {
            Some(v) => v as int == cur as int * r as int / RATIO_UNIT as int && v <= bound,
            None => cur as int * r as int / RATIO_UNIT as int > bound as int,
        },
{
    let ru = RATIO_UNIT;
    let rq: u128 = r / ru;
    let rr: u128 = r % ru;
    let ch: u128 = cur / ru;
    let cl: u128 = cur % ru;
    let ghost total = cur as int * r as int / ru as int;
    proof {
        let (c, rv, u) = (cur as int, r as int, ru as int);
        vstd::arithmetic::div_mod::lemma_fundamental_div_mod(c, u);
        vstd::arithmetic::div_mod::lemma_fundamental_div_mod(rv, u);
        let (rqi, rri, chi, cli) = (rq as int, rr as int, ch as int, cl as int);
        assert(c * rv == u * (c * rqi + chi * rri) + cli * rri) by (nonlinear_arith)
            requires c == u * chi + cli, rv == u * rqi + rri;
        assert(cli * rri >= 0) by (nonlinear_arith) requires cli >= 0, rri >= 0;
        lemma_div_shift(c * rqi + chi * rri, cli * rri, u);
        assert(chi * rri >= 0) by (nonlinear_arith) requires chi >= 0, rri >= 0;
        assert(c * rqi >= 0) by (nonlinear_arith) requires c >= 0, rqi >= 0;
        vstd::arithmetic::div_mod::lemma_div_pos_is_pos(cli * rri, u);
        assert(total == c * rqi + chi * rri + cli * rri / u);
        assert(cli * rri < u * u) by (nonlinear_arith) requires 0 <= cli < u, 0 <= rri < u;
    }
    let p1 = match cur.checked_mul(rq) {
        Some(v) => v,
        None => return None,
    };
    let p2 = match ch.checked_mul(rr) {
        Some(v) => v,
        None => return None,
    };
    let p3: u128 = cl * rr / ru;
    let s12 = match p1.checked_add(p2) {
        Some(v) => v,
        None => return None,
    };
    let t = match s12.checked_add(p3) {
        Some(v) => v,
        None => return None,
    };
    if t > bound {
        None
    } else {
        Some(t)
    }
}

/// Decides whether the top rung `rung(min, r, steps)` is at most `max`.
fn top_rung_fits(min: u128, r: u128, steps: usize, max: u128) -> (b: bool)
    requires
        r >= RATIO_UNIT,
    ensures
        b == (rung(min as int, r as int, steps as nat) <= max as int),
{
    let mut cur: u128 = min;
    let mut k: usize = 0;
    proof {
        lemma_rung_monotone_in_k(min as int, r as int, 0, steps as nat);
    }
    if cur > max {
        return false;
    }
    while k < steps
        invariant
            k <= steps,
            r >= RATIO_UNIT,
            cur as int == rung(min as int, r as int, k as nat),
            cur <= max,
        decreases steps - k,
    {
        proof {
            lemma_rung_step(min as int, r as int, k as nat);
            lemma_rung_monotone_in_k(min as int, r as int, (k + 1) as nat, steps as nat);
        }
        match ratio_step(cur, r, max) {
            None => {
                return false;
            },
            Some(v) => {
                cur = v;
                k = k + 1;
            },
        }
    }
    true
}

/// Finds the grid ratio of `n` levels over `[min, max]` by bisection.
pub fn find_grid_ratio(min: u128, max: u128, n: usize) -> (r: u128)
    requires
        0 < min <= max,
        max / min <= u64::MAX,
        n >= 2,
    ensures
        is_grid_ratio(min as int, max as int, n as nat, r as int),
        r as int == grid_ratio(min as int, max as int, n as nat),
{
    let steps: usize = n - 1;
    let q: u128 = max / min;
    let mut lo: u128 = RATIO_UNIT;
    let mut hi: u128 = RATIO_UNIT * (q + 1);
    proof {
        lemma_ratio_bounds(min as int, max as int, steps as nat);
    }
    while hi - lo > 1
        invariant
            RATIO_UNIT <= lo < hi,
            steps == n - 1,
            rung(min as int, lo as int, steps as nat) <= max as int,
            rung(min as int, hi as int, steps as nat) > max as int,
        decreases hi - lo,
    {
        let mid: u128 = lo + (hi - lo) / 2;
        if top_rung_fits(min, mid, steps, max) {
            lo = mid;
        } else {
            hi = mid;
        }
    }
    proof {
        lemma_grid_ratio_unique(min as int, max as int, n as nat, lo as int);
    }
    lo
}

proof fn lemma_flat_ladder(min: int, k: nat)
    requires
        min >= 0,
    ensures
        rung(min, RATIO_UNIT as int, k) == min,
    decreases k,
{
    if k > 0 {
        lemma_flat_ladder(min, (k - 1) as nat);
        vstd::arithmetic::div_mod::lemma_div_by_multiple(min, RATIO_UNIT as int);
    }
}


/// The ladder with ratio one stays under `max`; the one with ratio
/// `RATIO_UNIT * (max / min + 1)` passes it.
proof fn lemma_ratio_bounds(min: int, max: int, steps: nat)
    requires
        0 < min <= max,
        steps >= 1,
    ensures
        rung(min, RATIO_UNIT as int, steps) <= max,
        rung(min, (RATIO_UNIT as int) * (max / min + 1), steps) > max,
{
    let ru = RATIO_UNIT as int;
    let q = max / min;
    lemma_flat_ladder(min, steps);
    let h = ru * (q + 1);
    assert(rung(min, h, 0) == min);
    assert(rung(min, h, 1) == min * h / ru);
    assert(min * h == (min * (q + 1)) * ru) by (nonlinear_arith)
        requires h == ru * (q + 1);
    assert(q >= 1) by {
        vstd::arithmetic::div_mod::lemma_div_is_ordered(min, max, min);
        vstd::arithmetic::div_mod::lemma_div_by_multiple(1, min);
    }
    assert(min * (q + 1) >= 0) by (nonlinear_arith) requires min > 0, q >= 1;
    vstd::arithmetic::div_mod::lemma_div_by_multiple(min * (q + 1), ru);
    vstd::arithmetic::div_mod::lemma_fundamental_div_mod(max, min);
    assert(min * (q + 1) > max) by (nonlinear_arith)
        requires
            q == max / min,
            min > 0,
            max == min * (max / min) + max % min,
            0 <= max % min,
            max % min < min,
    ;
    assert(h >= ru) by (nonlinear_arith) requires h == ru * (q + 1), q >= 1, ru > 0;
    lemma_rung_monotone_in_k(min, h, 1, steps);
}

/// Some ratio is the grid ratio of `n >= 2` levels over `0 < min <= max`.
pub proof fn lemma_grid_ratio_exists(min: int, max: int, n: nat)
    requires
        0 < min <= max,
        n >= 2,
    ensures
        is_grid_ratio(min, max, n, grid_ratio(min, max, n)),
{
    let b = (RATIO_UNIT as int) * (max / min + 1);
    lemma_ratio_bounds(min, max, (n - 1) as nat);
    lemma_ratio_below(min, max, n, b);
}

/// Below any ratio `b` whose top rung passes `max` there is a grid ratio.
proof fn lemma_ratio_below(min: int, max: int, n: nat, b: int)
    requires
        0 < min <= max,
        n >= 2,
        b > RATIO_UNIT as int,
        rung(min, b, (n - 1) as nat) > max,
    ensures
        is_grid_ratio(min, max, n, grid_ratio(min, max, n)),
    decreases b,
{
    lemma_flat_ladder(min, (n - 1) as nat);
    if rung(min, b - 1, (n - 1) as nat) <= max {
        assert(is_grid_ratio(min, max, n, b - 1));
    } else {
        lemma_ratio_below(min, max, n, b - 1);
    }
}


/// Raising the ratio by one step of `10^-18` moves rung `k` by at most
/// `k * 10^-14` of it, for ladders starting at `2 * 10^14` or more.
pub proof fn lemma_rung_sensitivity(m0: int, r: int, k: nat)
    requires
        m0 >= 200_000_000_000_000,
        r >= RATIO_UNIT as int,
        k <= 49,
    ensures
        0 <= rung(m0, r + 1, k) - rung(m0, r, k),
        (rung(m0, r + 1, k) - rung(m0, r, k)) * 100_000_000_000_000 <= k * rung(m0, r, k),
    decreases k,
{
    lemma_rung_monotone_in_r(m0, r, r + 1, k);
    if k > 0 {
        let k1 = (k - 1) as nat;
        lemma_rung_sensitivity(m0, r, k1);
        lemma_rung_monotone_in_k(m0, r, 0, k1);
        let ru: int = 1_000_000_000_000_000_000;
        let mm: int = 100_000_000_000_000;
        let a = rung(m0, r, k1);
        let b = rung(m0, r + 1, k1);
        let a2 = rung(m0, r, k);
        let b2 = rung(m0, r + 1, k);
        assert(a >= m0);
        assert(a2 == a * r / ru);
        assert(b2 == b * (r + 1) / ru);
        assert(b * (r + 1) >= 0) by (nonlinear_arith) requires b >= 0, r >= 0;
        assert(a * r >= 0) by (nonlinear_arith) requires a >= 0, r >= 0;
        vstd::arithmetic::div_mod::lemma_fundamental_div_mod(b * (r + 1), ru);
        vstd::arithmetic::div_mod::lemma_fundamental_div_mod(a * r, ru);
        assert(b2 * ru <= b * (r + 1)) by (nonlinear_arith)
            requires b * (r + 1) == ru * (b * (r + 1) / ru) + (b * (r + 1)) % ru, (b * (r + 1)) % ru >= 0,
                b2 == b * (r + 1) / ru;
        assert(a2 * ru > a * r - ru) by (nonlinear_arith)
            requires a * r == ru * (a * r / ru) + (a * r) % ru, (a * r) % ru < ru, a2 == a * r / ru;
        assert((b2 - a2) * ru < (b - a) * r + b + ru) by (nonlinear_arith)
            requires b2 * ru <= b * (r + 1), a2 * ru > a * r - ru;
        assert(mm * (b - a) * r <= k1 * a * r) by (nonlinear_arith)
            requires (b - a) * mm <= k1 * a, r >= 0;
        assert(b <= 2 * a) by (nonlinear_arith)
            requires (b - a) * mm <= k1 * a, k1 <= 49, a >= 0, mm == 100_000_000_000_000;
        assert(2 * mm * a + (mm + k) * ru <= a * r) by (nonlinear_arith)
            requires a >= 200_000_000_000_000, r >= ru, k <= 49, ru == 1_000_000_000_000_000_000,
                mm == 100_000_000_000_000;
        assert(k * a2 * ru >= k * a * r - k * ru) by (nonlinear_arith)
            requires a2 * ru > a * r - ru, k >= 1;
        assert(mm * ((b2 - a2) * ru) < mm * ((b - a) * r + b + ru)) by (nonlinear_arith)
            requires (b2 - a2) * ru < (b - a) * r + b + ru, mm > 0;
        assert(mm * ((b - a) * r + b + ru) == mm * (b - a) * r + mm * b + mm * ru) by (nonlinear_arith);
        assert(mm * ((b2 - a2) * ru) == mm * (b2 - a2) * ru) by (nonlinear_arith);
        assert(k1 * a * r + a * r == k * a * r) by (nonlinear_arith) requires k1 == k - 1;
        assert(mm * b <= 2 * mm * a) by (nonlinear_arith) requires b <= 2 * a, mm > 0;
        assert((mm + k) * ru == mm * ru + k * ru) by (nonlinear_arith);
        assert(mm * (b2 - a2) * ru < k * a2 * ru);
        assert((b2 - a2) * mm <= k * a2) by (nonlinear_arith)
            requires mm * (b2 - a2) * ru < k * a2 * ru, ru > 0;
    }
}
} // verus!
