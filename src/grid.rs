//! The basic grid strategy: a geometric ladder of limit orders around a
//! center price, rebuilt when the price drifts too far from the center.
use vstd::prelude::*;
use crate::config::{BotConfig, PositionSizingMode, RangeMode};
use crate::interfaces::{GridType, MarketData, Position, SignalMetadata, SignalTerms, SignalType,
    TradingSignal, terms_of};
use crate::ladder::{find_grid_ratio, grid_ratio, is_grid_ratio, ratio_step, rung, lemma_grid_ratio_exists,
    lemma_rung_monotone_in_k, lemma_rung_sensitivity};
use crate::text::{amount_string, amount_text, decimal_string, decimal_text};
use crate::units::{FINE_PER_UNIT, RATIO_UNIT, UNIT};

verus! {

#[derive(Clone, Copy, Debug, PartialEq, Eq, Structural)]
pub enum GridState {
    Initializing,
    Active,
    Rebalancing,
    Stopped,
}

/// One rung of the grid and the order placed on it.
#[derive(Clone, Copy, Debug, PartialEq, Eq, Structural)]
pub struct GridLevel {
    /// Price of the level's order, in billionths: the fine price rounded.
    pub price: u64,
    /// Exact rung of the ladder, in units of `10^-18`.
    pub fine_price: u128,
    pub size: u64,
    pub index: usize,
    pub is_buy: bool,
    pub filled: bool,
}

/// The fixed parameters of a grid, taken from the configuration.
#[derive(Clone, Copy, Debug)]
pub struct GridSettings {
    /// Number of levels.
    pub levels: usize,
    /// Half-width of the auto range, in percent of the center price.
    pub range_pct: u64,
    /// Quote amount committed to each level.
    pub allocation_per_level: u64,
    /// Fixed `(min, max)` bounds in manual mode.
    pub manual_bounds: Option<(u64, u64)>,
    /// Drift from the center, in percent, that triggers a rebalance.
    pub rebalance_threshold_pct: u64,
}

impl GridSettings {
    pub open spec fn valid(&self) -> bool {
        &&& self.range_pct <= 50 * UNIT
        &&& match self.manual_bounds {
            Some((lo, hi)) => 0 < lo <= hi,
            None => true,
        }
    }
}

/// The `[min, max]` span of a grid centered on `price`.
pub open spec fn grid_bounds(s: GridSettings, price: u64) -> (u64, u64) {
    match s.manual_bounds {
        Some((lo, hi)) => (lo, hi),
        None => {
            let range = price as int * s.range_pct as int / (100 * UNIT as int);
            let lo = price as int - range;
            let hi = price as int + range;
            (
                if lo < 1 { 1u64 } else { lo as u64 },
                if hi > u64::MAX as int { u64::MAX } else { hi as u64 },
            )
        },
    }
}

/// Base size bought or sold at `price` for `allocation` of quote value.
pub open spec fn level_size(allocation: u64, price: u64) -> u64 {
    let s = allocation as int * UNIT as int / price as int;
    if s > u64::MAX as int { u64::MAX } else { s as u64 }
}

/// The level at rung `i` of the ladder over `[lo, hi]`.
/// A billionth amount in fine units.
pub open spec fn fine_of(p: u64) -> int {
    p as int * FINE_PER_UNIT as int
}

/// A fine amount rounded to the nearest billionth (halves up).
pub open spec fn round_fine(f: int) -> int {
    (f + FINE_PER_UNIT as int / 2) / FINE_PER_UNIT as int
}

/// The fine rung `i` of the ladder over `[lo, hi]`.
pub open spec fn fine_rung(s: GridSettings, lo: u64, hi: u64, i: int) -> int {
    rung(fine_of(lo), grid_ratio(fine_of(lo), fine_of(hi), s.levels as nat), i as nat)
}

pub open spec fn level_at(s: GridSettings, lo: u64, hi: u64, current: u64, i: int) -> GridLevel {
    let fine = fine_rung(s, lo, hi, i);
    let price = round_fine(fine) as u64;
    GridLevel {
        price,
        fine_price: fine as u128,
        size: level_size(s.allocation_per_level, price),
        index: i as usize,
        is_buy: price < current,
        filled: false,
    }
}

/// The levels of a grid built over `[lo, hi]` when the price is `current`.
pub open spec fn ladder_levels(s: GridSettings, lo: u64, hi: u64, current: u64) -> Seq<GridLevel> {
    if s.levels < 2 {
        Seq::empty()
    } else {
        Seq::new(s.levels as nat, |i: int| level_at(s, lo, hi, current, i))
    }
}

/// The levels of a grid centered on `price`.
pub open spec fn levels_for(s: GridSettings, price: u64) -> Seq<GridLevel> {
    ladder_levels(s, grid_bounds(s, price).0, grid_bounds(s, price).1, price)
}

/// A level's order is emitted when it lies strictly on its side of the price.
pub open spec fn emits(l: GridLevel, current: u64) -> bool {
    (l.is_buy && l.price < current) || (!l.is_buy && l.price > current)
}

pub open spec fn level_terms(l: GridLevel) -> SignalTerms {
    SignalTerms {
        signal_type: if l.is_buy { SignalType::Buy } else { SignalType::Sell },
        size: l.size,
        price: Some(l.price),
        metadata: SignalMetadata::Level { level_index: l.index, grid_type: GridType::Initial },
    }
}

/// The orders of the levels that are emitted, in level order.
pub open spec fn signals_for(levels: Seq<GridLevel>, current: u64) -> Seq<SignalTerms>
    decreases levels.len(),
{
    if levels.len() == 0 {
        Seq::empty()
    } else {
        let prev = signals_for(levels.drop_last(), current);
        if emits(levels.last(), current) {
            prev.push(level_terms(levels.last()))
        } else {
            prev
        }
    }
}

/// The directive that cancels every resting order.
pub open spec fn cancel_all_terms() -> SignalTerms {
    SignalTerms {
        signal_type: SignalType::Close,
        size: 0,
        price: None,
        metadata: SignalMetadata::CancelAll,
    }
}

/// The price moved from `center` by more than `threshold_pct` percent of it.
pub open spec fn moved_beyond(center: u64, price: u64, threshold_pct: u64) -> bool {
    let diff = if price >= center { price - center } else { center - price };
    diff as int * 100 * UNIT as int > threshold_pct as int * center as int
}

/// One tick of the grid state machine: the new state, the new center, and
/// the signals emitted, for a strategy that is `active` in `state`.
pub open spec fn grid_step(
    s: GridSettings,
    active: bool,
    state: GridState,
    center: Option<u64>,
    price: u64,
) -> (GridState, Option<u64>, Seq<SignalTerms>) {
    if !active {
        (state, center, Seq::empty())
    } else {
        match state {
            GridState::Initializing => (
                GridState::Active,
                Some(price),
                signals_for(levels_for(s, price), price),
            ),
            GridState::Active => match center {
                Some(c) if moved_beyond(c, price, s.rebalance_threshold_pct) => (
                    GridState::Active,
                    Some(price),
                    seq![cancel_all_terms()] + signals_for(levels_for(s, price), price),
                ),
                _ => (state, center, Seq::empty()),
            },
            _ => (state, center, Seq::empty()),
        }
    }
}

/// A snapshot of the strategy for status reporting.
#[derive(Debug)]
pub struct GridStatus {
    pub name: String,
    pub active: bool,
    pub state: GridState,
    pub center_price: Option<u64>,
    pub total_levels: usize,
    pub active_levels: usize,
    pub filled_levels: usize,
    pub total_trades: u64,
    pub total_profit: u64,
    pub last_rebalance: Option<i64>,
}

pub struct BasicGridStrategy {
    pub symbol: String,
    pub settings: GridSettings,
    pub state: GridState,
    pub center_price: Option<u64>,
    pub grid_levels: Vec<GridLevel>,
    /// Timestamp of the sample that triggered the last rebalance.
    pub last_rebalance: Option<i64>,
    pub total_trades: u64,
    pub total_profit: u64,
    pub active: bool,
}

/// The settings a grid takes from a configuration.
pub open spec fn settings_of(config: BotConfig) -> GridSettings {
    let g = config.grid;
    GridSettings {
        levels: g.levels as usize,
        range_pct: g.price_range.auto.range_pct,
        allocation_per_level: match g.position_sizing.mode {
            PositionSizingMode::Auto => g.position_sizing.auto.min_position_size_usd,
            PositionSizingMode::Manual => g.position_sizing.manual.size_per_level,
        },
        manual_bounds: match g.price_range.mode {
            RangeMode::Manual => Some((g.price_range.manual.min, g.price_range.manual.max)),
            RangeMode::Auto => None,
        },
        rebalance_threshold_pct: config.risk_management.rebalance.price_move_threshold_pct,
    }
}

impl BasicGridStrategy {
    /// Well-formed: valid settings, and each level sits at its own index.
    pub open spec fn wf(&self) -> bool {
        &&& self.settings.valid()
        &&& forall|i: int| 0 <= i < self.grid_levels@.len() ==> #[trigger] self.grid_levels@[i].index == i
    }

    /// A strategy for `config`, active and waiting for its first price.
    pub fn new(config: &BotConfig) -> (r: Self)
        requires
            config.valid(),
        ensures
            r.wf(),
            r.symbol@ == config.grid.symbol@,
            r.settings == settings_of(*config),
            r.state == GridState::Initializing,
            r.center_price.is_none(),
            r.grid_levels@.len() == 0,
            r.last_rebalance.is_none(),
            r.total_trades == 0,
            r.total_profit == 0,
            r.active,
    {
        let grid = &config.grid;
        let manual_bounds = match grid.price_range.mode {
            RangeMode::Manual => Some((grid.price_range.manual.min, grid.price_range.manual.max)),
            RangeMode::Auto => None,
        };
        let allocation_per_level = match grid.position_sizing.mode {
            PositionSizingMode::Auto => grid.position_sizing.auto.min_position_size_usd,
            PositionSizingMode::Manual => grid.position_sizing.manual.size_per_level,
        };
        let settings = GridSettings {
            levels: grid.levels as usize,
            range_pct: grid.price_range.auto.range_pct,
            allocation_per_level,
            manual_bounds,
            rebalance_threshold_pct: config.risk_management.rebalance.price_move_threshold_pct,
        };
        BasicGridStrategy {
            symbol: grid.symbol.clone(),
            settings,
            state: GridState::Initializing,
            center_price: None,
            grid_levels: Vec::new(),
            last_rebalance: None,
            total_trades: 0,
            total_profit: 0,
            active: true,
        }
    }

    fn bounds(&self, price: u64) -> (r: (u64, u64))
        requires
            self.settings.valid(),
        ensures
            r == grid_bounds(self.settings, price),
    {
        match self.settings.manual_bounds {
            Some((lo, hi)) => (lo, hi),
            None => {
                proof {
                    assert((price as int) * (self.settings.range_pct as int)
                        <= (u64::MAX as int) * (50 * UNIT as int)) by (nonlinear_arith)
                        requires self.settings.range_pct <= 50 * UNIT, price <= u64::MAX,
                            price >= 0, self.settings.range_pct >= 0;
                }
                let range: u128 = (price as u128) * (self.settings.range_pct as u128)
                    / (100 * UNIT as u128);
                proof {
                    assert((price as int) * (self.settings.range_pct as int)
                        <= (price as int) * (50 * UNIT as int)) by (nonlinear_arith)
                        requires self.settings.range_pct <= 50 * UNIT, price >= 0;
                    vstd::arithmetic::div_mod::lemma_div_is_ordered(
                        (price as int) * (self.settings.range_pct as int),
                        (price as int) * (50 * UNIT as int), 100 * UNIT as int);
                    assert((price as int) * (50 * UNIT as int) / (100 * UNIT as int) <= price as int)
                        by (nonlinear_arith) requires price >= 0;
                }
                let lo: u128 = price as u128 - range;
                let hi: u128 = price as u128 + range;
                (
                    if lo < 1 { 1u64 } else { lo as u64 },
                    if hi > u64::MAX as u128 { u64::MAX } else { hi as u64 },
                )
            },
        }
    }

    /// The ladder of `levels` rungs over `[min_price, max_price]`.
    fn create_levels(&self, min_price: u64, max_price: u64, current_price: u64) -> (levels: Vec<GridLevel>)
        requires
            0 < min_price <= max_price,
        ensures
            levels@ == ladder_levels(self.settings, min_price, max_price, current_price),
    {
        let n: usize = self.settings.levels;
        let mut levels: Vec<GridLevel> = Vec::new();
        if n < 2 {
            proof {
                assert(levels@ =~= ladder_levels(self.settings, min_price, max_price, current_price));
            }
            return levels;
        }
        let lo_f: u128 = (min_price as u128) * FINE_PER_UNIT;
        let hi_f: u128 = (max_price as u128) * FINE_PER_UNIT;
        proof {
            vstd::arithmetic::div_mod::lemma_div_is_ordered_by_denominator(hi_f as int, FINE_PER_UNIT as int,
                lo_f as int);
            vstd::arithmetic::div_mod::lemma_div_by_multiple(max_price as int, FINE_PER_UNIT as int);
        }
        let ratio: u128 = find_grid_ratio(lo_f, hi_f, n);
        let ghost r = ratio as int;
        let ghost lo = lo_f as int;
        let alloc: u64 = self.settings.allocation_per_level;
        let mut fine: u128 = lo_f;
        let mut index: usize = 0;
        while index < n
            invariant
                2 <= n == self.settings.levels,
                0 < min_price <= max_price,
                lo_f as int == fine_of(min_price),
                hi_f as int == fine_of(max_price),
                is_grid_ratio(lo, hi_f as int, n as nat, r),
                r == grid_ratio(lo, hi_f as int, n as nat),
                r == ratio as int,
                lo == lo_f as int,
                alloc == self.settings.allocation_per_level,
                index <= n,
                index < n ==> fine as int == rung(lo, r, index as nat),
                levels@.len() == index,
                forall|i: int| 0 <= i < index ==> #[trigger] levels@[i]
                    == level_at(self.settings, min_price, max_price, current_price, i),
            decreases n - index,
        {
            proof {
                lemma_rung_monotone_in_k(lo, r, 0, index as nat);
                lemma_rung_monotone_in_k(lo, r, index as nat, (n - 1) as nat);
                assert(rung(lo, r, 0) == lo);
                let h = FINE_PER_UNIT as int / 2;
                let f = FINE_PER_UNIT as int;
                vstd::arithmetic::div_mod::lemma_div_is_ordered(fine as int + h, hi_f as int + h, f);
                lemma_round_whole(max_price as int);
                vstd::arithmetic::div_mod::lemma_div_is_ordered(f + h, fine as int + h, f);
            }
            let price: u64 = ((fine + FINE_PER_UNIT / 2) / FINE_PER_UNIT) as u64;
            let size128: u128 = (alloc as u128) * (UNIT as u128) / (price as u128);
            let size: u64 = if size128 > u64::MAX as u128 { u64::MAX } else { size128 as u64 };
            let level = GridLevel {
                price,
                fine_price: fine,
                size,
                index,
                is_buy: price < current_price,
                filled: false,
            };
            levels.push(level);
            if index + 1 < n {
                proof {
                    lemma_rung_monotone_in_k(lo, r, (index + 1) as nat, (n - 1) as nat);
                }
                match ratio_step(fine, ratio, hi_f) {
                    Some(v) => {
                        fine = v;
                    },
                    None => {
                        proof {
                            assert(false);
                        }
                        return levels;
                    },
                }
            }
            index = index + 1;
        }
        proof {
            assert(levels@ =~= ladder_levels(self.settings, min_price, max_price, current_price));
        }
        levels
    }
}


/// The reason text of a strategy signal with terms `t`: the level and its
/// price for a level order, "rebalance" for the cancel-all directive.
pub open spec fn signal_reason(t: SignalTerms) -> Seq<char> {
    match t.metadata {
        SignalMetadata::Level { level_index, .. } => "grid level "@ + decimal_text(level_index as u64) + " at "@
            + amount_text(match t.price { Some(p) => p, None => 0 }),
        _ => "rebalance"@,
    }
}

/// Every signal carries the reason its terms call for.
pub open spec fn reasons_match(signals: Seq<TradingSignal>) -> bool {
    forall|i: int| 0 <= i < signals.len() ==> ((#[trigger] signals[i]).reason matches Some(r)
        && r@ == signal_reason(signals[i].terms()))
}

/// The reason text of the order of `level`.
pub open spec fn level_reason(level: GridLevel) -> Seq<char> {
    "grid level "@ + decimal_text(level.index as u64) + " at "@ + amount_text(level.price)
}

/// The strategy re-centers the grid on this tick.
pub open spec fn rebalances(s: GridSettings, active: bool, state: GridState, center: Option<u64>, price: u64) -> bool {
    &&& active
    &&& state == GridState::Active
    &&& center matches Some(c) && moved_beyond(c, price, s.rebalance_threshold_pct)
}

/// The strategy builds a fresh grid on this tick.
pub open spec fn initializes(s: GridSettings, active: bool, state: GridState, center: Option<u64>, price: u64) -> bool {
    (active && state == GridState::Initializing) || rebalances(s, active, state, center, price)
}

/// Number of levels of `levels` that are filled.
pub open spec fn filled_count(levels: Seq<GridLevel>) -> nat
    decreases levels.len(),
{
    if levels.len() == 0 {
        0
    } else {
        filled_count(levels.drop_last()) + if levels.last().filled { 1nat } else { 0nat }
    }
}

/// Notional profit credited for a sell fill of `size` at `price`: the spread
/// over a synthetic buy at 99% of the price.
pub open spec fn sell_profit(price: u64, size: u64) -> int {
    (price as int - price as int * 99 / 100) * size as int / UNIT as int
}

/// What fills change in a strategy: its levels, trade count and profit.
pub struct GridRecord {
    pub levels: Seq<GridLevel>,
    pub total_trades: u64,
    pub total_profit: u64,
}

/// The record after a fill notification for a signal of `signal_type` with
/// `metadata`, executed at `price` for `size`: the trade is counted
/// (saturating), the signal's level, if it has one, is marked filled, and a
/// sell of a level credits its notional profit (saturating).
pub open spec fn record_fill(r: GridRecord, signal_type: SignalType, metadata: SignalMetadata, price: u64, size: u64)
    -> GridRecord
{
    let trades = if r.total_trades == u64::MAX { u64::MAX } else { (r.total_trades + 1) as u64 };
    match metadata {
        SignalMetadata::Level { level_index, .. } if level_index < r.levels.len() => GridRecord {
            levels: r.levels.update(level_index as int, GridLevel { filled: true, ..r.levels[level_index as int] }),
            total_trades: trades,
            total_profit: if signal_type == SignalType::Sell {
                let p = r.total_profit as int + sell_profit(price, size);
                if p > u64::MAX as int { u64::MAX } else { p as u64 }
            } else {
                r.total_profit
            },
        },
        _ => GridRecord { levels: r.levels, total_trades: trades, total_profit: r.total_profit },
    }
}

impl BasicGridStrategy {
    pub open spec fn record(&self) -> GridRecord {
        GridRecord { levels: self.grid_levels@, total_trades: self.total_trades, total_profit: self.total_profit }
    }

    /// The parts of the strategy that no tick changes.
    pub open spec fn same_setup(&self, other: &Self) -> bool {
        &&& self.symbol@ == other.symbol@
        &&& self.settings == other.settings
    }

    fn build_signal(&self, signal_type: SignalType, level: &GridLevel) -> (sig: TradingSignal)
        requires
            signal_type == (if level.is_buy { SignalType::Buy } else { SignalType::Sell }),
        ensures
            sig.terms() == level_terms(*level),
            sig.asset@ == self.symbol@,
            sig.reason matches Some(r) && r@ == level_reason(*level),
    {
        let mut reason = String::from_str("grid level ");
        let idx = decimal_string(level.index as u64);
        reason.append(idx.as_str());
        reason.append(" at ");
        let px = amount_string(level.price);
        reason.append(px.as_str());
        TradingSignal {
            signal_type,
            asset: self.symbol.clone(),
            size: level.size,
            price: Some(level.price),
            reason: Some(reason),
            metadata: SignalMetadata::Level { level_index: level.index, grid_type: GridType::Initial },
        }
    }

    /// Centers a fresh grid on `current_price` and emits its orders.
    fn initialize_grid(&mut self, current_price: u64) -> (signals: Vec<TradingSignal>)
        requires
            old(self).wf(),
            current_price > 0,
        ensures
            final(self).wf(),
            final(self).same_setup(old(self)),
            final(self).center_price == Some(current_price),
            final(self).grid_levels@ == levels_for(old(self).settings, current_price),
            final(self).state == GridState::Active,
            final(self).active == old(self).active,
            final(self).last_rebalance == old(self).last_rebalance,
            final(self).total_trades == old(self).total_trades,
            final(self).total_profit == old(self).total_profit,
            terms_of(signals@) == signals_for(levels_for(old(self).settings, current_price), current_price),
            forall|i: int| 0 <= i < signals@.len() ==> (#[trigger] signals@[i]).asset@ == old(self).symbol@,
            reasons_match(signals@),
    {
        self.center_price = Some(current_price);
        let (min_price, max_price) = self.bounds(current_price);
        proof {
            match self.settings.manual_bounds {
                Some(b) => {},
                None => {
                    assert(current_price as int * self.settings.range_pct as int >= 0) by (nonlinear_arith)
                        requires current_price >= 0, self.settings.range_pct >= 0;
                },
            }
        }
        self.grid_levels = self.create_levels(min_price, max_price, current_price);
        let ghost levels = self.grid_levels@;
        let mut signals: Vec<TradingSignal> = Vec::new();
        let mut i: usize = 0;
        let n = self.grid_levels.len();
        while i < n
            invariant
                n == levels.len(),
                levels == self.grid_levels@,
                i <= n,
                terms_of(signals@) == signals_for(levels.subrange(0, i as int), current_price),
                forall|j: int| 0 <= j < signals@.len() ==> (#[trigger] signals@[j]).asset@ == self.symbol@,
                reasons_match(signals@),
            decreases n - i,
        {
            let level = self.grid_levels[i];
            proof {
                assert(levels.subrange(0, i + 1).drop_last() =~= levels.subrange(0, i as int));
                assert(levels.subrange(0, i + 1).last() == level);
            }
            if level.is_buy && level.price < current_price {
                let sig = self.build_signal(SignalType::Buy, &level);
                let ghost before = signals@;
                signals.push(sig);
                proof {
                    assert(terms_of(signals@) =~= terms_of(before).push(sig.terms()));
                }
            } else if !level.is_buy && level.price > current_price {
                let sig = self.build_signal(SignalType::Sell, &level);
                let ghost before = signals@;
                signals.push(sig);
                proof {
                    assert(terms_of(signals@) =~= terms_of(before).push(sig.terms()));
                }
            }
            i = i + 1;
        }
        proof {
            assert(levels.subrange(0, n as int) =~= levels);
            assert forall|j: int| 0 <= j < self.grid_levels@.len() implies #[trigger] self.grid_levels@[j].index == j by {
                if self.settings.levels >= 2 {
                    assert(self.grid_levels@[j] == level_at(self.settings, min_price, max_price, current_price, j));
                }
            }
        }
        self.state = GridState::Active;
        signals
    }

    fn should_rebalance(&self, current_price: u64) -> (b: bool)
        ensures
            b == (self.center_price matches Some(c) && moved_beyond(c, current_price, self.settings.rebalance_threshold_pct)),
    {
        match self.center_price {
            Some(center) => {
                let diff: u64 = if current_price >= center { current_price - center } else { center - current_price };
                proof {
                    assert((diff as int) * 100 * (UNIT as int) <= (u64::MAX as int) * 100 * (UNIT as int))
                        by (nonlinear_arith) requires diff <= u64::MAX, diff >= 0;
                    let t = self.settings.rebalance_threshold_pct as int;
                    assert(t * (center as int) <= (u64::MAX as int) * (u64::MAX as int))
                        by (nonlinear_arith) requires 0 <= t <= u64::MAX, 0 <= center <= u64::MAX;
                }
                (diff as u128) * 100 * (UNIT as u128)
                    > (self.settings.rebalance_threshold_pct as u128) * (center as u128)
            },
            None => false,
        }
    }

    fn rebalance_grid(&mut self, current_price: u64, timestamp: i64) -> (signals: Vec<TradingSignal>)
        requires
            old(self).wf(),
            current_price > 0,
        ensures
            final(self).wf(),
            final(self).same_setup(old(self)),
            final(self).center_price == Some(current_price),
            final(self).grid_levels@ == levels_for(old(self).settings, current_price),
            final(self).state == GridState::Active,
            final(self).active == old(self).active,
            final(self).last_rebalance == Some(timestamp),
            final(self).total_trades == old(self).total_trades,
            final(self).total_profit == old(self).total_profit,
            terms_of(signals@) == seq![cancel_all_terms()]
                + signals_for(levels_for(old(self).settings, current_price), current_price),
            forall|i: int| 0 <= i < signals@.len() ==> (#[trigger] signals@[i]).asset@ == old(self).symbol@,
            reasons_match(signals@),
    {
        self.state = GridState::Rebalancing;
        let mut signals: Vec<TradingSignal> = Vec::new();
        let cancel = TradingSignal {
            signal_type: SignalType::Close,
            asset: self.symbol.clone(),
            size: 0,
            price: None,
            reason: Some(String::from_str("rebalance")),
            metadata: SignalMetadata::CancelAll,
        };
        proof {
            reveal_strlit("rebalance");
        }
        signals.push(cancel);
        self.state = GridState::Initializing;
        let mut fresh = self.initialize_grid(current_price);
        let ghost first = signals@;
        let ghost rest = fresh@;
        signals.append(&mut fresh);
        self.last_rebalance = Some(timestamp);
        proof {
            assert(signals@ =~= first + rest);
            assert(terms_of(signals@) =~= terms_of(first) + terms_of(rest));
            assert(terms_of(first) =~= seq![cancel_all_terms()]);
            assert forall|i: int| 0 <= i < signals@.len() implies ((#[trigger] signals@[i]).reason matches Some(r)
                && r@ == signal_reason(signals@[i].terms())) by {
                if i >= 1 {
                    assert(signals@[i] == rest[i - 1]);
                }
            }
        }
        signals
    }

    /// Reacts to one price observation with the signals of this tick.
    pub fn generate_signals(
        &mut self,
        market_data: &MarketData,
        positions: &[Position],
        balance: u64,
    ) -> (signals: Vec<TradingSignal>)
        requires
            old(self).wf(),
            market_data.price > 0,
        ensures
            final(self).wf(),
            final(self).same_setup(old(self)),
            ({
                let (st, c, t) = grid_step(old(self).settings, old(self).active, old(self).state,
                    old(self).center_price, market_data.price);
                &&& final(self).state == st
                &&& final(self).center_price == c
                &&& terms_of(signals@) == t
            }),
            final(self).active == old(self).active,
            final(self).total_trades == old(self).total_trades,
            final(self).total_profit == old(self).total_profit,
            initializes(old(self).settings, old(self).active, old(self).state, old(self).center_price, market_data.price)
                ==> final(self).grid_levels@ == levels_for(old(self).settings, market_data.price),
            !initializes(old(self).settings, old(self).active, old(self).state, old(self).center_price, market_data.price)
                ==> final(self).grid_levels@ == old(self).grid_levels@,
            rebalances(old(self).settings, old(self).active, old(self).state, old(self).center_price, market_data.price)
                ==> final(self).last_rebalance == Some(market_data.timestamp),
            !rebalances(old(self).settings, old(self).active, old(self).state, old(self).center_price, market_data.price)
                ==> final(self).last_rebalance == old(self).last_rebalance,
            forall|i: int| 0 <= i < signals@.len() ==> (#[trigger] signals@[i]).asset@ == old(self).symbol@,
            reasons_match(signals@),
    {
        if !self.active {
            return Vec::new();
        }
        match self.state {
            GridState::Initializing => self.initialize_grid(market_data.price),
            GridState::Active => {
                if self.should_rebalance(market_data.price) {
                    self.rebalance_grid(market_data.price, market_data.timestamp)
                } else {
                    Vec::new()
                }
            },
            _ => Vec::new(),
        }
    }

    /// Records a fill of `signal`: counts the trade, marks its level filled,
    /// and credits the notional profit of a sell.
    pub fn on_trade_executed(&mut self, signal: &TradingSignal, executed_price: u64, executed_size: u64)
        requires
            old(self).wf(),
        ensures
            final(self).wf(),
            final(self).same_setup(old(self)),
            final(self).state == old(self).state,
            final(self).center_price == old(self).center_price,
            final(self).active == old(self).active,
            final(self).last_rebalance == old(self).last_rebalance,
            final(self).record() == record_fill(old(self).record(), signal.signal_type, signal.metadata,
                executed_price, executed_size),
    {
        self.total_trades = self.total_trades.saturating_add(1);
        match signal.metadata {
            SignalMetadata::Level { level_index, .. } => {
                if level_index < self.grid_levels.len() {
                    let mut level = self.grid_levels[level_index];
                    level.filled = true;
                    self.grid_levels.set(level_index, level);
                    if signal.signal_type == SignalType::Sell {
                        let buy_price: u64 = ((executed_price as u128) * 99 / 100) as u64;
                        let spread: u64 = executed_price - buy_price;
                        proof {
                            assert((spread as int) * (executed_size as int) <= (u64::MAX as int) * (u64::MAX as int))
                                by (nonlinear_arith) requires 0 <= spread <= u64::MAX, 0 <= executed_size <= u64::MAX;
                        }
                        let profit: u128 = (spread as u128) * (executed_size as u128) / (UNIT as u128);
                        let total: u128 = self.total_profit as u128 + profit;
                        self.total_profit = if total > u64::MAX as u128 { u64::MAX } else { total as u64 };
                    }
                }
            },
            _ => {},
        }
    }

    /// The asset the strategy trades.
    pub fn name(&self) -> (s: &str)
        ensures
            s@ == self.symbol@,
    {
        self.symbol.as_str()
    }

    /// Lets the strategy emit signals again; its state is left as it is.
    pub fn start(&mut self)
        ensures
            final(self).active,
            final(self).state == old(self).state,
            final(self).center_price == old(self).center_price,
            final(self).grid_levels@ == old(self).grid_levels@,
            final(self).same_setup(old(self)),
            final(self).last_rebalance == old(self).last_rebalance,
            final(self).total_trades == old(self).total_trades,
            final(self).total_profit == old(self).total_profit,
    {
        self.active = true;
    }

    /// Silences the strategy and moves it to `Stopped`.
    pub fn stop(&mut self)
        ensures
            !final(self).active,
            final(self).state == GridState::Stopped,
            final(self).center_price == old(self).center_price,
            final(self).grid_levels@ == old(self).grid_levels@,
            final(self).same_setup(old(self)),
            final(self).last_rebalance == old(self).last_rebalance,
            final(self).total_trades == old(self).total_trades,
            final(self).total_profit == old(self).total_profit,
    {
        self.active = false;
        self.state = GridState::Stopped;
    }

    /// Counts, totals and state of the strategy.
    pub fn get_status(&self) -> (st: GridStatus)
        ensures
            st.name@ == self.symbol@,
            st.active == self.active,
            st.state == self.state,
            st.center_price == self.center_price,
            st.total_levels == self.grid_levels@.len(),
            st.filled_levels == filled_count(self.grid_levels@),
            st.active_levels + st.filled_levels == self.grid_levels@.len(),
            st.total_trades == self.total_trades,
            st.total_profit == self.total_profit,
            st.last_rebalance == self.last_rebalance,
    {
        let n = self.grid_levels.len();
        let mut filled: usize = 0;
        let mut i: usize = 0;
        while i < n
            invariant
                n == self.grid_levels@.len(),
                i <= n,
                filled == filled_count(self.grid_levels@.subrange(0, i as int)),
                filled <= i,
            decreases n - i,
        {
            proof {
                assert(self.grid_levels@.subrange(0, i + 1).drop_last() =~= self.grid_levels@.subrange(0, i as int));
            }
            if self.grid_levels[i].filled {
                filled = filled + 1;
            }
            i = i + 1;
        }
        proof {
            assert(self.grid_levels@.subrange(0, n as int) =~= self.grid_levels@);
        }
        GridStatus {
            name: self.symbol.clone(),
            active: self.active,
            state: self.state,
            center_price: self.center_price,
            total_levels: n,
            active_levels: n - filled,
            filled_levels: filled,
            total_trades: self.total_trades,
            total_profit: self.total_profit,
            last_rebalance: self.last_rebalance,
        }
    }
}

/// The strategy that a configuration describes.
pub fn create_strategy(config: &BotConfig) -> (s: BasicGridStrategy)
    requires
        config.valid(),
    ensures
        s.wf(),
        s.symbol@ == config.grid.symbol@,
        s.settings == settings_of(*config),
        s.state == GridState::Initializing,
        s.center_price.is_none(),
        s.grid_levels@.len() == 0,
        s.active,
{
    BasicGridStrategy::new(config)
}


/// Geometric grid: for `n >= 2` levels over `[lo, hi]`, every level's fine
/// price is the one below it times the single grid ratio, rounded down to
/// `10^-18`; the first is `lo`, all lie in `[lo, hi]`, rising with the index;
/// and from `lo` of a millionth of a unit up (a thousand billionths), any two
/// neighbour ratios `fine[i+1] / fine[i]` and `fine[j+1] / fine[j]` agree
/// within a relative `1e-12`.
pub proof fn lemma_geometric_levels(s: GridSettings, lo: u64, hi: u64, current: u64, i: int, j: int)
    requires
        1000 <= lo <= hi,
        s.levels >= 2,
        0 <= i < s.levels - 1,
        0 <= j < s.levels - 1,
    ensures
        ({
            let lv = ladder_levels(s, lo, hi, current);
            let r = grid_ratio(fine_of(lo), fine_of(hi), s.levels as nat);
            let (a, a2, b, b2) = (lv[i].fine_price as int, lv[i + 1].fine_price as int,
                lv[j].fine_price as int, lv[j + 1].fine_price as int);
            &&& lv.len() == s.levels
            &&& lv[0].fine_price as int == fine_of(lo)
            &&& r >= RATIO_UNIT as int
            &&& a2 == a * r / RATIO_UNIT as int
            &&& fine_of(lo) <= a <= a2 <= fine_of(hi)
            &&& b2 * a * 1_000_000_000_000 >= a2 * b * 999_999_999_999
        }),
{
    let n = s.levels as nat;
    let flo = fine_of(lo);
    let fhi = fine_of(hi);
    let r = grid_ratio(flo, fhi, n);
    lemma_grid_ratio_exists(flo, fhi, n);
    let ru = RATIO_UNIT as int;
    assert forall|k: int| 0 <= k < n - 1 implies {
        let x = #[trigger] rung(flo, r, k as nat);
        let y = rung(flo, r, (k + 1) as nat);
        &&& flo <= x <= y <= fhi
        &&& y == x * r / ru
        &&& y * ru <= x * r
        &&& y * ru > x * r - ru
    } by {
        lemma_rung_monotone_in_k(flo, r, 0, k as nat);
        lemma_rung_monotone_in_k(flo, r, k as nat, (k + 1) as nat);
        lemma_rung_monotone_in_k(flo, r, (k + 1) as nat, (n - 1) as nat);
        assert(rung(flo, r, 0) == flo);
        let x = rung(flo, r, k as nat);
        assert(x * r >= 0) by (nonlinear_arith) requires x >= 0, r >= 0;
        vstd::arithmetic::div_mod::lemma_fundamental_div_mod(x * r, ru);
    }
    lemma_rung_monotone_in_k(flo, r, 0, 0);
    assert(rung(flo, r, 0) == flo);
    let lv = ladder_levels(s, lo, hi, current);
    assert(lv[i].fine_price as int == rung(flo, r, i as nat));
    assert(lv[i + 1].fine_price as int == rung(flo, r, (i + 1) as nat));
    assert(lv[j].fine_price as int == rung(flo, r, j as nat));
    assert(lv[j + 1].fine_price as int == rung(flo, r, (j + 1) as nat));
    assert(lv[0].fine_price as int == rung(flo, r, 0));
    let (a, a2, b, b2) = (rung(flo, r, i as nat), rung(flo, r, (i + 1) as nat), rung(flo, r, j as nat),
        rung(flo, r, (j + 1) as nat));
    assert(flo >= 1_000_000_000_000);
    // b2 * a > a2 * b - a, from a2 * ru <= a * r and b2 * ru > b * r - ru
    assert(b2 * a * ru > a * b * r - a * ru) by (nonlinear_arith)
        requires b2 * ru > b * r - ru, a > 0;
    assert(a * b * r >= a2 * b * ru) by (nonlinear_arith)
        requires a2 * ru <= a * r, b > 0;
    assert(b2 * a > a2 * b - a) by (nonlinear_arith)
        requires b2 * a * ru > a2 * b * ru - a * ru, ru > 0;
    assert(a * 1_000_000_000_000 <= a2 * b) by (nonlinear_arith)
        requires a <= a2, b >= 1_000_000_000_000, a >= 0;
    assert(b2 * a * 1_000_000_000_000 >= a2 * b * 999_999_999_999) by (nonlinear_arith)
        requires b2 * a > a2 * b - a, a * 1_000_000_000_000 <= a2 * b;
}

/// The ladder spans its range: the first level is `lo` and, for at most 50
/// levels from `lo` of two ten-thousandths of a unit up, the top level's fine
/// price lies at or below `hi` and within a relative `1e-12` of it.
pub proof fn lemma_top_level(s: GridSettings, lo: u64, hi: u64, current: u64)
    requires
        200_000 <= lo <= hi,
        2 <= s.levels <= 50,
    ensures
        ({
            let lv = ladder_levels(s, lo, hi, current);
            let top = lv[s.levels - 1].fine_price as int;
            &&& lv[0].fine_price as int == fine_of(lo)
            &&& top <= fine_of(hi)
            &&& top * 1_000_000_000_000 >= fine_of(hi) * 999_999_999_999
        }),
{
    let n = s.levels as nat;
    let flo = fine_of(lo);
    let fhi = fine_of(hi);
    let r = grid_ratio(flo, fhi, n);
    lemma_grid_ratio_exists(flo, fhi, n);
    let k = (n - 1) as nat;
    lemma_rung_sensitivity(flo, r, k);
    let lv = ladder_levels(s, lo, hi, current);
    lemma_rung_monotone_in_k(flo, r, 0, k);
    assert(rung(flo, r, 0) == flo);
    assert(rung(flo, r, k) <= fhi);
    assert(lv[k as int].fine_price as int == rung(flo, r, k));
    assert(lv[0].fine_price as int == rung(flo, r, 0));
    let a = rung(flo, r, k);
    let b = rung(flo, r + 1, k);
    let mm: int = 100_000_000_000_000;
    assert(a >= 0) by {
        lemma_rung_monotone_in_k(flo, r, 0, k);
    }
    assert(b > fhi);
    assert(a * (mm + 49) >= b * mm) by (nonlinear_arith)
        requires (b - a) * mm <= k * a, k <= 49, a >= 0, mm > 0;
    assert(a * 1_000_000_000_000 >= fhi * 999_999_999_999) by (nonlinear_arith)
        requires a * (mm + 49) >= b * mm, b > fhi, fhi >= 0, a >= 0, mm == 100_000_000_000_000;
}

/// Rounding a whole number of billionths gives it back.
proof fn lemma_round_whole(p: int)
    requires
        p >= 0,
    ensures
        round_fine(p * FINE_PER_UNIT as int) == p,
{
    let f = FINE_PER_UNIT as int;
    vstd::arithmetic::div_mod::lemma_div_multiples_vanish_fancy(p, f / 2, f);
    assert(f * p + f / 2 == p * f + f / 2) by (nonlinear_arith);
}

} // verus!
