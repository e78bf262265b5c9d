//! The book-keeping of the paper exchange: balances and positions updated by
//! simulated fills, and the account figures derived from them. Fetching
//! market prices is left to the caller.
use vstd::prelude::*;
use vstd::string::StrSliceExecFns;
use crate::interfaces::{Balance, OrderSide, Position};
use crate::keyed::{distinct_keys, entries, lemma_entries_domain, lemma_entries_index, lemma_entries_remove,
    lemma_entries_update, lemma_push_distinct};
use crate::risk::AccountMetrics;
use crate::units::{UNIT, mul_units};

verus! {

/// Funds of one asset.
#[derive(Clone, Copy, Debug, PartialEq, Eq, Structural)]
pub struct Funds {
    pub available: i64,
    pub locked: i64,
    pub total: i64,
}

/// A position without its asset name.
#[derive(Clone, Copy, Debug, PartialEq, Eq, Structural)]
pub struct Holding {
    pub size: i64,
    pub entry_price: u64,
    pub current_value: u64,
    pub unrealized_pnl: i64,
    pub timestamp: i64,
}

#[derive(Clone, Copy, Debug, PartialEq, Eq, Structural)]
pub enum PaperError {
    /// An amount left the range of the fixed-point representation.
    Overflow,
}

pub open spec fn balance_key() -> spec_fn(Balance) -> Seq<char> {
    |b: Balance| b.asset@
}

pub open spec fn balance_funds() -> spec_fn(Balance) -> Funds {
    |b: Balance| Funds { available: b.available, locked: b.locked, total: b.total }
}

pub open spec fn position_key() -> spec_fn(Position) -> Seq<char> {
    |p: Position| p.asset@
}

pub open spec fn position_holding() -> spec_fn(Position) -> Holding {
    |p: Position| Holding {
        size: p.size,
        entry_price: p.entry_price,
        current_value: p.current_value,
        unrealized_pnl: p.unrealized_pnl,
        timestamp: p.timestamp,
    }
}

/// The quote currency, in which fills are paid.
pub open spec fn quote_asset() -> Seq<char> {
    "USD"@
}

/// Funds a paper account starts with in the quote currency: 10 000.
pub open spec fn opening_funds() -> Funds {
    Funds { available: 10_000_000_000_000, locked: 0, total: 10_000_000_000_000 }
}

pub open spec fn fits_i64(x: int) -> bool {
    i64::MIN <= x <= i64::MAX
}

/// Quote funds after paying for a buy, or being paid for a sell, of `value`.
pub open spec fn funds_after_fill(f: Funds, side: OrderSide, value: int) -> Option<Funds> {
    let d = if side == OrderSide::Buy { -value } else { value };
    if fits_i64(f.available + d) && fits_i64(f.total + d) {
        Some(Funds { available: (f.available + d) as i64, locked: f.locked, total: (f.total + d) as i64 })
    } else {
        None
    }
}

/// The holding after a fill of `size` at `price`: `Some(None)` when it is
/// closed, `None` when an amount leaves the representable range. A new
/// holding starts empty at the fill price.
pub open spec fn holding_after_fill(h: Option<Holding>, side: OrderSide, price: u64, size: u64, now: i64) -> Option<Option<Holding>> {
    let base = match h {
        Some(x) => x,
        None => Holding { size: 0, entry_price: price, current_value: 0, unrealized_pnl: 0, timestamp: now },
    };
    match side {
        OrderSide::Buy => {
            let total = base.size as int + size as int;
            let basis = mul_units(base.entry_price as int, abs_int(base.size as int)) + mul_units(price as int, size as int);
            let entry = if total != 0 { basis * UNIT as int / abs_int(total) } else { price as int };
            if fits_i64(total) && 0 <= entry <= u64::MAX as int {
                Some(Some(Holding { size: total as i64, entry_price: entry as u64, ..base }))
            } else {
                None
            }
        },
        OrderSide::Sell => {
            let rest = base.size as int - size as int;
            if !fits_i64(rest) {
                None
            } else if rest == 0 {
                Some(None)
            } else {
                Some(Some(Holding { size: rest as i64, ..base }))
            }
        },
    }
}

pub open spec fn abs_int(x: int) -> int {
    if x < 0 { -x } else { x }
}

/// A paper trading account.
pub struct PaperAccount {
    pub balances: Vec<Balance>,
    pub positions: Vec<Position>,
}

fn text_eq(a: &str, b: &str) -> (r: bool)
    ensures
        r == (a@ == b@),
{
    let n = a.unicode_len();
    if n != b.unicode_len() {
        return false;
    }
    let mut i: usize = 0;
    while i < n
        invariant
            n == a@.len() == b@.len(),
            i <= n,
            forall|j: int| 0 <= j < i ==> a@[j] == b@[j],
        decreases n - i,
    {
        if a.get_char(i) != b.get_char(i) {
            return false;
        }
        i = i + 1;
    }
    proof {
        assert(a@ =~= b@);
    }
    true
}

fn copy_position(p: &Position) -> (q: Position)
    ensures
        q == *p,
{
    Position {
        asset: p.asset.clone(),
        size: p.size,
        entry_price: p.entry_price,
        current_value: p.current_value,
        unrealized_pnl: p.unrealized_pnl,
        timestamp: p.timestamp,
    }
}

impl PaperAccount {
    pub open spec fn wf(&self) -> bool {
        &&& distinct_keys(self.balances@, balance_key())
        &&& distinct_keys(self.positions@, position_key())
    }

    /// Funds by asset.
    pub open spec fn funds(&self) -> Map<Seq<char>, Funds> {
        entries(self.balances@, balance_key(), balance_funds())
    }

    /// Positions by asset.
    pub open spec fn holdings(&self) -> Map<Seq<char>, Holding> {
        entries(self.positions@, position_key(), position_holding())
    }

    /// Quote funds, or the opening funds before the first fill.
    pub open spec fn quote_funds(&self) -> Funds {
        if self.funds().contains_key(quote_asset()) { self.funds()[quote_asset()] } else { opening_funds() }
    }

    pub fn new() -> (a: Self)
        ensures
            a.wf(),
            a.funds() == Map::<Seq<char>, Funds>::empty(),
            a.holdings() == Map::<Seq<char>, Holding>::empty(),
    {
        PaperAccount { balances: Vec::new(), positions: Vec::new() }
    }

    fn find_balance(&self, asset: &str) -> (r: Option<usize>)
        ensures
            r matches Some(i) ==> i < self.balances@.len() && self.balances@[i as int].asset@ == asset@,
            r is None ==> forall|j: int| 0 <= j < self.balances@.len() ==> (#[trigger] self.balances@[j]).asset@ != asset@,
    {
        let mut i: usize = 0;
        while i < self.balances.len()
            invariant
                i <= self.balances@.len(),
                forall|j: int| 0 <= j < i ==> (#[trigger] self.balances@[j]).asset@ != asset@,
            decreases self.balances@.len() - i,
        {
            if text_eq(self.balances[i].asset.as_str(), asset) {
                return Some(i);
            }
            i = i + 1;
        }
        None
    }

    fn find_position(&self, asset: &str) -> (r: Option<usize>)
        ensures
            r matches Some(i) ==> i < self.positions@.len() && self.positions@[i as int].asset@ == asset@,
            r is None ==> forall|j: int| 0 <= j < self.positions@.len() ==> (#[trigger] self.positions@[j]).asset@ != asset@,
    {
        let mut i: usize = 0;
        while i < self.positions.len()
            invariant
                i <= self.positions@.len(),
                forall|j: int| 0 <= j < i ==> (#[trigger] self.positions@[j]).asset@ != asset@,
            decreases self.positions@.len() - i,
        {
            if text_eq(self.positions[i].asset.as_str(), asset) {
                return Some(i);
            }
            i = i + 1;
        }
        None
    }

    /// The funds held in `asset`; an asset never seen before is recorded
    /// with nothing in it.
    pub fn get_balance(&mut self, asset: &str) -> (b: Balance)
        requires
            old(self).wf(),
        ensures
            final(self).wf(),
            b.asset@ == asset@,
            final(self).holdings() == old(self).holdings(),
            old(self).funds().contains_key(asset@) ==> final(self).funds() == old(self).funds()
                && balance_funds()(b) == old(self).funds()[asset@],
            !old(self).funds().contains_key(asset@) ==> final(self).funds()
                == old(self).funds().insert(asset@, Funds { available: 0, locked: 0, total: 0 })
                && b.available == 0 && b.locked == 0 && b.total == 0,
    {
        proof {
            lemma_entries_domain(self.balances@, balance_key(), balance_funds(), asset@);
        }
        match self.find_balance(asset) {
            Some(i) => {
                proof {
                    lemma_entries_index(self.balances@, balance_key(), balance_funds(), i as int);
                }
                let b = &self.balances[i];
                Balance { asset: b.asset.clone(), available: b.available, locked: b.locked, total: b.total }
            },
            None => {
                let ghost before = self.balances@;
                let fresh = Balance { asset: String::from_str(asset), available: 0, locked: 0, total: 0 };
                proof {
                    lemma_push_distinct(before, balance_key(), fresh);
                }
                self.balances.push(fresh);
                proof {
                    assert(self.balances@.drop_last() =~= before);
                }
                Balance { asset: String::from_str(asset), available: 0, locked: 0, total: 0 }
            },
        }
    }

    /// Records a fill of `size` of `asset` at `price`: the quote funds pay or
    /// receive its value, and the position grows (with a size-weighted entry
    /// price) or shrinks, and is dropped when it reaches zero.
    pub fn update_balance_on_fill(&mut self, side: OrderSide, price: u64, size: u64, asset: &str, now: i64)
        -> (r: Result<(), PaperError>)
        requires
            old(self).wf(),
        ensures
            final(self).wf(),
            ({
                let value = mul_units(price as int, size as int);
                let h = if old(self).holdings().contains_key(asset@) { Some(old(self).holdings()[asset@]) } else { None };
                match (funds_after_fill(old(self).quote_funds(), side, value), holding_after_fill(h, side, price, size, now)) {
                    (Some(f), Some(nh)) => r is Ok
                        && final(self).funds() == old(self).funds().insert(quote_asset(), f)
                        && final(self).holdings() == match nh {
                            Some(x) => old(self).holdings().insert(asset@, x),
                            None => old(self).holdings().remove(asset@),
                        },
                    _ => r == Err::<(), PaperError>(PaperError::Overflow)
                        && final(self).funds() == old(self).funds() && final(self).holdings() == old(self).holdings(),
                }
            }),
    {
        proof {
            assert((price as int) * (size as int) <= (u64::MAX as int) * (u64::MAX as int)) by (nonlinear_arith)
                requires 0 <= price <= u64::MAX, 0 <= size <= u64::MAX;
            reveal_strlit("USD");
            lemma_entries_domain(self.balances@, balance_key(), balance_funds(), quote_asset());
            lemma_entries_domain(self.positions@, position_key(), position_holding(), asset@);
        }
        let v128: u128 = (price as u128) * (size as u128) / (UNIT as u128);
        proof {
            vstd::arithmetic::div_mod::lemma_div_is_ordered((price as int) * (size as int),
                (u64::MAX as int) * (u64::MAX as int), UNIT as int);
            assert((u64::MAX as int) * (u64::MAX as int) / (UNIT as int) < i64::MAX as int * 1_000_000_000_000);
        }
        let value: i128 = v128 as i128;
        // quote funds
        let bi = self.find_balance("USD");
        let (avail, locked, total) = match bi {
            Some(i) => {
                proof {
                    lemma_entries_index(self.balances@, balance_key(), balance_funds(), i as int);
                }
                (self.balances[i].available, self.balances[i].locked, self.balances[i].total)
            },
            None => (10_000_000_000_000i64, 0i64, 10_000_000_000_000i64),
        };
        let d: i128 = match side {
            OrderSide::Buy => -value,
            OrderSide::Sell => value,
        };
        let new_avail: i128 = avail as i128 + d;
        let new_total: i128 = total as i128 + d;
        if new_avail < i64::MIN as i128 || new_avail > i64::MAX as i128 || new_total < i64::MIN as i128
            || new_total > i64::MAX as i128 {
            return Err(PaperError::Overflow);
        }
        // position
        let pi = self.find_position(asset);
        let (cur_size, cur_entry, cur_value, cur_pnl, cur_ts) = match pi {
            Some(i) => {
                proof {
                    lemma_entries_index(self.positions@, position_key(), position_holding(), i as int);
                }
                let p = &self.positions[i];
                (p.size, p.entry_price, p.current_value, p.unrealized_pnl, p.timestamp)
            },
            None => (0i64, price, 0u64, 0i64, now),
        };
        let (new_size, new_entry): (i128, u128) = match side {
            OrderSide::Buy => {
                let total_size: i128 = cur_size as i128 + size as i128;
                let held: u128 = if cur_size < 0 { (-(cur_size as i128)) as u128 } else { cur_size as u128 };
                proof {
                    assert((cur_entry as int) * (held as int) <= (u64::MAX as int) * (u64::MAX as int)) by (nonlinear_arith)
                        requires 0 <= cur_entry <= u64::MAX, 0 <= held <= u64::MAX;
                }
                let basis: u128 = (cur_entry as u128) * held / (UNIT as u128) + (price as u128) * (size as u128) / (UNIT as u128);
                let entry: u128 = if total_size != 0 {
                    let t: u128 = if total_size < 0 { (-total_size) as u128 } else { total_size as u128 };
                    let q: u128 = basis / t;
                    let rm: u128 = basis % t;
                    proof {
                        assert(t <= u64::MAX as int + i64::MAX as int + 1);
                        assert((rm as int) * (UNIT as int) < (t as int) * (UNIT as int)) by (nonlinear_arith)
                            requires 0 <= rm < t;
                    }
                    let q2: u128 = rm * (UNIT as u128) / t;
                    if q > u64::MAX as u128 {
                        proof {
                            lemma_entry_split(basis as int, t as int, UNIT as int);
                            assert((q as int) * (UNIT as int) > u64::MAX as int) by (nonlinear_arith)
                                requires q > u64::MAX as int;
                        }
                        return Err(PaperError::Overflow);
                    }
                    proof {
                        lemma_entry_split(basis as int, t as int, UNIT as int);
                        assert((q as int) * (UNIT as int) <= (u64::MAX as int) * (UNIT as int)) by (nonlinear_arith)
                            requires q <= u64::MAX as int, q >= 0;
                    }
                    q * (UNIT as u128) + q2
                } else {
                    price as u128
                };
                (total_size, entry)
            },
            OrderSide::Sell => (cur_size as i128 - size as i128, cur_entry as u128),
        };
        if new_size < i64::MIN as i128 || new_size > i64::MAX as i128 || new_entry > u64::MAX as u128 {
            return Err(PaperError::Overflow);
        }
        // write the quote funds
        let ghost prev_balances = self.balances@;
        match bi {
            Some(i) => {
                let name = String::from_str("USD");
                let nb = Balance { asset: name, available: new_avail as i64, locked, total: new_total as i64 };
                proof {
                    lemma_entries_update(prev_balances, balance_key(), balance_funds(), i as int, nb);
                }
                self.balances.set(i, nb);
            },
            None => {
                let nb = Balance {
                    asset: String::from_str("USD"),
                    available: new_avail as i64,
                    locked,
                    total: new_total as i64,
                };
                proof {
                    lemma_push_distinct(prev_balances, balance_key(), nb);
                }
                self.balances.push(nb);
                proof {
                    assert(self.balances@.drop_last() =~= prev_balances);
                }
            },
        }
        // write the position
        let ghost prev_positions = self.positions@;
        match pi {
            Some(i) => {
                if new_size == 0 && side == OrderSide::Sell {
                    proof {
                        lemma_entries_remove(prev_positions, position_key(), position_holding(), i as int);
                    }
                    self.positions.remove(i);
                } else {
                    let np = Position {
                        asset: self.positions[i].asset.clone(),
                        size: new_size as i64,
                        entry_price: new_entry as u64,
                        current_value: cur_value,
                        unrealized_pnl: cur_pnl,
                        timestamp: cur_ts,
                    };
                    proof {
                        lemma_entries_update(prev_positions, position_key(), position_holding(), i as int, np);
                    }
                    self.positions.set(i, np);
                }
            },
            None => {
                if !(new_size == 0 && side == OrderSide::Sell) {
                    let np = Position {
                        asset: String::from_str(asset),
                        size: new_size as i64,
                        entry_price: new_entry as u64,
                        current_value: cur_value,
                        unrealized_pnl: cur_pnl,
                        timestamp: cur_ts,
                    };
                    proof {
                        lemma_push_distinct(prev_positions, position_key(), np);
                    }
                    self.positions.push(np);
                    proof {
                        assert(self.positions@.drop_last() =~= prev_positions);
                    }
                } else {
                    proof {
                        assert(!entries(prev_positions, position_key(), position_holding()).contains_key(asset@));
                        assert(entries(prev_positions, position_key(), position_holding()).remove(asset@)
                            =~= entries(prev_positions, position_key(), position_holding()));
                    }
                }
            },
        }
        Ok(())
    }

    /// Closes `size` of the position in `asset` (all of it when `None`),
    /// toward zero; a position that reaches zero is dropped. `false` when
    /// there is no position in `asset`.
    pub fn close_position(&mut self, asset: &str, size: Option<u64>) -> (r: Result<bool, PaperError>)
        requires
            old(self).wf(),
        ensures
            final(self).wf(),
            final(self).funds() == old(self).funds(),
            !old(self).holdings().contains_key(asset@) ==> r == Ok::<bool, PaperError>(false)
                && final(self).holdings() == old(self).holdings(),
            old(self).holdings().contains_key(asset@) ==> ({
                let h = old(self).holdings()[asset@];
                let close = match size { Some(s) => s as int, None => abs_int(h.size as int) };
                let rest = if h.size >= 0 { h.size as int - close } else { h.size as int + close };
                if !fits_i64(rest) {
                    r == Err::<bool, PaperError>(PaperError::Overflow) && final(self).holdings() == old(self).holdings()
                } else if rest == 0 {
                    r == Ok::<bool, PaperError>(true) && final(self).holdings() == old(self).holdings().remove(asset@)
                } else {
                    r == Ok::<bool, PaperError>(true)
                        && final(self).holdings() == old(self).holdings().insert(asset@, Holding { size: rest as i64, ..h })
                }
            }),
    {
        proof {
            lemma_entries_domain(self.positions@, position_key(), position_holding(), asset@);
        }
        match self.find_position(asset) {
            None => Ok(false),
            Some(i) => {
                proof {
                    lemma_entries_index(self.positions@, position_key(), position_holding(), i as int);
                }
                let cur = self.positions[i].size;
                let close: i128 = match size {
                    Some(s) => s as i128,
                    None => if cur < 0 { -(cur as i128) } else { cur as i128 },
                };
                let rest: i128 = if cur >= 0 { cur as i128 - close } else { cur as i128 + close };
                if rest < i64::MIN as i128 || rest > i64::MAX as i128 {
                    return Err(PaperError::Overflow);
                }
                let ghost prev_positions = self.positions@;
                if rest == 0 {
                    proof {
                        lemma_entries_remove(prev_positions, position_key(), position_holding(), i as int);
                    }
                    self.positions.remove(i);
                } else {
                    let old_p = &self.positions[i];
                    let np = Position {
                        asset: old_p.asset.clone(),
                        size: rest as i64,
                        entry_price: old_p.entry_price,
                        current_value: old_p.current_value,
                        unrealized_pnl: old_p.unrealized_pnl,
                        timestamp: old_p.timestamp,
                    };
                    proof {
                        lemma_entries_update(prev_positions, position_key(), position_holding(), i as int, np);
                    }
                    self.positions.set(i, np);
                }
                Ok(true)
            },
        }
    }

    /// Marks every position that `prices` quotes at its price: its value
    /// becomes size times price (capped at the largest amount), its
    /// unrealized profit zero, its timestamp `now`.
    pub fn refresh_position_values(&mut self, prices: &Vec<(String, u64)>, now: i64)
        requires
            old(self).wf(),
        ensures
            final(self).wf(),
            final(self).funds() == old(self).funds(),
            final(self).positions@.len() == old(self).positions@.len(),
            forall|i: int| 0 <= i < old(self).positions@.len() ==> {
                let p = #[trigger] old(self).positions@[i];
                let q = final(self).positions@[i];
                &&& q.asset@ == p.asset@
                &&& q.size == p.size
                &&& q.entry_price == p.entry_price
                &&& match quoted_price(prices@, p.asset@) {
                    Some(px) => q.current_value == marked_value(p.size, px) && q.unrealized_pnl == 0 && q.timestamp == now,
                    None => q.current_value == p.current_value && q.unrealized_pnl == p.unrealized_pnl
                        && q.timestamp == p.timestamp,
                }
            },
    {
        let n = self.positions.len();
        let ghost prev_positions = self.positions@;
        let mut i: usize = 0;
        while i < n
            invariant
                n == prev_positions.len() == self.positions@.len(),
                i <= n,
                prev_positions == old(self).positions@,
                self.balances@ == old(self).balances@,
                distinct_keys(self.balances@, balance_key()),
                distinct_keys(prev_positions, position_key()),
                forall|j: int| 0 <= j < n ==> (#[trigger] self.positions@[j]).asset@ == prev_positions[j].asset@,
                forall|j: int| i <= j < n ==> #[trigger] self.positions@[j] == prev_positions[j],
                forall|j: int| 0 <= j < i ==> {
                    let p = #[trigger] prev_positions[j];
                    let q = self.positions@[j];
                    &&& q.size == p.size
                    &&& q.entry_price == p.entry_price
                    &&& match quoted_price(prices@, p.asset@) {
                        Some(px) => q.current_value == marked_value(p.size, px) && q.unrealized_pnl == 0 && q.timestamp == now,
                        None => q.current_value == p.current_value && q.unrealized_pnl == p.unrealized_pnl
                            && q.timestamp == p.timestamp,
                    }
                },
            decreases n - i,
        {
            let found = find_price(prices, self.positions[i].asset.as_str());
            match found {
                Some(px) => {
                    let p = &self.positions[i];
                    let size_abs: u128 = if p.size < 0 { (-(p.size as i128)) as u128 } else { p.size as u128 };
                    proof {
                        assert((size_abs as int) * (px as int) <= (u64::MAX as int) * (u64::MAX as int)) by (nonlinear_arith)
                            requires 0 <= size_abs <= u64::MAX, 0 <= px <= u64::MAX;
                    }
                    let v: u128 = size_abs * (px as u128) / (UNIT as u128);
                    let np = Position {
                        asset: p.asset.clone(),
                        size: p.size,
                        entry_price: p.entry_price,
                        current_value: if v > u64::MAX as u128 { u64::MAX } else { v as u64 },
                        unrealized_pnl: 0,
                        timestamp: now,
                    };
                    self.positions.set(i, np);
                },
                None => {},
            }
            i = i + 1;
        }
        proof {
            assert(distinct_keys(self.positions@, position_key())) by {
                assert forall|a: int, b: int| 0 <= a < b < self.positions@.len()
                    implies position_key()(#[trigger] self.positions@[a]) != position_key()(#[trigger] self.positions@[b]) by {
                    assert(position_key()(prev_positions[a]) != position_key()(prev_positions[b]));
                }
            }
        }
    }

    /// Account figures of the paper account: total value over every balance,
    /// number of positions, and the largest position value in percent of the
    /// total value (zero when the total is not positive). Profit figures are
    /// not tracked and read zero.
    pub fn compute_metrics(&self) -> (m: AccountMetrics)
        requires
            self.balances@.len() <= u32::MAX,
        ensures
            m.total_value as int == clamp_i64(funds_total(self.balances@)),
            m.positions_count == self.positions@.len(),
            m.largest_position_pct as int == if m.total_value > 0 {
                largest_share(self.positions@, m.total_value as int)
            } else {
                0
            },
            m.total_pnl == 0 && m.unrealized_pnl == 0 && m.realized_pnl == 0 && m.drawdown_pct == 0,
    {
        let mut sum: i128 = 0;
        let mut i: usize = 0;
        let nb = self.balances.len();
        while i < nb
            invariant
                nb == self.balances@.len(),
                nb <= u32::MAX,
                i <= nb,
                sum as int == funds_total(self.balances@.subrange(0, i as int)),
                -(i as int) * 2 * (i64::MAX as int + 1) <= sum as int <= (i as int) * 2 * (i64::MAX as int),
            decreases nb - i,
        {
            proof {
                assert(self.balances@.subrange(0, i + 1).drop_last() =~= self.balances@.subrange(0, i as int));
                assert((i as int + 1) * 2 * (i64::MAX as int + 1) <= (u32::MAX as int) * 2 * (i64::MAX as int + 1))
                    by (nonlinear_arith) requires i < u32::MAX;
                assert((i as int + 1) * 2 * (i64::MAX as int) <= (u32::MAX as int) * 2 * (i64::MAX as int))
                    by (nonlinear_arith) requires i < u32::MAX;
            }
            let b = &self.balances[i];
            sum = sum + b.available as i128 + b.locked as i128;
            i = i + 1;
        }
        proof {
            assert(self.balances@.subrange(0, nb as int) =~= self.balances@);
        }
        let total: i64 = if sum > i64::MAX as i128 { i64::MAX } else if sum < i64::MIN as i128 { i64::MIN } else { sum as i64 };
        let mut largest: u64 = 0;
        if total > 0 {
            let mut k: usize = 0;
            let np = self.positions.len();
            while k < np
                invariant
                    np == self.positions@.len(),
                    k <= np,
                    total > 0,
                    largest as int == largest_share(self.positions@.subrange(0, k as int), total as int),
                decreases np - k,
            {
                proof {
                    assert(self.positions@.subrange(0, k + 1).drop_last() =~= self.positions@.subrange(0, k as int));
                }
                let cv = self.positions[k].current_value;
                proof {
                    assert((cv as int) * 100 * (UNIT as int) <= (u64::MAX as int) * 100 * (UNIT as int)) by (nonlinear_arith)
                        requires 0 <= cv <= u64::MAX;
                }
                let pct: u128 = (cv as u128) * 100 * (UNIT as u128) / (total as u128);
                let pct64: u64 = if pct > u64::MAX as u128 { u64::MAX } else { pct as u64 };
                if pct64 > largest {
                    largest = pct64;
                }
                k = k + 1;
            }
            proof {
                assert(self.positions@.subrange(0, np as int) =~= self.positions@);
            }
        }
        AccountMetrics {
            total_value: total,
            total_pnl: 0,
            unrealized_pnl: 0,
            realized_pnl: 0,
            drawdown_pct: 0,
            positions_count: self.positions.len(),
            largest_position_pct: largest,
        }
    }
}

/// `b * u / t` split through the quotient and remainder of `b / t`.
proof fn lemma_entry_split(b: int, t: int, u: int)
    requires
        b >= 0,
        t > 0,
        u > 0,
    ensures
        b * u / t == (b / t) * u + (b % t) * u / t,
        b * u / t >= (b / t) * u,
{
    let q = b / t;
    let rm = b % t;
    vstd::arithmetic::div_mod::lemma_fundamental_div_mod(b, t);
    let q2 = rm * u / t;
    let r2 = rm * u % t;
    assert(rm * u >= 0) by (nonlinear_arith) requires rm >= 0, u > 0;
    vstd::arithmetic::div_mod::lemma_fundamental_div_mod(rm * u, t);
    assert(b * u == t * (q * u + q2) + r2) by (nonlinear_arith)
        requires b == t * q + rm, rm * u == t * q2 + r2;
    vstd::arithmetic::div_mod::lemma_div_multiples_vanish_fancy(q * u + q2, r2, t);
    assert(q2 >= 0) by {
        vstd::arithmetic::div_mod::lemma_div_pos_is_pos(rm * u, t);
    }
}

/// The price that `prices` gives `asset`: its first entry for it.
pub open spec fn quoted_price(prices: Seq<(String, u64)>, asset: Seq<char>) -> Option<u64>
    decreases prices.len(),
{
    if prices.len() == 0 {
        None
    } else if prices[0].0@ == asset {
        Some(prices[0].1)
    } else {
        quoted_price(prices.subrange(1, prices.len() as int), asset)
    }
}

/// Value of a position of `size` at `price`, capped at the largest amount.
pub open spec fn marked_value(size: i64, price: u64) -> u64 {
    let v = abs_int(size as int) * price as int / UNIT as int;
    if v > u64::MAX as int { u64::MAX } else { v as u64 }
}

/// Sum of the available and locked funds of every balance.
pub open spec fn funds_total(bs: Seq<Balance>) -> int
    decreases bs.len(),
{
    if bs.len() == 0 {
        0
    } else {
        funds_total(bs.drop_last()) + bs.last().available as int + bs.last().locked as int
    }
}

pub open spec fn clamp_i64(x: int) -> int {
    if x > i64::MAX as int { i64::MAX as int } else if x < i64::MIN as int { i64::MIN as int } else { x }
}

/// Percentage of `total` that a position's value makes up, rounded down and
/// capped at the largest amount.
pub open spec fn share_of(p: Position, total: int) -> int {
    let s = p.current_value as int * 100 * UNIT as int / total;
    if s > u64::MAX as int { u64::MAX as int } else { s }
}

/// The largest share of `total` among the positions, or zero.
pub open spec fn largest_share(ps: Seq<Position>, total: int) -> int
    decreases ps.len(),
{
    if ps.len() == 0 {
        0
    } else {
        let m = largest_share(ps.drop_last(), total);
        let s = share_of(ps.last(), total);
        if s > m { s } else { m }
    }
}

fn find_price(prices: &Vec<(String, u64)>, asset: &str) -> (r: Option<u64>)
    ensures
        r == quoted_price(prices@, asset@),
{
    let n = prices.len();
    let mut i: usize = 0;
    proof {
        assert(prices@.subrange(0, n as int) =~= prices@);
    }
    while i < n
        invariant
            n == prices@.len(),
            i <= n,
            quoted_price(prices@, asset@) == quoted_price(prices@.subrange(i as int, n as int), asset@),
        decreases n - i,
    {
        let ghost rest = prices@.subrange(i as int, n as int);
        proof {
            assert(rest[0] == prices@[i as int]);
            assert(rest.subrange(1, rest.len() as int) =~= prices@.subrange(i + 1, n as int));
        }
        if text_eq(prices[i].0.as_str(), asset) {
            return Some(prices[i].1);
        }
        i = i + 1;
    }
    None
}

} // verus!
