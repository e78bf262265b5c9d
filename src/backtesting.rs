//! Deterministic replay of a price series through the grid strategy, with a
//! long-only book of cash, position and resting limit orders.
use vstd::prelude::*;
use crate::config::BotConfig;
use crate::grid::{BasicGridStrategy, GridRecord, GridSettings, GridState, grid_step, record_fill, settings_of};
use crate::interfaces::{MarketData, OrderSide, Position, SignalMetadata, SignalTerms, SignalType,
    TradingSignal, terms_of};
use crate::units::{TOLERANCE, UNIT, mul_units};

verus! {

/// One observed price, at a time in nanoseconds since the epoch.
#[derive(Clone, Copy, Debug, PartialEq, Eq, Structural)]
pub struct PriceSample {
    pub timestamp: i64,
    pub price: u64,
}

impl PriceSample {
    pub fn new(timestamp: i64, price: u64) -> (s: Self)
        ensures
            s.timestamp == timestamp,
            s.price == price,
    {
        PriceSample { timestamp, price }
    }
}

/// One fill of the simulated book.
#[derive(Clone, Copy, Debug, PartialEq, Eq, Structural)]
pub struct TradeExecution {
    pub timestamp: i64,
    pub price: u64,
    pub size: u64,
    pub side: OrderSide,
}

/// Outcome of a backtest.
#[derive(Debug)]
pub struct BacktestResult {
    pub final_value: u64,
    pub cash: u64,
    pub position: u64,
    pub trades: Vec<TradeExecution>,
}

#[derive(Clone, Copy, Debug, PartialEq, Eq, Structural)]
pub enum BacktestError {
    /// The series holds no sample.
    NoSamples,
    /// The sample at `index` lies before the Unix epoch.
    NegativeTimestamp { index: usize },
    /// An amount left the range of the fixed-point representation.
    Overflow,
    /// The configuration breaks a validation rule.
    InvalidConfig,
    /// The sample at `index` has no positive price.
    NonPositivePrice { index: usize },
}

impl BacktestError {
    pub fn message(&self) -> (s: &'static str)
        ensures
            *self == BacktestError::NoSamples ==> s@ == "price samples required"@,
            *self is NegativeTimestamp ==> s@ == "timestamps before UNIX epoch are unsupported"@,
            *self == BacktestError::Overflow ==> s@ == "amount out of range"@,
            *self == BacktestError::InvalidConfig ==> s@ == "invalid configuration"@,
            *self is NonPositivePrice ==> s@ == "price samples must be positive"@,
    {
        match self {
            BacktestError::NoSamples => "price samples required",
            BacktestError::NegativeTimestamp { .. } => "timestamps before UNIX epoch are unsupported",
            BacktestError::Overflow => "amount out of range",
            BacktestError::InvalidConfig => "invalid configuration",
            BacktestError::NonPositivePrice { .. } => "price samples must be positive",
        }
    }
}

/// A resting order as the book sees it.
#[derive(Clone, Copy, Debug, PartialEq, Eq, Structural)]
pub struct Quote {
    pub side: OrderSide,
    pub price: u64,
    pub size: u64,
    /// Type of the signal that placed the order.
    pub signal_type: SignalType,
    /// Metadata of the signal that placed the order.
    pub metadata: SignalMetadata,
}

/// The book-keeping of a replay.
pub struct Ledger {
    pub cash: u64,
    pub position: u64,
    pub average_price: u64,
    pub trades: Seq<TradeExecution>,
}

/// A resting limit order placed for `signal`.
struct OpenOrder {
    signal: TradingSignal,
    price: u64,
    remaining: u64,
    side: OrderSide,
}

impl OpenOrder {
    spec fn quote(&self) -> Quote {
        Quote {
            side: self.side,
            price: self.price,
            size: self.remaining,
            signal_type: self.signal.signal_type,
            metadata: self.signal.metadata,
        }
    }
}

spec fn quotes(orders: Seq<OpenOrder>) -> Seq<Quote> {
    orders.map_values(|o: OpenOrder| o.quote())
}

/// A resting order at `q` is marketable at `price`.
pub open spec fn crosses(q: Quote, price: u64) -> bool {
    match q.side {
        OrderSide::Buy => price as int <= q.price as int + TOLERANCE as int,
        OrderSide::Sell => price as int + TOLERANCE as int >= q.price as int,
    }
}

/// The book can pay for a buy, or deliver a sell, of `size` at `price`.
pub open spec fn affordable(l: Ledger, side: OrderSide, price: u64, size: u64) -> bool {
    match side {
        OrderSide::Buy => (l.cash as int + TOLERANCE as int) * UNIT as int >= price as int * size as int,
        OrderSide::Sell => l.position as int + TOLERANCE as int >= size as int,
    }
}

/// The book after a fill of `size` at `price`; `None` when an amount leaves
/// the representable range.
pub open spec fn apply_fill(l: Ledger, side: OrderSide, price: u64, size: u64, ts: i64) -> Option<Ledger> {
    let trades = l.trades.push(TradeExecution { timestamp: ts, price, size, side });
    let value = mul_units(price as int, size as int);
    match side {
        OrderSide::Buy => {
            let prev_value = mul_units(l.average_price as int, l.position as int);
            let position = l.position as int + size as int;
            let average = if position > 0 { (prev_value + value) * UNIT as int / position } else { 0 };
            if value > u64::MAX as int || prev_value > u64::MAX as int || position > u64::MAX as int
                || average > u64::MAX as int {
                None
            } else {
                Some(Ledger {
                    cash: if value > l.cash as int { 0 } else { (l.cash as int - value) as u64 },
                    position: position as u64,
                    average_price: average as u64,
                    trades,
                })
            }
        },
        OrderSide::Sell => {
            let cash = l.cash as int + value;
            if cash > u64::MAX as int {
                None
            } else if size >= l.position {
                Some(Ledger { cash: cash as u64, position: 0, average_price: 0, trades })
            } else {
                Some(Ledger { cash: cash as u64, position: (l.position - size) as u64, average_price: l.average_price, trades })
            }
        },
    }
}

/// The fill pass over resting `orders` at `price`: the book afterwards and the
/// orders still resting, in their order.
pub open spec fn fill_pass(l: Ledger, orders: Seq<Quote>, price: u64, ts: i64) -> Option<(Ledger, Seq<Quote>)>
    decreases orders.len(),
{
    if orders.len() == 0 {
        Some((l, Seq::empty()))
    } else {
        match fill_pass(l, orders.drop_last(), price, ts) {
            None => None,
            Some((l1, kept)) => {
                let q = orders.last();
                if crosses(q, price) && affordable(l1, q.side, q.price, q.size) {
                    match apply_fill(l1, q.side, q.price, q.size, ts) {
                        None => None,
                        Some(l2) => Some((l2, kept)),
                    }
                } else {
                    Some((l1, kept.push(q)))
                }
            },
        }
    }
}

/// The side of a `Buy` or `Sell` signal.
pub open spec fn side_of(t: SignalType) -> OrderSide {
    if t == SignalType::Buy { OrderSide::Buy } else { OrderSide::Sell }
}

/// Handling of one signal at the sample `price`.
pub open spec fn process_one(l: Ledger, orders: Seq<Quote>, t: SignalTerms, price: u64, ts: i64) -> Option<(Ledger, Seq<Quote>)> {
    match t.signal_type {
        SignalType::Buy | SignalType::Sell => {
            let side = side_of(t.signal_type);
            if t.size == 0 {
                Some((l, orders))
            } else {
                match t.price {
                    Some(p) => if p == 0 {
                        Some((l, orders))
                    } else {
                        Some((l, orders.push(Quote { side, price: p, size: t.size, signal_type: t.signal_type,
                            metadata: t.metadata })))
                    },
                    None => if affordable(l, side, price, t.size) {
                        match apply_fill(l, side, price, t.size, ts) {
                            None => None,
                            Some(l2) => Some((l2, orders)),
                        }
                    } else {
                        Some((l, orders))
                    },
                }
            }
        },
        SignalType::Close => if t.metadata == SignalMetadata::CancelAll {
            Some((l, Seq::empty()))
        } else {
            Some((l, orders))
        },
        SignalType::Hold => Some((l, orders)),
    }
}

/// The signal pass: every signal of `sigs` handled in order.
pub open spec fn process_pass(l: Ledger, orders: Seq<Quote>, sigs: Seq<SignalTerms>, price: u64, ts: i64) -> Option<(Ledger, Seq<Quote>)>
    decreases sigs.len(),
{
    if sigs.len() == 0 {
        Some((l, orders))
    } else {
        match process_pass(l, orders, sigs.drop_last(), price, ts) {
            None => None,
            Some((l1, o1)) => process_one(l1, o1, sigs.last(), price, ts),
        }
    }
}

/// One fill the strategy is told of: the type and metadata of the signal
/// behind it, and the price and size it executed at.
pub struct Fill {
    pub signal_type: SignalType,
    pub metadata: SignalMetadata,
    pub price: u64,
    pub size: u64,
}

/// The fills of the fill pass, in the order they happen.
pub open spec fn fill_events(l: Ledger, orders: Seq<Quote>, price: u64, ts: i64) -> Seq<Fill>
    decreases orders.len(),
{
    if orders.len() == 0 {
        Seq::empty()
    } else {
        let prev = fill_events(l, orders.drop_last(), price, ts);
        match fill_pass(l, orders.drop_last(), price, ts) {
            None => prev,
            Some((l1, kept)) => {
                let q = orders.last();
                if crosses(q, price) && affordable(l1, q.side, q.price, q.size) {
                    prev.push(Fill { signal_type: q.signal_type, metadata: q.metadata, price: q.price, size: q.size })
                } else {
                    prev
                }
            },
        }
    }
}

/// A signal that fills at once at the sample price: a market `Buy` or
/// `Sell` of positive size that the book can afford.
pub open spec fn market_fill(l: Ledger, t: SignalTerms, price: u64) -> bool {
    &&& (t.signal_type == SignalType::Buy || t.signal_type == SignalType::Sell)
    &&& t.size != 0
    &&& t.price is None
    &&& affordable(l, side_of(t.signal_type), price, t.size)
}

/// The fills of the signal pass, in the order they happen.
pub open spec fn process_events(l: Ledger, orders: Seq<Quote>, sigs: Seq<SignalTerms>, price: u64, ts: i64) -> Seq<Fill>
    decreases sigs.len(),
{
    if sigs.len() == 0 {
        Seq::empty()
    } else {
        let prev = process_events(l, orders, sigs.drop_last(), price, ts);
        match process_pass(l, orders, sigs.drop_last(), price, ts) {
            None => prev,
            Some((l1, o1)) => {
                let t = sigs.last();
                if market_fill(l1, t, price) {
                    prev.push(Fill { signal_type: t.signal_type, metadata: t.metadata, price, size: t.size })
                } else {
                    prev
                }
            },
        }
    }
}

/// The strategy record after it is told of `fills`, in order.
pub open spec fn notify_all(r: GridRecord, fills: Seq<Fill>) -> GridRecord
    decreases fills.len(),
{
    if fills.len() == 0 {
        r
    } else {
        let f = fills.last();
        record_fill(notify_all(r, fills.drop_last()), f.signal_type, f.metadata, f.price, f.size)
    }
}

/// Everything a replay carries from one sample to the next.
pub struct Replay {
    pub ledger: Ledger,
    pub orders: Seq<Quote>,
    pub state: GridState,
    pub center: Option<u64>,
}

/// One replay step: fill pass, then the strategy, then the signal pass.
pub open spec fn replay_step(s: GridSettings, r: Replay, sample: PriceSample) -> Option<Replay> {
    match fill_pass(r.ledger, r.orders, sample.price, sample.timestamp) {
        None => None,
        Some((l1, o1)) => {
            let (state, center, sigs) = grid_step(s, true, r.state, r.center, sample.price);
            match process_pass(l1, o1, sigs, sample.price, sample.timestamp) {
                None => None,
                Some((l2, o2)) => Some(Replay { ledger: l2, orders: o2, state, center }),
            }
        },
    }
}

/// The replay of `samples` from a book holding `cash` and nothing else.
pub open spec fn replay(s: GridSettings, cash: u64, samples: Seq<PriceSample>) -> Option<Replay>
    decreases samples.len(),
{
    if samples.len() == 0 {
        Some(Replay {
            ledger: Ledger { cash, position: 0, average_price: 0, trades: Seq::empty() },
            orders: Seq::empty(),
            state: GridState::Initializing,
            center: None,
        })
    } else {
        match replay(s, cash, samples.drop_last()) {
            None => None,
            Some(r) => replay_step(s, r, samples.last()),
        }
    }
}

/// Value of the book at `price`: cash plus the position marked at `price`.
pub open spec fn book_value(cash: u64, position: u64, price: u64) -> int {
    cash as int + mul_units(position as int, price as int)
}

/// Every sample lies at or after the epoch.
pub open spec fn timestamps_ok(samples: Seq<PriceSample>) -> bool {
    forall|i: int| 0 <= i < samples.len() ==> #[trigger] samples[i].timestamp >= 0
}

struct BacktestState {
    cash: u64,
    position: u64,
    average_price: u64,
    trades: Vec<TradeExecution>,
}

impl BacktestState {
    spec fn ledger(&self) -> Ledger {
        Ledger { cash: self.cash, position: self.position, average_price: self.average_price, trades: self.trades@ }
    }
}


/// The strategy parts that the book-keeping leaves alone.
spec fn strategy_kept(a: BasicGridStrategy, b: BasicGridStrategy) -> bool {
    &&& b.wf()
    &&& b.same_setup(&a)
    &&& b.state == a.state
    &&& b.center_price == a.center_price
    &&& b.active == a.active
}

fn is_affordable(state: &BacktestState, side: OrderSide, price: u64, size: u64) -> (b: bool)
    ensures
        b == affordable(state.ledger(), side, price, size),
{
    match side {
        OrderSide::Buy => {
            proof {
                assert((price as int) * (size as int) <= (u64::MAX as int) * (u64::MAX as int)) by (nonlinear_arith)
                    requires 0 <= price <= u64::MAX, 0 <= size <= u64::MAX;
                assert(((state.cash as int) + 1) * 1_000_000_000 <= u128::MAX as int);
            }
            ((state.cash as u128) + (TOLERANCE as u128)) * (UNIT as u128) >= (price as u128) * (size as u128)
        },
        OrderSide::Sell => (state.position as u128) + (TOLERANCE as u128) >= size as u128,
    }
}

fn execute_fill(
    side: OrderSide,
    price: u64,
    size: u64,
    timestamp: i64,
    state: &mut BacktestState,
    signal: &TradingSignal,
    strategy: &mut BasicGridStrategy,
) -> (r: Result<(), BacktestError>)
    requires
        old(strategy).wf(),
    ensures
        strategy_kept(*old(strategy), *final(strategy)),
        match apply_fill(old(state).ledger(), side, price, size, timestamp) {
            None => r == Err::<(), BacktestError>(BacktestError::Overflow),
            Some(l) => r is Ok && final(state).ledger() == l
                && final(strategy).record() == record_fill(old(strategy).record(), signal.signal_type,
                    signal.metadata, price, size),
        },
{
    proof {
        assert((price as int) * (size as int) <= (u64::MAX as int) * (u64::MAX as int)) by (nonlinear_arith)
            requires 0 <= price <= u64::MAX, 0 <= size <= u64::MAX;
        assert((state.average_price as int) * (state.position as int) <= (u64::MAX as int) * (u64::MAX as int)) by (nonlinear_arith)
            requires 0 <= state.average_price <= u64::MAX, 0 <= state.position <= u64::MAX;
    }
    let value: u128 = (price as u128) * (size as u128) / (UNIT as u128);
    match side {
        OrderSide::Buy => {
            let prev_value: u128 = (state.average_price as u128) * (state.position as u128) / (UNIT as u128);
            let position: u128 = state.position as u128 + size as u128;
            if value > u64::MAX as u128 || prev_value > u64::MAX as u128 || position > u64::MAX as u128 {
                return Err(BacktestError::Overflow);
            }
            let average: u128 = if position > 0 { (prev_value + value) * (UNIT as u128) / position } else { 0 };
            if average > u64::MAX as u128 {
                return Err(BacktestError::Overflow);
            }
            let cost = value as u64;
            state.cash = if cost > state.cash { 0 } else { state.cash - cost };
            state.position = position as u64;
            state.average_price = average as u64;
        },
        OrderSide::Sell => {
            let cash: u128 = state.cash as u128 + value;
            if cash > u64::MAX as u128 {
                return Err(BacktestError::Overflow);
            }
            state.cash = cash as u64;
            if size >= state.position {
                state.position = 0;
                state.average_price = 0;
            } else {
                state.position = state.position - size;
            }
        },
    }
    state.trades.push(TradeExecution { timestamp, price, size, side });
    strategy.on_trade_executed(signal, price, size);
    Ok(())
}

/// Fills every resting order that the sample makes marketable and the book
/// can afford, in insertion order, at the order's own price.
fn fill_orders(
    sample: &PriceSample,
    orders: &mut Vec<OpenOrder>,
    state: &mut BacktestState,
    strategy: &mut BasicGridStrategy,
) -> (r: Result<(), BacktestError>)
    requires
        old(strategy).wf(),
    ensures
        strategy_kept(*old(strategy), *final(strategy)),
        match fill_pass(old(state).ledger(), quotes(old(orders)@), sample.price, sample.timestamp) {
            None => r == Err::<(), BacktestError>(BacktestError::Overflow),
            Some((l, kept)) => r is Ok && final(state).ledger() == l && quotes(final(orders)@) == kept
                && final(strategy).record() == notify_all(old(strategy).record(),
                    fill_events(old(state).ledger(), quotes(old(orders)@), sample.price, sample.timestamp)),
        },
{
    let ghost orig = quotes(orders@);
    let ghost strat0 = *strategy;
    let len0 = orders.len();
    let ghost n = orders@.len();
    let mut index: usize = 0;
    let mut k: usize = 0;
    proof {
        assert(orig.subrange(0, 0) =~= Seq::<Quote>::empty());
        assert(quotes(orders@).subrange(0, 0) =~= Seq::<Quote>::empty());
    }
    while index < orders.len()
        invariant
            n <= usize::MAX,
            strategy_kept(strat0, *strategy),
            strat0 == *old(strategy),
            orig == quotes(old(orders)@),
            orig.len() == n,
            k <= n,
            index <= orders@.len(),
            orders@.len() - index == n - k,
            fill_pass(old(state).ledger(), orig.subrange(0, k as int), sample.price, sample.timestamp)
                == Some((state.ledger(), quotes(orders@).subrange(0, index as int))),
            strategy.record() == notify_all(strat0.record(),
                fill_events(old(state).ledger(), orig.subrange(0, k as int), sample.price, sample.timestamp)),
            quotes(orders@).subrange(index as int, orders@.len() as int) == orig.subrange(k as int, n as int),
        decreases n - k,
    {
        let ghost before = quotes(orders@);
        proof {
            assert(orig.subrange(0, k + 1).drop_last() =~= orig.subrange(0, k as int));
            assert(orig[k as int] == quotes(orders@).subrange(index as int, orders@.len() as int)[0]);
            assert(orig.subrange(0, k + 1).last() == orig[k as int]);
        }
        let side = orders[index].side;
        let price = orders[index].price;
        let remaining = orders[index].remaining;
        let should_fill = match side {
            OrderSide::Buy => (sample.price as u128) <= (price as u128) + (TOLERANCE as u128),
            OrderSide::Sell => (sample.price as u128) + (TOLERANCE as u128) >= price as u128,
        };
        let ghost events_before = fill_events(old(state).ledger(), orig.subrange(0, k as int), sample.price,
            sample.timestamp);
        proof {
            let q = orig[k as int];
            assert(q == orders@[index as int].quote());
            assert(orig.subrange(0, k + 1).drop_last() =~= orig.subrange(0, k as int));
            assert(orig.subrange(0, k + 1).last() == q);
        }
        if should_fill && is_affordable(state, side, price, remaining) {
            let ghost l_before = state.ledger();
            let ghost rec_before = strategy.record();
            let ghost sig_type = orders@[index as int].signal.signal_type;
            let ghost sig_meta = orders@[index as int].signal.metadata;
            let res = execute_fill(side, price, remaining, sample.timestamp, state, &orders[index].signal, strategy);
            if res.is_err() {
                proof {
                    let q = orig[k as int];
                    assert(q == orders@[index as int].quote());
                    assert(q.side == side && q.price == price && q.size == remaining);
                    assert(crosses(q, sample.price));
                    assert(affordable(l_before, side, price, remaining));
                    assert(apply_fill(l_before, side, price, remaining, sample.timestamp) is None);
                    assert(fill_pass(old(state).ledger(), orig.subrange(0, k + 1), sample.price, sample.timestamp) is None);
                    assert(strategy_kept(strat0, *strategy));
                    lemma_fill_pass_stays_failed(old(state).ledger(), orig, sample.price, sample.timestamp,
                        (k + 1) as nat, n as nat);
                    assert(orig.subrange(0, n as int) =~= orig);
                }
                return res;
            }
            proof {
                let q = orig[k as int];
                assert(fill_events(old(state).ledger(), orig.subrange(0, k + 1), sample.price, sample.timestamp)
                    == events_before.push(Fill { signal_type: sig_type, metadata: sig_meta, price, size: remaining }));
                assert(events_before.push(Fill { signal_type: sig_type, metadata: sig_meta, price, size: remaining })
                    .drop_last() =~= events_before);
            }
            orders.remove(index);
            proof {
                assert(quotes(orders@).subrange(0, index as int) =~= before.subrange(0, index as int));
                assert(quotes(orders@).subrange(index as int, orders@.len() as int)
                    =~= before.subrange(index + 1, before.len() as int));
                assert(before.subrange(index + 1, before.len() as int)
                    =~= before.subrange(index as int, before.len() as int).subrange(1, (before.len() - index) as int));
                assert(orig.subrange(k + 1, n as int) =~= orig.subrange(k as int, n as int).subrange(1, (n - k) as int));
            }
        } else {
            proof {
                assert(fill_events(old(state).ledger(), orig.subrange(0, k + 1), sample.price, sample.timestamp)
                    == events_before);
            }
            index = index + 1;
            proof {
                assert(quotes(orders@).subrange(0, index as int)
                    =~= before.subrange(0, index - 1).push(orig[k as int]));
                assert(before.subrange(index as int, before.len() as int)
                    =~= before.subrange(index - 1, before.len() as int).subrange(1, (before.len() - index + 1) as int));
                assert(orig.subrange(k + 1, n as int) =~= orig.subrange(k as int, n as int).subrange(1, (n - k) as int));
            }
        }
        k = k + 1;
    }
    proof {
        assert(orig.subrange(0, n as int) =~= orig);
        assert(quotes(orders@).subrange(0, index as int) =~= quotes(orders@));
    }
    Ok(())
}


/// Once the fill pass fails on a prefix of the orders, it fails on every
/// longer prefix.
proof fn lemma_fill_pass_stays_failed(l: Ledger, orders: Seq<Quote>, price: u64, ts: i64, j: nat, m: nat)
    requires
        j <= m <= orders.len(),
        fill_pass(l, orders.subrange(0, j as int), price, ts) is None,
    ensures
        fill_pass(l, orders.subrange(0, m as int), price, ts) is None,
    decreases m - j,
{
    if j < m {
        assert(orders.subrange(0, (j + 1) as int).drop_last() =~= orders.subrange(0, j as int));
        lemma_fill_pass_stays_failed(l, orders, price, ts, j + 1, m);
    }
}


/// Once the signal pass fails on a prefix of the signals, it fails on every
/// longer prefix.
proof fn lemma_process_pass_stays_failed(l: Ledger, orders: Seq<Quote>, sigs: Seq<SignalTerms>, price: u64, ts: i64, j: nat, m: nat)
    requires
        j <= m <= sigs.len(),
        process_pass(l, orders, sigs.subrange(0, j as int), price, ts) is None,
    ensures
        process_pass(l, orders, sigs.subrange(0, m as int), price, ts) is None,
    decreases m - j,
{
    if j < m {
        assert(sigs.subrange(0, (j + 1) as int).drop_last() =~= sigs.subrange(0, j as int));
        lemma_process_pass_stays_failed(l, orders, sigs, price, ts, j + 1, m);
    }
}

/// Handles the signals of one tick in order: limit orders start resting,
/// market orders fill at the sample price if affordable, and a cancel-all
/// directive clears the resting orders.
fn process_signals(
    sample: &PriceSample,
    orders: &mut Vec<OpenOrder>,
    state: &mut BacktestState,
    strategy: &mut BasicGridStrategy,
    signals: Vec<TradingSignal>,
) -> (r: Result<(), BacktestError>)
    requires
        old(strategy).wf(),
    ensures
        strategy_kept(*old(strategy), *final(strategy)),
        match process_pass(old(state).ledger(), quotes(old(orders)@), terms_of(signals@), sample.price, sample.timestamp) {
            None => r == Err::<(), BacktestError>(BacktestError::Overflow),
            Some((l, o)) => r is Ok && final(state).ledger() == l && quotes(final(orders)@) == o
                && final(strategy).record() == notify_all(old(strategy).record(),
                    process_events(old(state).ledger(), quotes(old(orders)@), terms_of(signals@), sample.price,
                        sample.timestamp)),
        },
{
    let ghost all = terms_of(signals@);
    let ghost strat0 = *strategy;
    let ghost n = signals@.len();
    let len0 = signals.len();
    let mut rest = signals;
    let mut done: usize = 0;
    let price = sample.price;
    let ts = sample.timestamp;
    proof {
        assert(all.subrange(0, 0) =~= Seq::<SignalTerms>::empty());
        assert(terms_of(rest@) =~= all.subrange(0, n as int));
    }
    while rest.len() > 0
        invariant
            strat0 == *old(strategy),
            strategy_kept(strat0, *strategy),
            all == terms_of(signals@),
            n == all.len(),
            done <= n,
            n <= usize::MAX,
            rest@.len() == n - done,
            terms_of(rest@) == all.subrange(done as int, n as int),
            process_pass(old(state).ledger(), quotes(old(orders)@), all.subrange(0, done as int), price, ts)
                == Some((state.ledger(), quotes(orders@))),
            strategy.record() == notify_all(strat0.record(),
                process_events(old(state).ledger(), quotes(old(orders)@), all.subrange(0, done as int), price, ts)),
            price == sample.price,
            ts == sample.timestamp,
        decreases rest@.len(),
    {
        let ghost before_rest = rest@;
        let signal = rest.remove(0);
        let ghost t = signal.terms();
        let ghost l0 = state.ledger();
        let ghost o0 = quotes(orders@);
        proof {
            assert(t == all[done as int]) by {
                assert(terms_of(before_rest)[0] == before_rest[0].terms());
            }
            assert(terms_of(rest@) =~= all.subrange(done + 1, n as int)) by {
                assert forall|i: int| 0 <= i < rest@.len() implies terms_of(rest@)[i] == all.subrange(done + 1, n as int)[i] by {
                    assert(rest@[i] == before_rest[i + 1]);
                    assert(terms_of(before_rest)[i + 1] == before_rest[i + 1].terms());
                }
            }
            assert(all.subrange(0, done + 1).drop_last() =~= all.subrange(0, done as int));
            assert(all.subrange(0, done + 1).last() == t);
        }
        let ghost events_before = process_events(old(state).ledger(), quotes(old(orders)@),
            all.subrange(0, done as int), price, ts);
        let ghost fill_now = Fill { signal_type: t.signal_type, metadata: t.metadata, price, size: t.size };
        proof {
            assert(process_events(old(state).ledger(), quotes(old(orders)@), all.subrange(0, done + 1), price, ts)
                == if market_fill(l0, t, price) { events_before.push(fill_now) } else { events_before });
            assert(events_before.push(fill_now).drop_last() =~= events_before);
        }
        match signal.signal_type {
            SignalType::Buy | SignalType::Sell => {
                let side = if signal.signal_type == SignalType::Buy { OrderSide::Buy } else { OrderSide::Sell };
                if signal.size > 0 {
                    match signal.price {
                        Some(p) => {
                            if p > 0 {
                                let size = signal.size;
                                orders.push(OpenOrder { signal, price: p, remaining: size, side });
                                proof {
                                    assert(quotes(orders@) =~= o0.push(Quote { side, price: p, size,
                                        signal_type: t.signal_type, metadata: t.metadata }));
                                }
                            }
                        },
                        None => {
                            if is_affordable(state, side, price, signal.size) {
                                let res = execute_fill(side, price, signal.size, ts, state, &signal, strategy);
                                if res.is_err() {
                                    proof {
                                        lemma_process_pass_stays_failed(old(state).ledger(), quotes(old(orders)@), all,
                                            price, ts, (done + 1) as nat, n as nat);
                                        assert(all.subrange(0, n as int) =~= all);
                                    }
                                    return res;
                                }
                            }
                        },
                    }
                }
            },
            SignalType::Close => {
                if signal.metadata == SignalMetadata::CancelAll {
                    orders.clear();
                    proof {
                        assert(quotes(orders@) =~= Seq::<Quote>::empty());
                    }
                }
            },
            SignalType::Hold => {},
        }
        done = done + 1;
    }
    proof {
        assert(all.subrange(0, n as int) =~= all);
    }
    Ok(())
}

/// `x` capped to the range of `i64`.
pub open spec fn cap_i64(x: int) -> int {
    if x > i64::MAX as int { i64::MAX as int } else if x < i64::MIN as int { i64::MIN as int } else { x }
}

/// `x` capped to the range of `u64`.
pub open spec fn cap_u64(x: int) -> int {
    if x > u64::MAX as int { u64::MAX as int } else { x }
}

/// The position of the book as the strategy sees it: nothing when flat, one
/// entry otherwise, marked at `price`. Its unrealized profit is the position
/// marked at `price` less its cost at the average price, each rounded down.
/// Amounts beyond the integer range are capped.
fn positions_snapshot(state: &BacktestState, symbol: &String, timestamp: i64, price: u64) -> (p: Vec<Position>)
    ensures
        p@.len() == if state.position == 0 { 0int } else { 1int },
        p@.len() == 1 ==> {
            let e = p@[0];
            &&& e.asset@ == symbol@
            &&& e.size as int == cap_i64(state.position as int)
            &&& e.entry_price == state.average_price
            &&& e.current_value as int == cap_u64(mul_units(state.position as int, price as int))
            &&& e.unrealized_pnl as int == cap_i64(mul_units(state.position as int, price as int)
                - mul_units(state.position as int, state.average_price as int))
            &&& e.timestamp == timestamp
        },
{
    let mut out: Vec<Position> = Vec::new();
    if state.position == 0 {
        return out;
    }
    proof {
        assert((state.position as int) * (price as int) <= (u64::MAX as int) * (u64::MAX as int)) by (nonlinear_arith)
            requires 0 <= state.position <= u64::MAX, 0 <= price <= u64::MAX;
        assert((state.position as int) * (state.average_price as int) <= (u64::MAX as int) * (u64::MAX as int)) by (nonlinear_arith)
            requires 0 <= state.position <= u64::MAX, 0 <= state.average_price <= u64::MAX;
        vstd::arithmetic::div_mod::lemma_div_is_ordered((state.position as int) * (price as int),
            (u64::MAX as int) * (u64::MAX as int), UNIT as int);
        vstd::arithmetic::div_mod::lemma_div_is_ordered((state.position as int) * (state.average_price as int),
            (u64::MAX as int) * (u64::MAX as int), UNIT as int);
    }
    let value: u128 = (state.position as u128) * (price as u128) / (UNIT as u128);
    let cost: u128 = (state.position as u128) * (state.average_price as u128) / (UNIT as u128);
    let diff: i128 = value as i128 - cost as i128;
    let pnl: i64 = if diff > i64::MAX as i128 { i64::MAX } else if diff < i64::MIN as i128 { i64::MIN } else { diff as i64 };
    out.push(Position {
        asset: symbol.clone(),
        size: if state.position > i64::MAX as u64 { i64::MAX } else { state.position as i64 },
        entry_price: state.average_price,
        current_value: if value > u64::MAX as u128 { u64::MAX } else { value as u64 },
        unrealized_pnl: pnl,
        timestamp,
    });
    out
}

/// Outcome of a backtest of `samples` that starts with `initial_cash`:
/// the final value, cash, position and trades.
pub open spec fn backtest_outcome(config: BotConfig, initial_cash: u64, samples: Seq<PriceSample>)
    -> Result<(u64, u64, u64, Seq<TradeExecution>), BacktestError>
{
    if samples.len() == 0 {
        Err(BacktestError::NoSamples)
    } else {
        match replay(settings_of(config), initial_cash, samples) {
            None => Err(BacktestError::Overflow),
            Some(r) => {
                let value = book_value(r.ledger.cash, r.ledger.position, samples.last().price);
                if value > u64::MAX as int {
                    Err(BacktestError::Overflow)
                } else {
                    Ok((value as u64, r.ledger.cash, r.ledger.position, r.ledger.trades))
                }
            },
        }
    }
}

/// Checks that no sample lies before the epoch.
fn normalize_samples(samples: &[PriceSample]) -> (r: Result<(), BacktestError>)
    ensures
        r is Ok <==> timestamps_ok(samples@),
        r matches Err(e) ==> (e matches BacktestError::NegativeTimestamp { index }
            && index < samples@.len() && samples@[index as int].timestamp < 0
            && forall|j: int| 0 <= j < index ==> #[trigger] samples@[j].timestamp >= 0),
{
    let mut i: usize = 0;
    while i < samples.len()
        invariant
            i <= samples@.len(),
            forall|j: int| 0 <= j < i ==> #[trigger] samples@[j].timestamp >= 0,
        decreases samples@.len() - i,
    {
        if samples[i].timestamp < 0 {
            return Err(BacktestError::NegativeTimestamp { index: i });
        }
        i = i + 1;
    }
    Ok(())
}

/// Replays `samples` through the grid strategy of `config`, starting from
/// `initial_cash` and no position.
///
/// Per sample: resting orders that the price makes marketable fill at their
/// own price if the book can afford them; then the strategy sees the price and
/// its signals are handled. Limit orders placed on a tick can only fill from
/// the next tick on.
pub fn run_backtest(config: &BotConfig, initial_cash: u64, samples: &[PriceSample])
    -> (r: Result<BacktestResult, BacktestError>)
    requires
        config.valid(),
        forall|i: int| 0 <= i < samples@.len() ==> #[trigger] samples@[i].price > 0,
    ensures
        samples@.len() == 0 ==> r == Err::<BacktestResult, BacktestError>(BacktestError::NoSamples),
        samples@.len() > 0 && !timestamps_ok(samples@) ==> (r matches Err(BacktestError::NegativeTimestamp { index })
            && index < samples@.len() && samples@[index as int].timestamp < 0
            && forall|j: int| 0 <= j < index ==> #[trigger] samples@[j].timestamp >= 0),
        timestamps_ok(samples@) ==> match backtest_outcome(*config, initial_cash, samples@) {
            Ok((value, cash, position, trades)) => r matches Ok(res) && res.final_value == value
                && res.cash == cash && res.position == position && res.trades@ == trades,
            Err(e) => r == Err::<BacktestResult, BacktestError>(e),
        },
{
    if samples.len() == 0 {
        return Err(BacktestError::NoSamples);
    }
    normalize_samples(samples)?;
    let mut strategy = BasicGridStrategy::new(config);
    strategy.start();
    let ghost settings = settings_of(*config);
    let mut state = BacktestState { cash: initial_cash, position: 0, average_price: 0, trades: Vec::new() };
    let mut orders: Vec<OpenOrder> = Vec::new();
    let symbol = config.grid.symbol.clone();
    let mut last_price: u64 = samples[0].price;
    let n = samples.len();
    let mut k: usize = 0;
    proof {
        assert(samples@.subrange(0, 0) =~= Seq::<PriceSample>::empty());
        assert(quotes(orders@) =~= Seq::<Quote>::empty());
    }
    while k < n
        invariant
            n == samples@.len(),
            n > 0,
            k <= n,
            timestamps_ok(samples@),
            settings == settings_of(*config),
            forall|i: int| 0 <= i < samples@.len() ==> #[trigger] samples@[i].price > 0,
            strategy.wf(),
            strategy.settings == settings,
            strategy.active,
            replay(settings, initial_cash, samples@.subrange(0, k as int)) == Some(Replay {
                ledger: state.ledger(),
                orders: quotes(orders@),
                state: strategy.state,
                center: strategy.center_price,
            }),
            k > 0 ==> last_price == samples@[k - 1].price,
        decreases n - k,
    {
        let sample = samples[k];
        last_price = sample.price;
        let ghost prefix = samples@.subrange(0, k + 1);
        proof {
            assert(prefix.drop_last() =~= samples@.subrange(0, k as int));
            assert(prefix.last() == sample);
        }
        let stepped = backtest_step(&sample, &mut orders, &mut state, &mut strategy, &symbol);
        if stepped.is_err() {
            proof {
                assert(replay(settings, initial_cash, prefix) is None);
                lemma_replay_stays_failed(settings, initial_cash, samples@, (k + 1) as nat, n as nat);
                assert(samples@.subrange(0, n as int) =~= samples@);
            }
            return Err(BacktestError::Overflow);
        }
        k = k + 1;
    }
    strategy.stop();
    proof {
        assert(samples@.subrange(0, n as int) =~= samples@);
        assert((state.position as int) * (last_price as int) <= (u64::MAX as int) * (u64::MAX as int)) by (nonlinear_arith)
            requires 0 <= state.position <= u64::MAX, 0 <= last_price <= u64::MAX;
    }
    let marked: u128 = (state.position as u128) * (last_price as u128) / (UNIT as u128);
    let value: u128 = state.cash as u128 + marked;
    if value > u64::MAX as u128 {
        return Err(BacktestError::Overflow);
    }
    Ok(BacktestResult {
        final_value: value as u64,
        cash: state.cash,
        position: state.position,
        trades: state.trades,
    })
}

/// Once the replay fails on a prefix of the samples, it fails on every longer
/// prefix.
proof fn lemma_replay_stays_failed(s: GridSettings, cash: u64, samples: Seq<PriceSample>, j: nat, m: nat)
    requires
        j <= m <= samples.len(),
        replay(s, cash, samples.subrange(0, j as int)) is None,
    ensures
        replay(s, cash, samples.subrange(0, m as int)) is None,
    decreases m - j,
{
    if j < m {
        assert(samples.subrange(0, (j + 1) as int).drop_last() =~= samples.subrange(0, j as int));
        lemma_replay_stays_failed(s, cash, samples, j + 1, m);
    }
}


/// One sample of the replay: fill pass, strategy, signal pass.
fn backtest_step(
    sample: &PriceSample,
    orders: &mut Vec<OpenOrder>,
    state: &mut BacktestState,
    strategy: &mut BasicGridStrategy,
    symbol: &String,
) -> (r: Result<(), BacktestError>)
    requires
        old(strategy).wf(),
        old(strategy).active,
        sample.price > 0,
    ensures
        final(strategy).wf(),
        final(strategy).active,
        final(strategy).settings == old(strategy).settings,
        match replay_step(old(strategy).settings, Replay {
            ledger: old(state).ledger(),
            orders: quotes(old(orders)@),
            state: old(strategy).state,
            center: old(strategy).center_price,
        }, *sample) {
            None => r is Err,
            Some(next) => r is Ok && next == (Replay {
                ledger: final(state).ledger(),
                orders: quotes(final(orders)@),
                state: final(strategy).state,
                center: final(strategy).center_price,
            }),
        },
{
    fill_orders(sample, orders, state, strategy)?;
    let positions = positions_snapshot(state, symbol, sample.timestamp, sample.price);
    let market_data = MarketData {
        asset: symbol.clone(),
        price: sample.price,
        volume_24h: 0,
        timestamp: sample.timestamp,
        bid: Some(sample.price),
        ask: Some(sample.price),
        volatility: None,
    };
    let signals = strategy.generate_signals(&market_data, positions.as_slice(), state.cash);
    process_signals(sample, orders, state, strategy, signals)
}


/// The book never holds a cost basis without a position.
pub open spec fn book_ok(l: Ledger) -> bool {
    l.position == 0 ==> l.average_price == 0
}

proof fn lemma_apply_fill_book_ok(l: Ledger, side: OrderSide, price: u64, size: u64, ts: i64)
    ensures
        apply_fill(l, side, price, size, ts) matches Some(l2) ==> book_ok(l2),
{
}

proof fn lemma_fill_pass_book_ok(l: Ledger, orders: Seq<Quote>, price: u64, ts: i64)
    requires
        book_ok(l),
    ensures
        fill_pass(l, orders, price, ts) matches Some((l2, kept)) ==> book_ok(l2),
    decreases orders.len(),
{
    if orders.len() > 0 {
        lemma_fill_pass_book_ok(l, orders.drop_last(), price, ts);
        match fill_pass(l, orders.drop_last(), price, ts) {
            Some((l1, kept)) => {
                let q = orders.last();
                lemma_apply_fill_book_ok(l1, q.side, q.price, q.size, ts);
            },
            None => {},
        }
    }
}

proof fn lemma_process_pass_book_ok(l: Ledger, orders: Seq<Quote>, sigs: Seq<SignalTerms>, price: u64, ts: i64)
    requires
        book_ok(l),
    ensures
        process_pass(l, orders, sigs, price, ts) matches Some((l2, o2)) ==> book_ok(l2),
    decreases sigs.len(),
{
    if sigs.len() > 0 {
        lemma_process_pass_book_ok(l, orders, sigs.drop_last(), price, ts);
        match process_pass(l, orders, sigs.drop_last(), price, ts) {
            Some((l1, o1)) => {
                let t = sigs.last();
                lemma_apply_fill_book_ok(l1, side_of(t.signal_type), price, t.size, ts);
            },
            None => {},
        }
    }
}

/// After every replayed sample the cash and the position are non-negative,
/// and a flat book carries no average price.
pub proof fn lemma_replay_book_invariant(s: GridSettings, cash: u64, samples: Seq<PriceSample>)
    ensures
        replay(s, cash, samples) matches Some(r) ==> r.ledger.cash >= 0 && r.ledger.position >= 0
            && book_ok(r.ledger),
    decreases samples.len(),
{
    if samples.len() > 0 {
        lemma_replay_book_invariant(s, cash, samples.drop_last());
        match replay(s, cash, samples.drop_last()) {
            Some(r) => {
                let sample = samples.last();
                lemma_fill_pass_book_ok(r.ledger, r.orders, sample.price, sample.timestamp);
                match fill_pass(r.ledger, r.orders, sample.price, sample.timestamp) {
                    Some((l1, o1)) => {
                        let (st, c, sigs) = grid_step(s, true, r.state, r.center, sample.price);
                        lemma_process_pass_book_ok(l1, o1, sigs, sample.price, sample.timestamp);
                    },
                    None => {},
                }
            },
            None => {},
        }
    }
}

/// The final value of a backtest is its cash plus its position marked at the
/// last sample price.
pub proof fn lemma_final_value(config: BotConfig, initial_cash: u64, samples: Seq<PriceSample>)
    ensures
        backtest_outcome(config, initial_cash, samples) matches Ok((value, cash, position, trades))
            ==> value as int == book_value(cash, position, samples.last().price),
{
}

/// Two backtests on the same configuration, cash and samples have the same
/// outcome: final value, cash, position and trades.
pub proof fn lemma_backtest_reproducible(
    config1: BotConfig,
    config2: BotConfig,
    cash1: u64,
    cash2: u64,
    samples1: Seq<PriceSample>,
    samples2: Seq<PriceSample>,
)
    requires
        settings_of(config1) == settings_of(config2),
        cash1 == cash2,
        samples1 == samples2,
    ensures
        backtest_outcome(config1, cash1, samples1) == backtest_outcome(config2, cash2, samples2),
{
}

/// Every fill of the fill pass adds one trade, at the price, size and side of
/// a resting order; the orders that did not fill stay.
pub proof fn lemma_fill_pass_trades(l: Ledger, orders: Seq<Quote>, price: u64, ts: i64)
    ensures
        fill_pass(l, orders, price, ts) matches Some((l2, kept)) ==> {
            &&& kept.len() <= orders.len()
            &&& l2.trades.len() == l.trades.len() + (orders.len() - kept.len())
            &&& l2.trades.subrange(0, l.trades.len() as int) == l.trades
            &&& forall|j: int| l.trades.len() <= j < l2.trades.len() ==> exists|i: int| 0 <= i < orders.len()
                && (#[trigger] orders[i]).side == (#[trigger] l2.trades[j]).side && orders[i].price == l2.trades[j].price
                && orders[i].size == l2.trades[j].size && l2.trades[j].timestamp == ts
        },
    decreases orders.len(),
{
    if orders.len() > 0 {
        let prev = orders.drop_last();
        lemma_fill_pass_trades(l, prev, price, ts);
        match fill_pass(l, prev, price, ts) {
            Some((l1, kept1)) => {
                let q = orders.last();
                if crosses(q, price) && affordable(l1, q.side, q.price, q.size) {
                    match apply_fill(l1, q.side, q.price, q.size, ts) {
                        Some(l2) => {
                            assert(l2.trades == l1.trades.push(TradeExecution { timestamp: ts, price: q.price, size: q.size, side: q.side }));
                            assert(l2.trades.subrange(0, l.trades.len() as int) =~= l.trades) by {
                                assert(l1.trades.subrange(0, l.trades.len() as int) == l.trades);
                            }
                            assert forall|j: int| l.trades.len() <= j < l2.trades.len() implies exists|i: int| 0 <= i < orders.len()
                                && (#[trigger] orders[i]).side == (#[trigger] l2.trades[j]).side && orders[i].price == l2.trades[j].price
                                && orders[i].size == l2.trades[j].size && l2.trades[j].timestamp == ts by {
                                if j == l2.trades.len() - 1 {
                                    assert(orders[orders.len() - 1] == q);
                                } else {
                                    assert(l2.trades[j] == l1.trades[j]);
                                    let i = choose|i: int| 0 <= i < prev.len() && (#[trigger] prev[i]).side == l1.trades[j].side
                                        && prev[i].price == l1.trades[j].price && prev[i].size == l1.trades[j].size
                                        && l1.trades[j].timestamp == ts;
                                    assert(orders[i] == prev[i]);
                                }
                            }
                        },
                        None => {},
                    }
                } else {
                    assert forall|j: int| l.trades.len() <= j < l1.trades.len() implies exists|i: int| 0 <= i < orders.len()
                        && (#[trigger] orders[i]).side == (#[trigger] l1.trades[j]).side && orders[i].price == l1.trades[j].price
                        && orders[i].size == l1.trades[j].size && l1.trades[j].timestamp == ts by {
                        let i = choose|i: int| 0 <= i < prev.len() && (#[trigger] prev[i]).side == l1.trades[j].side
                            && prev[i].price == l1.trades[j].price && prev[i].size == l1.trades[j].size
                            && l1.trades[j].timestamp == ts;
                        assert(orders[i] == prev[i]);
                    }
                }
            },
            None => {},
        }
    }
}


/// Every fill of the signal pass adds one trade, at the sample price, for a
/// market signal of the same side and size.
pub proof fn lemma_process_pass_trades(l: Ledger, orders: Seq<Quote>, sigs: Seq<SignalTerms>, price: u64, ts: i64)
    ensures
        process_pass(l, orders, sigs, price, ts) matches Some((l2, o2)) ==> {
            &&& l2.trades.len() >= l.trades.len()
            &&& l2.trades.subrange(0, l.trades.len() as int) == l.trades
            &&& forall|j: int| l.trades.len() <= j < l2.trades.len() ==> exists|i: int| 0 <= i < sigs.len()
                && (#[trigger] sigs[i]).price is None && side_of(sigs[i].signal_type) == (#[trigger] l2.trades[j]).side
                && sigs[i].size == l2.trades[j].size && l2.trades[j].price == price && l2.trades[j].timestamp == ts
        },
    decreases sigs.len(),
{
    if sigs.len() > 0 {
        let prev = sigs.drop_last();
        lemma_process_pass_trades(l, orders, prev, price, ts);
        match process_pass(l, orders, prev, price, ts) {
            Some((l1, o1)) => {
                let t = sigs.last();
                match process_one(l1, o1, t, price, ts) {
                    Some((l2, o2)) => {
                        assert(l1.trades.subrange(0, l.trades.len() as int) == l.trades);
                        let fills = (t.signal_type == SignalType::Buy || t.signal_type == SignalType::Sell)
                            && t.size != 0 && t.price is None && affordable(l1, side_of(t.signal_type), price, t.size);
                        if fills {
                            assert(l2.trades == l1.trades.push(TradeExecution { timestamp: ts, price, size: t.size,
                                side: side_of(t.signal_type) }));
                            assert(l2.trades.subrange(0, l.trades.len() as int) =~= l.trades);
                        } else {
                            assert(l2 == l1);
                        }
                        assert forall|j: int| l.trades.len() <= j < l2.trades.len() implies exists|i: int| 0 <= i < sigs.len()
                            && (#[trigger] sigs[i]).price is None && side_of(sigs[i].signal_type) == (#[trigger] l2.trades[j]).side
                            && sigs[i].size == l2.trades[j].size && l2.trades[j].price == price && l2.trades[j].timestamp == ts by {
                            if fills && j == l2.trades.len() - 1 {
                                assert(sigs[sigs.len() - 1] == t);
                            } else {
                                assert(l2.trades[j] == l1.trades[j]);
                                let i = choose|i: int| 0 <= i < prev.len() && (#[trigger] prev[i]).price is None
                                    && side_of(prev[i].signal_type) == l1.trades[j].side
                                    && prev[i].size == l1.trades[j].size && l1.trades[j].price == price
                                    && l1.trades[j].timestamp == ts;
                                assert(sigs[i] == prev[i]);
                            }
                        }
                    },
                    None => {},
                }
            },
            None => {},
        }
    }
}


/// The trade log only grows: replaying one more sample keeps every earlier
/// trade in place, and each trade added is a fill of a resting order or of a
/// market signal at that sample's time.
pub proof fn lemma_replay_trades_append_only(s: GridSettings, cash: u64, samples: Seq<PriceSample>)
    requires
        samples.len() > 0,
    ensures
        replay(s, cash, samples) matches Some(r) ==> replay(s, cash, samples.drop_last()) matches Some(r0) && {
            &&& r0.ledger.trades.len() <= r.ledger.trades.len()
            &&& r.ledger.trades.subrange(0, r0.ledger.trades.len() as int) == r0.ledger.trades
            &&& forall|j: int| r0.ledger.trades.len() <= j < r.ledger.trades.len()
                ==> (#[trigger] r.ledger.trades[j]).timestamp == samples.last().timestamp
        },
{
    match replay(s, cash, samples.drop_last()) {
        Some(r0) => {
            let sample = samples.last();
            lemma_fill_pass_trades(r0.ledger, r0.orders, sample.price, sample.timestamp);
            match fill_pass(r0.ledger, r0.orders, sample.price, sample.timestamp) {
                Some((l1, o1)) => {
                    let (st, c, sigs) = grid_step(s, true, r0.state, r0.center, sample.price);
                    lemma_process_pass_trades(l1, o1, sigs, sample.price, sample.timestamp);
                    match process_pass(l1, o1, sigs, sample.price, sample.timestamp) {
                        Some((l2, o2)) => {
                            let n0 = r0.ledger.trades.len() as int;
                            let n1 = l1.trades.len() as int;
                            assert(l2.trades.subrange(0, n0) =~= l2.trades.subrange(0, n1).subrange(0, n0));
                            assert forall|j: int| n0 <= j < l2.trades.len() implies (#[trigger] l2.trades[j]).timestamp
                                == sample.timestamp by {
                                if j < n1 {
                                    assert(l2.trades[j] == l2.trades.subrange(0, n1)[j]);
                                    assert(l1.trades[j].timestamp == sample.timestamp);
                                }
                            }
                        },
                        None => {},
                    }
                },
                None => {},
            }
        },
        None => {},
    }
}


/// A fill that passes the affordability gate takes no more cash (for a buy)
/// or position (for a sell) than the book holds, up to the one-billionth
/// tolerance; so cash and position stay non-negative with at most that much
/// rounded away.
pub proof fn lemma_gated_fill(l: Ledger, side: OrderSide, price: u64, size: u64, ts: i64)
    requires
        affordable(l, side, price, size),
    ensures
        apply_fill(l, side, price, size, ts) matches Some(l2) ==> {
            &&& l2.cash >= 0 && l2.position >= 0
            &&& side == OrderSide::Buy ==> mul_units(price as int, size as int) <= l.cash as int + TOLERANCE as int
                && l2.position == l.position + size
            &&& side == OrderSide::Sell ==> size as int <= l.position as int + TOLERANCE as int
                && l2.cash as int == l.cash as int + mul_units(price as int, size as int)
        },
{
    if side == OrderSide::Buy {
        let u = UNIT as int;
        vstd::arithmetic::div_mod::lemma_div_is_ordered((price as int) * (size as int),
            (l.cash as int + TOLERANCE as int) * u, u);
        vstd::arithmetic::div_mod::lemma_div_by_multiple(l.cash as int + TOLERANCE as int, u);
    }
}

/// Every trade recorded and every order resting has a positive price and size.
pub open spec fn positive_book(l: Ledger, orders: Seq<Quote>) -> bool {
    &&& forall|j: int| 0 <= j < l.trades.len() ==> (#[trigger] l.trades[j]).price > 0 && l.trades[j].size > 0
    &&& forall|j: int| 0 <= j < orders.len() ==> (#[trigger] orders[j]).price > 0 && orders[j].size > 0
}

proof fn lemma_fill_pass_counted(l: Ledger, orders: Seq<Quote>, price: u64, ts: i64)
    requires
        positive_book(l, orders),
    ensures
        fill_pass(l, orders, price, ts) matches Some((l2, kept)) ==> {
            &&& l2.trades.len() == l.trades.len() + fill_events(l, orders, price, ts).len()
            &&& positive_book(l2, kept)
        },
    decreases orders.len(),
{
    if orders.len() > 0 {
        let prev = orders.drop_last();
        assert(positive_book(l, prev)) by {
            assert forall|j: int| 0 <= j < prev.len() implies (#[trigger] prev[j]).price > 0 && prev[j].size > 0 by {
                assert(prev[j] == orders[j]);
            }
        }
        lemma_fill_pass_counted(l, prev, price, ts);
        let q = orders.last();
        assert(q == orders[orders.len() - 1]);
        match fill_pass(l, prev, price, ts) {
            Some((l1, kept1)) => {
                if crosses(q, price) && affordable(l1, q.side, q.price, q.size) {
                    match apply_fill(l1, q.side, q.price, q.size, ts) {
                        Some(l2) => {
                            assert(l2.trades == l1.trades.push(TradeExecution { timestamp: ts, price: q.price,
                                size: q.size, side: q.side }));
                            assert forall|j: int| 0 <= j < l2.trades.len() implies
                                (#[trigger] l2.trades[j]).price > 0 && l2.trades[j].size > 0 by {
                                if j < l1.trades.len() {
                                    assert(l2.trades[j] == l1.trades[j]);
                                }
                            }
                        },
                        None => {},
                    }
                } else {
                    assert forall|j: int| 0 <= j < kept1.push(q).len() implies
                        (#[trigger] kept1.push(q)[j]).price > 0 && kept1.push(q)[j].size > 0 by {
                        if j < kept1.len() {
                            assert(kept1.push(q)[j] == kept1[j]);
                        }
                    }
                }
            },
            None => {},
        }
    }
}

proof fn lemma_process_pass_counted(l: Ledger, orders: Seq<Quote>, sigs: Seq<SignalTerms>, price: u64, ts: i64)
    requires
        positive_book(l, orders),
        price > 0,
    ensures
        process_pass(l, orders, sigs, price, ts) matches Some((l2, o2)) ==> {
            &&& l2.trades.len() == l.trades.len() + process_events(l, orders, sigs, price, ts).len()
            &&& positive_book(l2, o2)
        },
    decreases sigs.len(),
{
    if sigs.len() > 0 {
        let prev = sigs.drop_last();
        lemma_process_pass_counted(l, orders, prev, price, ts);
        let t = sigs.last();
        match process_pass(l, orders, prev, price, ts) {
            Some((l1, o1)) => {
                match process_one(l1, o1, t, price, ts) {
                    Some((l2, o2)) => {
                        if market_fill(l1, t, price) {
                            assert(l2.trades == l1.trades.push(TradeExecution { timestamp: ts, price, size: t.size,
                                side: side_of(t.signal_type) }));
                            assert forall|j: int| 0 <= j < l2.trades.len() implies
                                (#[trigger] l2.trades[j]).price > 0 && l2.trades[j].size > 0 by {
                                if j < l1.trades.len() {
                                    assert(l2.trades[j] == l1.trades[j]);
                                }
                            }
                        } else {
                            assert(l2 == l1);
                            assert forall|j: int| 0 <= j < o2.len() implies
                                (#[trigger] o2[j]).price > 0 && o2[j].size > 0 by {
                                if j < o1.len() {
                                    assert(o2[j] == o1[j]);
                                }
                            }
                        }
                    },
                    None => {},
                }
            },
            None => {},
        }
    }
}

/// Trade accounting over a whole backtest: each replayed sample adds exactly
/// one trade per fill the strategy is told of (the fills of the fill pass,
/// then those of the signal pass), and when every sample price is positive,
/// every trade and every resting order has a positive price and size.
pub proof fn lemma_replay_trade_accounting(s: GridSettings, cash: u64, samples: Seq<PriceSample>)
    requires
        forall|i: int| 0 <= i < samples.len() ==> (#[trigger] samples[i]).price > 0,
    ensures
        replay(s, cash, samples) matches Some(r) ==> positive_book(r.ledger, r.orders),
        samples.len() > 0 ==> (replay(s, cash, samples) matches Some(r) ==> {
            let r0 = replay(s, cash, samples.drop_last())->Some_0;
            let sample = samples.last();
            let (l1, o1) = fill_pass(r0.ledger, r0.orders, sample.price, sample.timestamp)->Some_0;
            let sigs = grid_step(s, true, r0.state, r0.center, sample.price).2;
            r.ledger.trades.len() == r0.ledger.trades.len()
                + fill_events(r0.ledger, r0.orders, sample.price, sample.timestamp).len()
                + process_events(l1, o1, sigs, sample.price, sample.timestamp).len()
        }),
    decreases samples.len(),
{
    if samples.len() > 0 {
        let p = samples.drop_last();
        assert forall|i: int| 0 <= i < p.len() implies (#[trigger] p[i]).price > 0 by {
            assert(p[i] == samples[i]);
        }
        lemma_replay_trade_accounting(s, cash, p);
        let sample = samples.last();
        assert(sample == samples[samples.len() - 1]);
        match replay(s, cash, p) {
            Some(r0) => {
                lemma_fill_pass_counted(r0.ledger, r0.orders, sample.price, sample.timestamp);
                match fill_pass(r0.ledger, r0.orders, sample.price, sample.timestamp) {
                    Some((l1, o1)) => {
                        let (st, c, sigs) = grid_step(s, true, r0.state, r0.center, sample.price);
                        lemma_process_pass_counted(l1, o1, sigs, sample.price, sample.timestamp);
                    },
                    None => {},
                }
            },
            None => {},
        }
    } else {
        let r = replay(s, cash, samples)->Some_0;
        assert(r.ledger.trades.len() == 0);
        assert(r.orders.len() == 0);
    }
}


/// Runs a backtest on any inputs: an invalid configuration and a sample
/// without a positive price are reported as errors; otherwise the result is
/// that of [`run_backtest`].
pub fn run_backtest_checked(config: &BotConfig, initial_cash: u64, samples: &[PriceSample])
    -> (r: Result<BacktestResult, BacktestError>)
    ensures
        !config.valid() ==> r == Err::<BacktestResult, BacktestError>(BacktestError::InvalidConfig),
        config.valid() && !(forall|i: int| 0 <= i < samples@.len() ==> #[trigger] samples@[i].price > 0)
            ==> (r matches Err(BacktestError::NonPositivePrice { index }) && index < samples@.len()
                && samples@[index as int].price == 0
                && forall|j: int| 0 <= j < index ==> #[trigger] samples@[j].price > 0),
        config.valid() && (forall|i: int| 0 <= i < samples@.len() ==> #[trigger] samples@[i].price > 0) ==> {
            &&& samples@.len() == 0 ==> r == Err::<BacktestResult, BacktestError>(BacktestError::NoSamples)
            &&& samples@.len() > 0 && !timestamps_ok(samples@) ==> (r matches Err(BacktestError::NegativeTimestamp { index })
                && index < samples@.len() && samples@[index as int].timestamp < 0)
            &&& timestamps_ok(samples@) ==> match backtest_outcome(*config, initial_cash, samples@) {
                Ok((value, cash, position, trades)) => r matches Ok(res) && res.final_value == value
                    && res.cash == cash && res.position == position && res.trades@ == trades,
                Err(e) => r == Err::<BacktestResult, BacktestError>(e),
            }
        },
{
    if config.validate().is_err() {
        return Err(BacktestError::InvalidConfig);
    }
    let mut i: usize = 0;
    while i < samples.len()
        invariant
            config.valid(),
            i <= samples@.len(),
            forall|j: int| 0 <= j < i ==> #[trigger] samples@[j].price > 0,
        decreases samples@.len() - i,
    {
        if samples[i].price == 0 {
            return Err(BacktestError::NonPositivePrice { index: i });
        }
        i = i + 1;
    }
    run_backtest(config, initial_cash, samples)
}

/// Number of fills over a whole replay: the fills of each sample's fill
/// pass and signal pass, summed.
pub open spec fn replay_fills(s: GridSettings, cash: u64, samples: Seq<PriceSample>) -> nat
    decreases samples.len(),
{
    if samples.len() == 0 {
        0
    } else {
        let prev = replay_fills(s, cash, samples.drop_last());
        match replay(s, cash, samples.drop_last()) {
            None => prev,
            Some(r0) => {
                let sample = samples.last();
                match fill_pass(r0.ledger, r0.orders, sample.price, sample.timestamp) {
                    None => prev,
                    Some((l1, o1)) => {
                        let sigs = grid_step(s, true, r0.state, r0.center, sample.price).2;
                        prev + fill_events(r0.ledger, r0.orders, sample.price, sample.timestamp).len()
                            + process_events(l1, o1, sigs, sample.price, sample.timestamp).len()
                    },
                }
            },
        }
    }
}

/// Over a whole backtest the trade log holds exactly one trade per fill, and
/// (with positive sample prices) every trade has a positive price and size.
pub proof fn lemma_backtest_trade_count(s: GridSettings, cash: u64, samples: Seq<PriceSample>)
    requires
        forall|i: int| 0 <= i < samples.len() ==> (#[trigger] samples[i]).price > 0,
    ensures
        replay(s, cash, samples) matches Some(r) ==> {
            &&& r.ledger.trades.len() == replay_fills(s, cash, samples)
            &&& forall|j: int| 0 <= j < r.ledger.trades.len()
                ==> (#[trigger] r.ledger.trades[j]).price > 0 && r.ledger.trades[j].size > 0
        },
    decreases samples.len(),
{
    lemma_replay_trade_accounting(s, cash, samples);
    if samples.len() > 0 {
        let p = samples.drop_last();
        assert forall|i: int| 0 <= i < p.len() implies (#[trigger] p[i]).price > 0 by {
            assert(p[i] == samples[i]);
        }
        lemma_backtest_trade_count(s, cash, p);
    }
}

} // verus!
