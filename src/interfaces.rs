//! Values exchanged between the strategy, the risk manager and the executors.
//!
//! Prices, sizes and values are fixed-point billionths; timestamps are
//! nanoseconds since the Unix epoch.
use vstd::prelude::*;

verus! {

#[derive(Clone, Copy, Debug, PartialEq, Eq, Structural)]
pub enum SignalType {
    Buy,
    Sell,
    Hold,
    Close,
}

#[derive(Clone, Copy, Debug, PartialEq, Eq, Structural)]
pub enum OrderSide {
    Buy,
    Sell,
}

impl OrderSide {
    /// Lower-case name of the side.
    pub fn as_str(&self) -> (s: &'static str)
        ensures
            s@ == (match *self {
                OrderSide::Buy => "buy"@,
                OrderSide::Sell => "sell"@,
            }),
    {
        match self {
            OrderSide::Buy => "buy",
            OrderSide::Sell => "sell",
        }
    }
}

#[derive(Clone, Copy, Debug, PartialEq, Eq, Structural)]
pub enum OrderType {
    Market,
    Limit,
}

#[derive(Clone, Copy, Debug, PartialEq, Eq, Structural)]
pub enum OrderStatus {
    Pending,
    Submitted,
    Filled,
    PartiallyFilled,
    Cancelled,
    Rejected,
}

/// Which phase of the grid emitted a level order.
#[derive(Clone, Copy, Debug, PartialEq, Eq, Structural)]
pub enum GridType {
    Initial,
}

/// What a signal carries besides its order terms.
#[derive(Clone, Copy, Debug, PartialEq, Eq, Structural)]
pub enum SignalMetadata {
    /// Nothing attached.
    Empty,
    /// A `Close` that cancels every resting order.
    CancelAll,
    /// The order of one grid level.
    Level { level_index: usize, grid_type: GridType },
}

/// A trading instruction. `price == None` asks for the market price;
/// `Some(p)` is a limit order at `p`.
#[derive(Debug)]
pub struct TradingSignal {
    pub signal_type: SignalType,
    pub asset: String,
    pub size: u64,
    pub price: Option<u64>,
    pub reason: Option<String>,
    pub metadata: SignalMetadata,
}

/// The terms of a signal that decide how it is executed.
#[derive(Clone, Copy, Debug, PartialEq, Eq, Structural)]
pub struct SignalTerms {
    pub signal_type: SignalType,
    pub size: u64,
    pub price: Option<u64>,
    pub metadata: SignalMetadata,
}

impl TradingSignal {
    pub open spec fn terms(&self) -> SignalTerms {
        SignalTerms {
            signal_type: self.signal_type,
            size: self.size,
            price: self.price,
            metadata: self.metadata,
        }
    }
}

/// The terms of every signal of `s`, in order.
pub open spec fn terms_of(s: Seq<TradingSignal>) -> Seq<SignalTerms> {
    s.map_values(|x: TradingSignal| x.terms())
}

/// One price observation of an asset.
#[derive(Debug)]
pub struct MarketData {
    pub asset: String,
    pub price: u64,
    pub volume_24h: u64,
    pub timestamp: i64,
    pub bid: Option<u64>,
    pub ask: Option<u64>,
    pub volatility: Option<u64>,
}

/// An open position. `size` is signed: negative for a short.
#[derive(Debug)]
pub struct Position {
    pub asset: String,
    pub size: i64,
    pub entry_price: u64,
    pub current_value: u64,
    pub unrealized_pnl: i64,
    pub timestamp: i64,
}

#[derive(Debug)]
/// Funds held in one asset. Amounts are signed: a paper account may overdraw.
pub struct Balance {
    pub asset: String,
    pub available: i64,
    pub locked: i64,
    pub total: i64,
}

#[derive(Debug)]
pub struct MarketInfo {
    pub symbol: String,
    pub base_asset: String,
    pub quote_asset: String,
    pub min_order_size: u64,
    pub price_precision: u32,
    pub size_precision: u32,
    pub is_active: bool,
}

} // verus!
