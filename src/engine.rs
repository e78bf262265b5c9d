//! Decisions of the live engine: what the exchange is asked to do for each
//! risk event and each signal. Performing the calls is left to the caller.
use vstd::prelude::*;
use crate::interfaces::{OrderSide, OrderType, SignalMetadata, SignalType, TradingSignal};
use crate::risk::{AccountMetrics, RiskAction, RiskEvent};
use crate::units::UNIT;

verus! {

/// One request to the exchange.
#[derive(Debug)]
#[allow(inconsistent_fields)]
pub enum ExchangeCommand {
    /// Close a position in `asset`: all of it, or the given size.
    ClosePosition { asset: String, size: Option<u64> },
    CancelAllOrders,
    /// Close every open position.
    CloseAllPositions,
    PlaceOrder { asset: String, side: OrderSide, size: u64, order_type: OrderType, price: Option<u64> },
}

/// Size that a reduce action closes: half a unit of the asset.
pub const REDUCE_SIZE: u64 = UNIT / 2;

/// The exchange requests that answer a risk event.
pub fn risk_commands(event: &RiskEvent) -> (cmds: Vec<ExchangeCommand>)
    ensures
        match event.action {
            RiskAction::ClosePosition => cmds@.len() == 1 && (cmds@[0] matches ExchangeCommand::ClosePosition { asset, size }
                && asset@ == event.asset@ && size.is_none()),
            RiskAction::ReducePosition => cmds@.len() == 1 && (cmds@[0] matches ExchangeCommand::ClosePosition { asset, size }
                && asset@ == event.asset@ && size == Some(REDUCE_SIZE)),
            RiskAction::CancelOrders => cmds@.len() == 1 && cmds@[0] is CancelAllOrders,
            RiskAction::EmergencyExit => cmds@.len() == 2 && cmds@[0] is CancelAllOrders && cmds@[1] is CloseAllPositions,
            RiskAction::PauseTrading | RiskAction::NoAction => cmds@.len() == 0,
        },
{
    let mut cmds: Vec<ExchangeCommand> = Vec::new();
    match event.action {
        RiskAction::ClosePosition => {
            cmds.push(ExchangeCommand::ClosePosition { asset: event.asset.clone(), size: None });
        },
        RiskAction::ReducePosition => {
            cmds.push(ExchangeCommand::ClosePosition { asset: event.asset.clone(), size: Some(REDUCE_SIZE) });
        },
        RiskAction::CancelOrders => {
            cmds.push(ExchangeCommand::CancelAllOrders);
        },
        RiskAction::EmergencyExit => {
            cmds.push(ExchangeCommand::CancelAllOrders);
            cmds.push(ExchangeCommand::CloseAllPositions);
        },
        RiskAction::PauseTrading | RiskAction::NoAction => {},
    }
    cmds
}

/// The exchange requests that carry out a signal: an order for `Buy` and
/// `Sell` (limit when priced, market otherwise), a cancel-all for the
/// cancel-all directive, nothing otherwise.
pub fn signal_commands(signal: &TradingSignal) -> (cmds: Vec<ExchangeCommand>)
    ensures
        match signal.signal_type {
            SignalType::Buy | SignalType::Sell => cmds@.len() == 1 && (cmds@[0] matches ExchangeCommand::PlaceOrder {
                asset, side, size, order_type, price }
                && asset@ == signal.asset@
                && side == (if signal.signal_type == SignalType::Buy { OrderSide::Buy } else { OrderSide::Sell })
                && size == signal.size && price == signal.price
                && order_type == (if signal.price.is_some() { OrderType::Limit } else { OrderType::Market })),
            SignalType::Close => if signal.metadata == SignalMetadata::CancelAll {
                cmds@.len() == 1 && cmds@[0] is CancelAllOrders
            } else {
                cmds@.len() == 0
            },
            SignalType::Hold => cmds@.len() == 0,
        },
{
    let mut cmds: Vec<ExchangeCommand> = Vec::new();
    match signal.signal_type {
        SignalType::Buy | SignalType::Sell => {
            let side = if signal.signal_type == SignalType::Buy { OrderSide::Buy } else { OrderSide::Sell };
            let order_type = if signal.price.is_some() { OrderType::Limit } else { OrderType::Market };
            cmds.push(ExchangeCommand::PlaceOrder {
                asset: signal.asset.clone(),
                side,
                size: signal.size,
                order_type,
                price: signal.price,
            });
        },
        SignalType::Close => {
            if signal.metadata == SignalMetadata::CancelAll {
                cmds.push(ExchangeCommand::CancelAllOrders);
            }
        },
        SignalType::Hold => {},
    }
    cmds
}

/// Account figures as reported by the exchange, each possibly missing.
#[derive(Clone, Copy, Debug)]
pub struct MetricFields {
    pub total_value: Option<i64>,
    pub total_pnl: Option<i64>,
    pub unrealized_pnl: Option<i64>,
    pub realized_pnl: Option<i64>,
    pub drawdown_pct: Option<u64>,
    pub positions_count: Option<usize>,
    pub largest_position_pct: Option<u64>,
}

pub open spec fn or_zero_u64(x: Option<u64>) -> u64 {
    match x { Some(v) => v, None => 0 }
}

pub open spec fn or_zero_i64(x: Option<i64>) -> i64 {
    match x { Some(v) => v, None => 0 }
}

pub struct AccountMetricsConverter;

impl AccountMetricsConverter {
    /// Account metrics with every missing figure read as zero.
    pub fn from_fields(f: &MetricFields) -> (m: AccountMetrics)
        ensures
            m.total_value == or_zero_i64(f.total_value),
            m.total_pnl == or_zero_i64(f.total_pnl),
            m.unrealized_pnl == or_zero_i64(f.unrealized_pnl),
            m.realized_pnl == or_zero_i64(f.realized_pnl),
            m.drawdown_pct == or_zero_u64(f.drawdown_pct),
            m.positions_count == (match f.positions_count { Some(v) => v, None => 0usize }),
            m.largest_position_pct == or_zero_u64(f.largest_position_pct),
    {
        AccountMetrics {
            total_value: match f.total_value { Some(v) => v, None => 0 },
            total_pnl: match f.total_pnl { Some(v) => v, None => 0 },
            unrealized_pnl: match f.unrealized_pnl { Some(v) => v, None => 0 },
            realized_pnl: match f.realized_pnl { Some(v) => v, None => 0 },
            drawdown_pct: match f.drawdown_pct { Some(v) => v, None => 0 },
            positions_count: match f.positions_count { Some(v) => v, None => 0 },
            largest_position_pct: match f.largest_position_pct { Some(v) => v, None => 0 },
        }
    }
}

} // verus!
