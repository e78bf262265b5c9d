//! Kinds of events the engine publishes.
use vstd::prelude::*;

verus! {

#[derive(Clone, Copy, Debug, PartialEq, Eq, Hash, Structural)]
pub enum EventType {
    OrderFilled,
    OrderCancelled,
    OrderPlaced,
    PositionOpened,
    PositionClosed,
    PositionUpdated,
    PriceUpdate,
    StrategyStart,
    StrategyStop,
    StrategyUpdate,
    Error,
    System,
    EmergencyStop,
}

} // verus!
