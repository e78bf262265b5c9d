use hyperliquid_bot::engine::{risk_commands, signal_commands, AccountMetricsConverter, ExchangeCommand, MetricFields, REDUCE_SIZE};
use hyperliquid_bot::interfaces::{OrderSide, OrderType, SignalMetadata, SignalType, TradingSignal};
use hyperliquid_bot::risk::{RiskAction, RiskEvent, RiskPayload, RiskRule, Severity};

fn event(action: RiskAction) -> RiskEvent {
    RiskEvent {
        rule: RiskRule::Drawdown,
        asset: "BTC".to_string(),
        action,
        reason: String::new(),
        severity: Severity::High,
        metadata: RiskPayload::Percent { value: 0 },
        timestamp: 0,
    }
}

#[test]
fn risk_actions_map_to_exchange_requests() {
    assert!(matches!(risk_commands(&event(RiskAction::ClosePosition))[..],
        [ExchangeCommand::ClosePosition { ref asset, size: None }] if asset == "BTC"));
    assert!(matches!(risk_commands(&event(RiskAction::ReducePosition))[..],
        [ExchangeCommand::ClosePosition { size: Some(f), .. }] if f == REDUCE_SIZE));
    assert_eq!(REDUCE_SIZE, 500_000_000);
    assert!(matches!(risk_commands(&event(RiskAction::CancelOrders))[..], [ExchangeCommand::CancelAllOrders]));
    assert!(matches!(risk_commands(&event(RiskAction::EmergencyExit))[..],
        [ExchangeCommand::CancelAllOrders, ExchangeCommand::CloseAllPositions]));
    assert!(risk_commands(&event(RiskAction::PauseTrading)).is_empty());
    assert!(risk_commands(&event(RiskAction::NoAction)).is_empty());
}

#[test]
fn signals_map_to_orders() {
    let limit = TradingSignal {
        signal_type: SignalType::Sell,
        asset: "BTC".to_string(),
        size: 3,
        price: Some(7),
        reason: None,
        metadata: SignalMetadata::Empty,
    };
    match &signal_commands(&limit)[..] {
        [ExchangeCommand::PlaceOrder { asset, side, size, order_type, price }] => {
            assert_eq!(asset, "BTC");
            assert_eq!(*side, OrderSide::Sell);
            assert_eq!(*size, 3);
            assert_eq!(*order_type, OrderType::Limit);
            assert_eq!(*price, Some(7));
        }
        other => panic!("unexpected {:?}", other),
    }
    let market = TradingSignal { price: None, signal_type: SignalType::Buy, ..limit };
    assert!(matches!(signal_commands(&market)[..],
        [ExchangeCommand::PlaceOrder { side: OrderSide::Buy, order_type: OrderType::Market, .. }]));
    let cancel = TradingSignal { signal_type: SignalType::Close, metadata: SignalMetadata::CancelAll, ..market };
    assert!(matches!(signal_commands(&cancel)[..], [ExchangeCommand::CancelAllOrders]));
    let close = TradingSignal { metadata: SignalMetadata::Empty, ..cancel };
    assert!(signal_commands(&close).is_empty());
}

#[test]
fn missing_metrics_read_as_zero() {
    let fields = MetricFields {
        total_value: Some(10),
        total_pnl: None,
        unrealized_pnl: Some(-3),
        realized_pnl: None,
        drawdown_pct: Some(7),
        positions_count: None,
        largest_position_pct: Some(9),
    };
    let m = AccountMetricsConverter::from_fields(&fields);
    assert_eq!(m.total_value, 10);
    assert_eq!(m.total_pnl, 0);
    assert_eq!(m.unrealized_pnl, -3);
    assert_eq!(m.drawdown_pct, 7);
    assert_eq!(m.positions_count, 0);
    assert_eq!(m.largest_position_pct, 9);
}
