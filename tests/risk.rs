use hyperliquid_bot::config::{
    AccountConfig, AutoPositionSizingConfig, AutoPriceRangeConfig, BotConfig, ExchangeConfig,
    GridConfig, GridSpacingStrategy, LogLevel, ManualPositionSizingConfig, ManualPriceRangeConfig,
    MonitoringConfig, PositionSizingConfig, PositionSizingMode, PriceRangeConfig, RangeMode,
    RebalanceConfig, RiskLevel, RiskManagementConfig,
};
use hyperliquid_bot::interfaces::{MarketData, Position};
use hyperliquid_bot::risk::{AccountMetrics, RiskAction, RiskEvaluator, RiskManager, RiskPayload, RiskRule, Severity};

const UNIT: f64 = 1_000_000_000.0;

fn units(x: f64) -> u64 {
    (x * UNIT).round() as u64
}

fn signed_units(x: f64) -> i64 {
    (x * UNIT).round() as i64
}

fn sample_config() -> BotConfig {
    BotConfig {
        name: "BTC Conservative".to_string(),
        active: true,
        exchange: ExchangeConfig { exchange_type: "hyperliquid".to_string(), testnet: true },
        account: AccountConfig { max_allocation_pct: units(20.0), risk_level: RiskLevel::Conservative },
        grid: GridConfig {
            symbol: "BTC".to_string(),
            levels: 15,
            price_range: PriceRangeConfig {
                mode: RangeMode::Auto,
                auto: AutoPriceRangeConfig {
                    range_pct: units(10.0),
                    volatility_adjustment: true,
                    min_range_pct: units(5.0),
                    max_range_pct: units(25.0),
                    volatility_multiplier: units(2.0),
                },
                manual: ManualPriceRangeConfig { min: units(90000.0), max: units(120000.0) },
            },
            position_sizing: PositionSizingConfig {
                mode: PositionSizingMode::Auto,
                auto: AutoPositionSizingConfig {
                    balance_reserve_pct: units(50.0),
                    max_single_position_pct: units(10.0),
                    grid_spacing_strategy: GridSpacingStrategy::Percentage,
                    volatility_position_adjustment: true,
                    min_position_size_usd: units(10.0),
                },
                manual: ManualPositionSizingConfig { size_per_level: units(0.0001) },
            },
        },
        risk_management: RiskManagementConfig {
            max_drawdown_pct: units(15.0),
            max_position_size_pct: units(30.0),
            stop_loss_enabled: false,
            stop_loss_pct: units(5.0),
            take_profit_enabled: false,
            take_profit_pct: units(20.0),
            rebalance: RebalanceConfig {
                price_move_threshold_pct: units(15.0),
                time_based: false,
                cooldown_minutes: 30,
                max_rebalances_per_day: 10,
            },
        },
        monitoring: MonitoringConfig { log_level: LogLevel::Info },
        loaded_at: None,
    }
}

fn make_position(price: f64, pnl: f64) -> Position {
    Position {
        asset: "BTC".into(),
        size: signed_units(0.1),
        entry_price: units(100_000.0),
        current_value: units(price * 0.1),
        unrealized_pnl: signed_units(pnl),
        timestamp: 0,
    }
}

fn market(price: f64) -> MarketData {
    MarketData {
        asset: "BTC".into(),
        price: units(price),
        volume_24h: 0,
        timestamp: 0,
        bid: None,
        ask: None,
        volatility: None,
    }
}

#[test]
fn triggers_stop_loss() {
    let mut cfg = sample_config();
    cfg.risk_management.stop_loss_enabled = true;
    cfg.risk_management.stop_loss_pct = units(5.0);
    let mut manager = RiskManager::new(&cfg);
    let position = make_position(90_000.0, -1_500.0);
    let events = manager.evaluate(&[position], &market(90_000.0), &AccountMetrics::zero(), 0);
    assert!(events.iter().any(|e| e.rule_name() == "stop_loss"));
    let stop = events.iter().find(|e| e.rule == RiskRule::StopLoss).unwrap();
    assert_eq!(stop.action, RiskAction::ClosePosition);
    assert_eq!(stop.severity, Severity::High);
    assert_eq!(stop.reason, "loss 15.00% exceeds 5.00%");
}

#[test]
fn stop_loss_stays_quiet_below_threshold() {
    let mut cfg = sample_config();
    cfg.risk_management.stop_loss_enabled = true;
    cfg.risk_management.stop_loss_pct = units(20.0);
    let mut manager = RiskManager::new(&cfg);
    let position = make_position(90_000.0, -1_500.0);
    let events = manager.evaluate(&[position], &market(90_000.0), &AccountMetrics::zero(), 0);
    assert!(events.iter().all(|e| e.rule != RiskRule::StopLoss));
}

#[test]
fn stop_loss_fires_exactly_at_threshold() {
    let mut cfg = sample_config();
    cfg.risk_management.stop_loss_enabled = true;
    cfg.risk_management.stop_loss_pct = units(15.0);
    let mut manager = RiskManager::new(&cfg);
    let position = make_position(90_000.0, -1_500.0);
    let events = manager.evaluate(&[position], &market(90_000.0), &AccountMetrics::zero(), 0);
    assert!(events.iter().any(|e| e.rule == RiskRule::StopLoss));
}

#[test]
fn stop_loss_ignores_zero_basis() {
    let mut cfg = sample_config();
    cfg.risk_management.stop_loss_enabled = true;
    let mut manager = RiskManager::new(&cfg);
    let mut position = make_position(90_000.0, -1_500.0);
    position.size = 0;
    let events = manager.evaluate(&[position], &market(90_000.0), &AccountMetrics::zero(), 0);
    assert!(events.is_empty());
}

#[test]
fn take_profit_closes_winning_position() {
    let mut cfg = sample_config();
    cfg.risk_management.take_profit_enabled = true;
    cfg.risk_management.take_profit_pct = units(20.0);
    let mut manager = RiskManager::new(&cfg);
    let position = make_position(125_000.0, 2_500.0);
    let events = manager.evaluate(&[position], &market(125_000.0), &AccountMetrics::zero(), 0);
    assert_eq!(events.len(), 1);
    assert_eq!(events[0].rule, RiskRule::TakeProfit);
    assert_eq!(events[0].severity, Severity::Medium);
}

#[test]
fn pauses_on_drawdown() {
    let cfg = sample_config();
    let mut manager = RiskManager::new(&cfg);
    let metrics = AccountMetrics {
        total_value: signed_units(10_000.0),
        total_pnl: signed_units(-2_000.0),
        unrealized_pnl: signed_units(-1_000.0),
        realized_pnl: signed_units(-1_000.0),
        drawdown_pct: units(20.0),
        positions_count: 1,
        largest_position_pct: units(5.0),
    };
    let events = manager.evaluate(&[], &market(100_000.0), &metrics, 0);
    assert!(events.iter().any(|e| e.action == RiskAction::PauseTrading));
    assert!(manager.trading_paused());
}

#[test]
fn reduces_oversized_position() {
    let cfg = sample_config();
    let mut manager = RiskManager::new(&cfg);
    let mut metrics = AccountMetrics::zero();
    metrics.largest_position_pct = units(40.0);
    let events = manager.evaluate(&[], &market(100_000.0), &metrics, 0);
    assert_eq!(events.len(), 1);
    assert_eq!(events[0].rule, RiskRule::PositionSize);
    assert_eq!(events[0].action, RiskAction::ReducePosition);
    assert_eq!(events[0].asset, "BTC");
    assert!(!manager.trading_paused());
}

#[test]
fn respects_manual_price_range_for_rebalance() {
    let mut cfg = sample_config();
    cfg.grid.price_range.mode = RangeMode::Manual;
    cfg.grid.price_range.manual.min = units(95_000.0);
    cfg.grid.price_range.manual.max = units(105_000.0);
    cfg.risk_management.rebalance.price_move_threshold_pct = units(10.0);
    let mut manager = RiskManager::new(&cfg);

    let events = manager.evaluate(&[], &market(100_000.0), &AccountMetrics::zero(), 0);
    assert!(events.iter().all(|e| e.rule_name() != "rebalance"));

    let events = manager.evaluate(&[], &market(140_000.0), &AccountMetrics::zero(), 0);
    assert!(events.iter().any(|e| e.rule_name() == "rebalance"));
    assert!(events.iter().any(|e| e.action == RiskAction::CancelOrders));
}

#[test]
fn rebalance_waits_for_cooldown() {
    let mut cfg = sample_config();
    cfg.grid.price_range.mode = RangeMode::Manual;
    cfg.grid.price_range.manual.min = units(95_000.0);
    cfg.grid.price_range.manual.max = units(105_000.0);
    cfg.risk_management.rebalance.price_move_threshold_pct = units(10.0);
    let mut manager = RiskManager::new(&cfg);
    let first = manager.evaluate(&[], &market(140_000.0), &AccountMetrics::zero(), 1_000);
    assert_eq!(first.len(), 1);
    let soon = manager.evaluate(&[], &market(140_000.0), &AccountMetrics::zero(), 1_000 + 29 * 60_000);
    assert!(soon.is_empty());
    assert!(!manager.can_rebalance(1_000 + 29 * 60_000));
    let later = manager.evaluate(&[], &market(140_000.0), &AccountMetrics::zero(), 1_000 + 30 * 60_000);
    assert_eq!(later.len(), 1);
    assert_eq!(manager.rebalance_count, 2);
}

#[test]
fn rebalance_cap_is_never_reset() {
    let mut cfg = sample_config();
    cfg.grid.price_range.mode = RangeMode::Manual;
    cfg.grid.price_range.manual.min = units(95_000.0);
    cfg.grid.price_range.manual.max = units(105_000.0);
    cfg.risk_management.rebalance.max_rebalances_per_day = 1;
    let mut manager = RiskManager::new(&cfg);
    let first = manager.evaluate(&[], &market(140_000.0), &AccountMetrics::zero(), 0);
    assert_eq!(first.len(), 1);
    let day_later = manager.evaluate(&[], &market(140_000.0), &AccountMetrics::zero(), 2 * 86_400_000);
    assert!(day_later.is_empty());
}

#[test]
fn auto_range_never_triggers_rebalance_at_its_center() {
    let cfg = sample_config();
    let mut manager = RiskManager::new(&cfg);
    let events = manager.evaluate(&[], &market(100_000.0), &AccountMetrics::zero(), 0);
    assert!(events.is_empty());
}

#[test]
fn evaluation_is_repeatable() {
    let mut cfg = sample_config();
    cfg.risk_management.stop_loss_enabled = true;
    let mut a = RiskManager::new(&cfg);
    let mut b = RiskManager::new(&cfg);
    let mut metrics = AccountMetrics::zero();
    metrics.drawdown_pct = units(30.0);
    let ea = a.evaluate(&[make_position(90_000.0, -1_500.0)], &market(90_000.0), &metrics, 7);
    let eb = b.evaluate(&[make_position(90_000.0, -1_500.0)], &market(90_000.0), &metrics, 7);
    assert_eq!(ea.len(), eb.len());
    for (x, y) in ea.iter().zip(eb.iter()) {
        assert_eq!(x.rule, y.rule);
        assert_eq!(x.action, y.action);
        assert_eq!(x.reason, y.reason);
        assert_eq!(x.timestamp, y.timestamp);
    }
    let order: Vec<RiskRule> = ea.iter().map(|e| e.rule).collect();
    assert_eq!(order, vec![RiskRule::StopLoss, RiskRule::Drawdown]);
}

#[test]
fn evaluator_forwards_to_manager() {
    let cfg = sample_config();
    let mut manager = RiskManager::new(&cfg);
    let evaluator = RiskEvaluator::new(&mut manager);
    assert!(!evaluator.manager.trading_paused());
}

#[test]
fn events_carry_reason_payload_and_clock() {
    let mut cfg = sample_config();
    cfg.grid.price_range.mode = RangeMode::Manual;
    cfg.grid.price_range.manual.min = units(95_000.0);
    cfg.grid.price_range.manual.max = units(105_000.0);
    cfg.risk_management.rebalance.price_move_threshold_pct = units(10.0);
    let mut manager = RiskManager::new(&cfg);
    let mut metrics = AccountMetrics::zero();
    metrics.drawdown_pct = units(20.0);
    let events = manager.evaluate(&[], &market(140_000.0), &metrics, 42);
    assert_eq!(events.len(), 2);
    assert!(events.iter().all(|e| e.timestamp == 42));
    assert_eq!(events[0].metadata, RiskPayload::Percent { value: units(20.0) });
    assert_eq!(events[0].reason, "drawdown 20.00% exceeds 15.00%");
    assert_eq!(
        events[1].metadata,
        RiskPayload::Range { price: units(140_000.0), lower: units(95_000.0), upper: units(105_000.0) }
    );
    assert_eq!(events[1].reason, "price 140000.00 outside [95000.00, 105000.00] with threshold 10.00%");
}
