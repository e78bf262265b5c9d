use hyperliquid_bot::config::{
    AccountConfig, AutoPositionSizingConfig, AutoPriceRangeConfig, BotConfig, ExchangeConfig,
    GridConfig, GridSpacingStrategy, LogLevel, ManualPositionSizingConfig, ManualPriceRangeConfig,
    MonitoringConfig, PositionSizingConfig, PositionSizingMode, PriceRangeConfig, RangeMode,
    RebalanceConfig, RiskLevel, RiskManagementConfig,
};
use hyperliquid_bot::grid::{create_strategy, GridState};
use hyperliquid_bot::interfaces::{GridType, MarketData, SignalMetadata, SignalType};

const UNIT: f64 = 1_000_000_000.0;

fn units(x: f64) -> u64 {
    (x * UNIT).round() as u64
}

fn config(levels: u32, mode: RangeMode) -> BotConfig {
    BotConfig {
        name: "Grid Bot".to_string(),
        active: true,
        exchange: ExchangeConfig { exchange_type: "hyperliquid".to_string(), testnet: true },
        account: AccountConfig { max_allocation_pct: units(20.0), risk_level: RiskLevel::Moderate },
        grid: GridConfig {
            symbol: "BTC".to_string(),
            levels,
            price_range: PriceRangeConfig {
                mode,
                auto: AutoPriceRangeConfig {
                    range_pct: units(10.0),
                    volatility_adjustment: true,
                    min_range_pct: units(5.0),
                    max_range_pct: units(25.0),
                    volatility_multiplier: units(2.0),
                },
                manual: ManualPriceRangeConfig { min: units(90.0), max: units(110.0) },
            },
            position_sizing: PositionSizingConfig {
                mode: PositionSizingMode::Manual,
                auto: AutoPositionSizingConfig {
                    balance_reserve_pct: units(50.0),
                    max_single_position_pct: units(10.0),
                    grid_spacing_strategy: GridSpacingStrategy::Percentage,
                    volatility_position_adjustment: true,
                    min_position_size_usd: units(10.0),
                },
                manual: ManualPositionSizingConfig { size_per_level: units(1000.0) },
            },
        },
        risk_management: RiskManagementConfig {
            max_drawdown_pct: units(15.0),
            max_position_size_pct: units(30.0),
            stop_loss_enabled: false,
            stop_loss_pct: units(5.0),
            take_profit_enabled: false,
            take_profit_pct: units(20.0),
            rebalance: RebalanceConfig {
                price_move_threshold_pct: units(12.0),
                time_based: false,
                cooldown_minutes: 30,
                max_rebalances_per_day: 10,
            },
        },
        monitoring: MonitoringConfig { log_level: LogLevel::Info },
        loaded_at: None,
    }
}

fn market(price: f64, timestamp: i64) -> MarketData {
    MarketData {
        asset: "BTC".to_string(),
        price: units(price),
        volume_24h: 0,
        timestamp,
        bid: None,
        ask: None,
        volatility: None,
    }
}

#[test]
fn first_tick_builds_the_ladder() {
    let mut strategy = create_strategy(&config(3, RangeMode::Manual));
    assert_eq!(strategy.name(), "BTC");
    let signals = strategy.generate_signals(&market(100.0, 0), &[], 0);
    assert_eq!(strategy.state, GridState::Active);
    assert_eq!(strategy.center_price, Some(units(100.0)));
    assert_eq!(signals.len(), 3);
    assert_eq!(signals[0].signal_type, SignalType::Buy);
    assert_eq!(signals[0].price, Some(units(90.0)));
    assert_eq!(signals[0].reason.as_deref(), Some("grid level 0 at 90.00"));
    assert_eq!(signals[0].metadata, SignalMetadata::Level { level_index: 0, grid_type: GridType::Initial });
    assert_eq!(signals[1].signal_type, SignalType::Buy);
    assert!((signals[1].price.unwrap() as f64 / UNIT - 99.498743710662).abs() < 1e-8);
    assert_eq!(signals[1].reason.as_deref(), Some("grid level 1 at 99.50"));
    assert_eq!(signals[2].signal_type, SignalType::Sell);
    assert_eq!(signals[2].price, Some(units(110.0)));
    // size is the per-level allocation over the price
    assert!((signals[0].size as f64 / UNIT - 1000.0 / 90.0).abs() < 1e-8);
}

#[test]
fn ladder_is_geometric() {
    let mut strategy = create_strategy(&config(10, RangeMode::Manual));
    strategy.generate_signals(&market(100.0, 0), &[], 0);
    let prices: Vec<f64> = strategy.grid_levels.iter().map(|l| l.price as f64).collect();
    assert_eq!(prices.len(), 10);
    let ratio = prices[1] / prices[0];
    for pair in prices.windows(2) {
        assert!((pair[1] / pair[0] - ratio).abs() / ratio < 1e-9);
    }
    assert!((prices[9] / UNIT - 110.0).abs() < 1e-6);
}

#[test]
fn level_at_the_price_is_not_emitted() {
    let mut strategy = create_strategy(&config(3, RangeMode::Manual));
    let signals = strategy.generate_signals(&market(90.0, 0), &[], 0);
    assert_eq!(signals.len(), 2);
    assert!(signals.iter().all(|s| s.signal_type == SignalType::Sell));
}

#[test]
fn drift_beyond_threshold_rebalances() {
    let mut strategy = create_strategy(&config(3, RangeMode::Auto));
    strategy.generate_signals(&market(100.0, 0), &[], 0);
    assert!(strategy.generate_signals(&market(112.0, 1), &[], 0).is_empty());
    let signals = strategy.generate_signals(&market(113.0, 2), &[], 0);
    assert_eq!(signals[0].signal_type, SignalType::Close);
    assert_eq!(signals[0].metadata, SignalMetadata::CancelAll);
    // new ladder over [101.7, 124.3]: rungs 101.7 and about 112.43 buy, 124.3 sells
    assert_eq!(signals.len(), 4);
    assert_eq!(signals[1].signal_type, SignalType::Buy);
    assert_eq!(signals[3].signal_type, SignalType::Sell);
    assert_eq!(strategy.center_price, Some(units(113.0)));
    assert_eq!(strategy.last_rebalance, Some(2));
}

#[test]
fn stopped_strategy_stays_silent() {
    let mut strategy = create_strategy(&config(3, RangeMode::Manual));
    strategy.stop();
    assert_eq!(strategy.state, GridState::Stopped);
    assert!(strategy.generate_signals(&market(100.0, 0), &[], 0).is_empty());
    strategy.start();
    assert!(strategy.active);
    assert_eq!(strategy.state, GridState::Stopped);
    assert!(strategy.generate_signals(&market(100.0, 0), &[], 0).is_empty());
}

#[test]
fn fills_mark_levels_and_credit_sells() {
    let mut strategy = create_strategy(&config(3, RangeMode::Manual));
    let signals = strategy.generate_signals(&market(100.0, 0), &[], 0);
    strategy.on_trade_executed(&signals[2], units(110.0), units(2.0));
    let status = strategy.get_status();
    assert_eq!(status.total_trades, 1);
    assert_eq!(status.filled_levels, 1);
    assert_eq!(status.active_levels, 2);
    assert_eq!(status.total_levels, 3);
    // 1% of 110 on 2 units
    assert_eq!(status.total_profit, units(2.2));
    strategy.on_trade_executed(&signals[0], units(90.0), units(1.0));
    assert_eq!(strategy.get_status().total_profit, units(2.2));
    assert_eq!(strategy.get_status().filled_levels, 2);
}

#[test]
fn fine_ladder_ratios_agree_within_1e12() {
    let mut strategy = create_strategy(&config(3, RangeMode::Manual));
    strategy.generate_signals(&market(100.0, 0), &[], 0);
    let fine: Vec<u128> = strategy.grid_levels.iter().map(|l| l.fine_price).collect();
    assert_eq!(fine[0], 90 * 1_000_000_000_000_000_000);
    // cross-multiplied: fine[2] * fine[0] against fine[1]^2
    let lhs = fine[2] as f64 * fine[0] as f64;
    let rhs = fine[1] as f64 * fine[1] as f64;
    assert!((lhs / rhs - 1.0).abs() < 1e-12);
    let top = fine[2] as f64 / 1e18;
    assert!((top - 110.0).abs() / 110.0 < 1e-12);
    // orders are placed at the rung rounded to a billionth
    assert_eq!(strategy.grid_levels[1].price, 99_498_743_711);
}
