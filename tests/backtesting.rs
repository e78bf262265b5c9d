use hyperliquid_bot::backtesting::{run_backtest, run_backtest_checked, BacktestError, PriceSample};
use hyperliquid_bot::config::{
    AccountConfig, AutoPositionSizingConfig, AutoPriceRangeConfig, BotConfig, ExchangeConfig,
    GridConfig, GridSpacingStrategy, LogLevel, ManualPositionSizingConfig, ManualPriceRangeConfig,
    MonitoringConfig, PositionSizingConfig, PositionSizingMode, PriceRangeConfig, RangeMode,
    RebalanceConfig, RiskLevel, RiskManagementConfig,
};
use hyperliquid_bot::interfaces::OrderSide;

const UNIT: f64 = 1_000_000_000.0;

fn units(x: f64) -> u64 {
    (x * UNIT).round() as u64
}

fn as_whole(x: u64) -> f64 {
    x as f64 / UNIT
}

fn sample_config() -> BotConfig {
    BotConfig {
        name: "Backtest Bot".to_string(),
        active: true,
        exchange: ExchangeConfig { exchange_type: "hyperliquid".to_string(), testnet: true },
        account: AccountConfig { max_allocation_pct: units(20.0), risk_level: RiskLevel::Moderate },
        grid: GridConfig {
            symbol: "BTC".to_string(),
            levels: 3,
            price_range: PriceRangeConfig {
                mode: RangeMode::Manual,
                auto: AutoPriceRangeConfig {
                    range_pct: units(10.0),
                    volatility_adjustment: true,
                    min_range_pct: units(5.0),
                    max_range_pct: units(25.0),
                    volatility_multiplier: units(2.0),
                },
                manual: ManualPriceRangeConfig { min: units(90.0), max: units(110.0) },
            },
            position_sizing: PositionSizingConfig {
                mode: PositionSizingMode::Manual,
                auto: AutoPositionSizingConfig {
                    balance_reserve_pct: units(50.0),
                    max_single_position_pct: units(10.0),
                    grid_spacing_strategy: GridSpacingStrategy::Percentage,
                    volatility_position_adjustment: true,
                    min_position_size_usd: units(10.0),
                },
                manual: ManualPositionSizingConfig { size_per_level: units(1000.0) },
            },
        },
        risk_management: RiskManagementConfig {
            max_drawdown_pct: units(15.0),
            max_position_size_pct: units(30.0),
            stop_loss_enabled: false,
            stop_loss_pct: units(5.0),
            take_profit_enabled: false,
            take_profit_pct: units(20.0),
            rebalance: RebalanceConfig {
                price_move_threshold_pct: units(12.0),
                time_based: false,
                cooldown_minutes: 30,
                max_rebalances_per_day: 10,
            },
        },
        monitoring: MonitoringConfig { log_level: LogLevel::Info },
        loaded_at: None,
    }
}

fn build_series(prices: &[f64]) -> Vec<PriceSample> {
    let minute: i64 = 60_000_000_000;
    prices
        .iter()
        .enumerate()
        .map(|(index, price)| PriceSample::new(index as i64 * minute, units(*price)))
        .collect()
}

#[test]
fn grid_strategy_realizes_partial_cycle_profit() {
    let config = sample_config();
    let series = build_series(&[100.0, 95.0, 90.0, 100.0, 110.0]);
    let result = run_backtest(&config, units(5000.0), &series).expect("backtest success");
    assert_eq!(result.trades.len(), 3);
    assert!((as_whole(result.final_value) - 5327.763819007356).abs() < 1e-6);
    assert!((as_whole(result.cash) - 4000.0).abs() < 1e-6);
    assert!((as_whole(result.position) - 12.070580172794143).abs() < 1e-6);
}

#[test]
fn grid_strategy_respects_cash_constraints() {
    let config = sample_config();
    let series = build_series(&[100.0, 95.0, 90.0, 100.0, 110.0]);
    let result = run_backtest(&config, units(1000.0), &series).expect("backtest success");
    assert_eq!(result.trades.len(), 2);
    assert!((as_whole(result.final_value) - 1105.5415967851334).abs() < 1e-6);
    assert!((as_whole(result.cash) - 1000.0).abs() < 1e-6);
    assert!((as_whole(result.position) - 0.9594690616830306).abs() < 1e-6);
}

#[test]
fn fills_happen_at_order_price_not_sample_price() {
    let config = sample_config();
    let series = build_series(&[100.0, 95.0]);
    let result = run_backtest(&config, units(5000.0), &series).expect("backtest success");
    assert_eq!(result.trades.len(), 1);
    let trade = result.trades[0];
    assert_eq!(trade.side, OrderSide::Buy);
    assert!((as_whole(trade.price) - 99.498743710662).abs() < 1e-6);
    assert_eq!(trade.timestamp, 60_000_000_000);
}

#[test]
fn limit_orders_never_fill_on_the_tick_that_placed_them() {
    let config = sample_config();
    let series = build_series(&[100.0]);
    let result = run_backtest(&config, units(5000.0), &series).expect("backtest success");
    assert!(result.trades.is_empty());
    assert_eq!(result.cash, units(5000.0));
    assert_eq!(result.final_value, units(5000.0));
}

#[test]
fn cancel_all_clears_resting_orders() {
    let mut config = sample_config();
    config.grid.price_range.mode = RangeMode::Auto;
    // 100 places buys near 90 and 99.5; 130 moves 30% and re-centers the grid,
    // so at 95 only the orders of the new grid (all above 110) may fill.
    let series = build_series(&[100.0, 130.0, 95.0, 95.0]);
    let result = run_backtest(&config, units(100000.0), &series).expect("backtest success");
    assert!(!result.trades.is_empty());
    for trade in &result.trades {
        assert!(as_whole(trade.price) > 110.0);
    }
}

#[test]
fn final_value_is_cash_plus_marked_position() {
    let config = sample_config();
    let series = build_series(&[100.0, 95.0, 90.0, 100.0, 104.0]);
    let result = run_backtest(&config, units(5000.0), &series).expect("backtest success");
    let expected = result.cash as u128 + (result.position as u128 * units(104.0) as u128) / 1_000_000_000;
    assert_eq!(result.final_value as u128, expected);
}

#[test]
fn backtests_are_reproducible() {
    let config = sample_config();
    let series = build_series(&[100.0, 95.0, 90.0, 100.0, 110.0, 130.0, 90.0]);
    let a = run_backtest(&config, units(5000.0), &series).expect("backtest success");
    let b = run_backtest(&config, units(5000.0), &series).expect("backtest success");
    assert_eq!(a.final_value, b.final_value);
    assert_eq!(a.cash, b.cash);
    assert_eq!(a.position, b.position);
    assert_eq!(a.trades, b.trades);
}

#[test]
fn empty_series_is_rejected() {
    let config = sample_config();
    let result = run_backtest(&config, units(5000.0), &[]);
    assert_eq!(result.err(), Some(BacktestError::NoSamples));
}

#[test]
fn samples_before_epoch_are_rejected() {
    let config = sample_config();
    let series = vec![PriceSample::new(0, units(100.0)), PriceSample::new(-5, units(100.0))];
    let result = run_backtest(&config, units(5000.0), &series);
    assert_eq!(result.err(), Some(BacktestError::NegativeTimestamp { index: 1 }));
}

#[test]
fn oversized_book_reports_overflow() {
    let config = sample_config();
    let series = build_series(&[100.0, 95.0, 130.0]);
    let result = run_backtest(&config, u64::MAX, &series);
    assert_eq!(result.err(), Some(BacktestError::Overflow));
}

#[test]
fn checked_backtest_rejects_bad_inputs() {
    let mut config = sample_config();
    let series = build_series(&[100.0, 95.0]);
    let ok = run_backtest_checked(&config, units(5000.0), &series).expect("valid inputs");
    assert_eq!(ok.trades.len(), 1);
    let zero = vec![PriceSample::new(0, units(100.0)), PriceSample::new(1, 0)];
    assert_eq!(run_backtest_checked(&config, units(5000.0), &zero).err(), Some(BacktestError::NonPositivePrice { index: 1 }));
    config.grid.levels = 2;
    assert_eq!(run_backtest_checked(&config, units(5000.0), &series).err(), Some(BacktestError::InvalidConfig));
}
