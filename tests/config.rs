use hyperliquid_bot::config::{
    AccountConfig, AutoPositionSizingConfig, AutoPriceRangeConfig, BotConfig, ConfigError,
    ExchangeConfig, GridConfig, GridSpacingStrategy, LogLevel, ManualPositionSizingConfig,
    ManualPriceRangeConfig, MonitoringConfig, PositionSizingConfig, PositionSizingMode,
    PriceRangeConfig, RangeMode, RebalanceConfig, RiskLevel, RiskManagementConfig,
};

const UNIT: f64 = 1_000_000_000.0;

fn units(x: f64) -> u64 {
    (x * UNIT).round() as u64
}

fn test_bot() -> BotConfig {
    BotConfig {
        name: "Test Bot".to_string(),
        active: true,
        exchange: ExchangeConfig { exchange_type: "hyperliquid".to_string(), testnet: true },
        account: AccountConfig { max_allocation_pct: units(15.0), risk_level: RiskLevel::Conservative },
        grid: GridConfig {
            symbol: "BTC".to_string(),
            levels: 12,
            price_range: PriceRangeConfig {
                mode: RangeMode::Auto,
                auto: AutoPriceRangeConfig {
                    range_pct: units(10.0),
                    volatility_adjustment: true,
                    min_range_pct: units(5.0),
                    max_range_pct: units(25.0),
                    volatility_multiplier: units(2.0),
                },
                manual: ManualPriceRangeConfig { min: units(90_000.0), max: units(120_000.0) },
            },
            position_sizing: PositionSizingConfig {
                mode: PositionSizingMode::Auto,
                auto: AutoPositionSizingConfig {
                    balance_reserve_pct: units(50.0),
                    max_single_position_pct: units(10.0),
                    grid_spacing_strategy: GridSpacingStrategy::Percentage,
                    volatility_position_adjustment: true,
                    min_position_size_usd: units(10.0),
                },
                manual: ManualPositionSizingConfig { size_per_level: units(0.0001) },
            },
        },
        risk_management: RiskManagementConfig {
            max_drawdown_pct: units(20.0),
            max_position_size_pct: units(30.0),
            stop_loss_enabled: false,
            stop_loss_pct: units(5.0),
            take_profit_enabled: false,
            take_profit_pct: units(20.0),
            rebalance: RebalanceConfig {
                price_move_threshold_pct: units(15.0),
                time_based: false,
                cooldown_minutes: 30,
                max_rebalances_per_day: 10,
            },
        },
        monitoring: MonitoringConfig { log_level: LogLevel::Info },
        loaded_at: None,
    }
}

fn invalid_message(result: Result<(), ConfigError>) -> String {
    match result {
        Err(ConfigError::Invalid(message)) => message,
        other => panic!("expected an invalid configuration, got {:?}", other),
    }
}

#[test]
fn loads_config_from_yaml() {
    let config = test_bot();
    assert!(config.validate().is_ok());
    assert_eq!(config.name, "Test Bot");
    assert!(config.active);
    assert_eq!(config.account.max_allocation_pct, units(15.0));
    assert_eq!(config.grid.levels, 12);
}

#[test]
fn rejects_invalid_allocation() {
    let mut config = test_bot();
    config.account.max_allocation_pct = units(0.5);
    assert!(matches!(config.validate(), Err(ConfigError::Invalid(_))));
}

#[test]
fn rejects_invalid_manual_range() {
    let mut config = test_bot();
    config.grid.levels = 10;
    config.grid.price_range.mode = RangeMode::Manual;
    config.grid.price_range.manual = ManualPriceRangeConfig { min: units(120_000.0), max: units(110_000.0) };
    let message = invalid_message(config.validate());
    assert!(message.contains("manual min"));
}

#[test]
fn log_level_display_matches_env_strings() {
    assert_eq!(LogLevel::Debug.as_str(), "debug");
    assert_eq!(LogLevel::Info.as_str(), "info");
    assert_eq!(LogLevel::Warning.as_str(), "warn");
    assert_eq!(LogLevel::Error.as_str(), "error");
    assert_eq!(LogLevel::Info.as_str().to_string(), "info");
}

#[test]
fn rejects_blank_name() {
    let mut config = test_bot();
    config.name = "   ".to_string();
    assert_eq!(invalid_message(config.validate()), "name must be provided");
}

#[test]
fn rejects_blank_exchange_type() {
    let mut config = test_bot();
    config.exchange.exchange_type = " \t".to_string();
    assert_eq!(invalid_message(config.validate()), "exchange type must be provided");
}

#[test]
fn grid_levels_must_be_between_three_and_fifty() {
    let mut config = test_bot();
    config.grid.levels = 2;
    assert_eq!(invalid_message(config.validate()), "levels must be between 3 and 50");
    config.grid.levels = 51;
    assert!(config.validate().is_err());
    config.grid.levels = 50;
    assert!(config.validate().is_ok());
    config.grid.levels = 3;
    assert!(config.validate().is_ok());
}

#[test]
fn auto_range_must_lie_between_its_bounds() {
    let mut config = test_bot();
    config.grid.price_range.auto.range_pct = units(30.0);
    assert_eq!(
        invalid_message(config.validate()),
        "range_pct must fall between min_range_pct and max_range_pct"
    );
    config.grid.price_range.auto.range_pct = units(50.5);
    assert_eq!(invalid_message(config.validate()), "range_pct must be within 1 and 50");
}

#[test]
fn stop_loss_range_is_checked_only_when_enabled() {
    let mut config = test_bot();
    config.risk_management.stop_loss_pct = units(40.0);
    assert!(config.validate().is_ok());
    config.risk_management.stop_loss_enabled = true;
    assert_eq!(invalid_message(config.validate()), "stop_loss_pct must be between 1 and 20");
}

#[test]
fn rebalance_needs_positive_cooldown() {
    let mut config = test_bot();
    config.risk_management.rebalance.cooldown_minutes = 0;
    assert_eq!(invalid_message(config.validate()), "cooldown_minutes must be at least 1");
}

#[test]
fn manual_size_must_be_positive() {
    let mut config = test_bot();
    config.grid.position_sizing.manual.size_per_level = 0;
    assert_eq!(invalid_message(config.validate()), "size_per_level must be positive");
}

#[test]
fn monitoring_accepts_every_level() {
    for level in [LogLevel::Debug, LogLevel::Info, LogLevel::Warning, LogLevel::Error] {
        assert!(MonitoringConfig { log_level: level }.validate().is_ok());
    }
}
