//! Bot configuration: the tree of settings and its validation rules.
//!
//! Percentages and amounts are fixed-point values in billionths (see
//! [`crate::units::UNIT`]): `12.5%` is `12_500_000_000`.
use vstd::prelude::*;
use crate::units::UNIT;

verus! {

/// Why a configuration could not be used.
#[derive(Debug)]
pub enum ConfigError {
    Missing,
    Read(String),
    Parse(String),
    Invalid(String),
}

#[derive(Clone, Copy, Debug, PartialEq, Eq, Structural)]
pub enum RiskLevel {
    Conservative,
    Moderate,
    Aggressive,
}

#[derive(Clone, Copy, Debug, PartialEq, Eq, Structural)]
pub enum RangeMode {
    Auto,
    Manual,
}

#[derive(Clone, Copy, Debug, PartialEq, Eq, Structural)]
pub enum PositionSizingMode {
    Auto,
    Manual,
}

#[derive(Clone, Copy, Debug, PartialEq, Eq, Structural)]
pub enum GridSpacingStrategy {
    Percentage,
    Fixed,
}

#[derive(Clone, Copy, Debug, PartialEq, Eq, Structural)]
pub enum LogLevel {
    Debug,
    Info,
    Warning,
    Error,
}

/// `lo <= x <= hi` for whole-unit bounds `lo` and `hi`.
pub open spec fn within_units(x: u64, lo: int, hi: int) -> bool {
    lo * (UNIT as int) <= x as int <= hi * (UNIT as int)
}

fn in_units(x: u64, lo: u64, hi: u64) -> (b: bool)
    requires
        lo <= hi <= 100,
    ensures
        b == within_units(x, lo as int, hi as int),
{
    lo * UNIT <= x && x <= hi * UNIT
}

fn invalid(msg: &str) -> (e: ConfigError)
    ensures
        e matches ConfigError::Invalid(m) && m@ == msg@,
{
    ConfigError::Invalid(String::from_str(msg))
}

#[derive(Clone, Copy, Debug)]
pub struct AccountConfig {
    pub max_allocation_pct: u64,
    pub risk_level: RiskLevel,
}

impl AccountConfig {
    pub open spec fn valid(&self) -> bool {
        within_units(self.max_allocation_pct, 1, 100)
    }

    pub fn validate(&self) -> (r: Result<(), ConfigError>)
        ensures
            r is Ok <==> self.valid(),
            r is Err ==> r->Err_0 is Invalid,
    {
        if !in_units(self.max_allocation_pct, 1, 100) {
            return Err(invalid("max_allocation_pct must be between 1 and 100"));
        }
        Ok(())
    }
}

#[derive(Clone, Copy, Debug)]
pub struct AutoPriceRangeConfig {
    pub range_pct: u64,
    pub volatility_adjustment: bool,
    pub min_range_pct: u64,
    pub max_range_pct: u64,
    pub volatility_multiplier: u64,
}

impl AutoPriceRangeConfig {
    pub open spec fn valid(&self) -> bool {
        &&& within_units(self.range_pct, 1, 50)
        &&& within_units(self.min_range_pct, 1, 50)
        &&& within_units(self.max_range_pct, 1, 50)
        &&& self.min_range_pct <= self.max_range_pct
        &&& self.min_range_pct <= self.range_pct <= self.max_range_pct
    }

    pub fn validate(&self) -> (r: Result<(), ConfigError>)
        ensures
            r is Ok <==> self.valid(),
            r is Err ==> r->Err_0 is Invalid,
    {
        if !in_units(self.range_pct, 1, 50) {
            return Err(invalid("range_pct must be within 1 and 50"));
        }
        if !in_units(self.min_range_pct, 1, 50) {
            return Err(invalid("min_range_pct must be within 1 and 50"));
        }
        if !in_units(self.max_range_pct, 1, 50) {
            return Err(invalid("max_range_pct must be within 1 and 50"));
        }
        if self.min_range_pct > self.max_range_pct {
            return Err(invalid("min_range_pct must not exceed max_range_pct"));
        }
        if self.range_pct < self.min_range_pct || self.range_pct > self.max_range_pct {
            return Err(invalid("range_pct must fall between min_range_pct and max_range_pct"));
        }
        Ok(())
    }
}

#[derive(Clone, Copy, Debug)]
pub struct ManualPriceRangeConfig {
    pub min: u64,
    pub max: u64,
}

impl ManualPriceRangeConfig {
    pub open spec fn valid(&self) -> bool {
        0 < self.min < self.max
    }

    pub fn validate(&self) -> (r: Result<(), ConfigError>)
        ensures
            r is Ok <==> self.valid(),
            r is Err ==> r->Err_0 is Invalid,
            self.min > 0 && self.max > 0 && self.min >= self.max ==> (r matches Err(ConfigError::Invalid(m))
                && m@ == "manual min must be less than max"@),
    {
        if self.min == 0 || self.max == 0 {
            return Err(invalid("manual price bounds must be positive"));
        }
        if self.min >= self.max {
            return Err(invalid("manual min must be less than max"));
        }
        Ok(())
    }
}

#[derive(Clone, Copy, Debug)]
pub struct PriceRangeConfig {
    pub mode: RangeMode,
    pub auto: AutoPriceRangeConfig,
    pub manual: ManualPriceRangeConfig,
}

impl PriceRangeConfig {
    pub open spec fn valid(&self) -> bool {
        self.auto.valid() && self.manual.valid()
    }

    pub fn validate(&self) -> (r: Result<(), ConfigError>)
        ensures
            r is Ok <==> self.valid(),
            r is Err ==> r->Err_0 is Invalid,
    {
        self.auto.validate()?;
        self.manual.validate()?;
        Ok(())
    }
}

#[derive(Clone, Copy, Debug)]
pub struct AutoPositionSizingConfig {
    pub balance_reserve_pct: u64,
    pub max_single_position_pct: u64,
    pub grid_spacing_strategy: GridSpacingStrategy,
    pub volatility_position_adjustment: bool,
    pub min_position_size_usd: u64,
}

impl AutoPositionSizingConfig {
    pub open spec fn valid(&self) -> bool {
        &&& within_units(self.balance_reserve_pct, 10, 90)
        &&& within_units(self.max_single_position_pct, 1, 50)
        &&& self.min_position_size_usd > 0
    }

    pub fn validate(&self) -> (r: Result<(), ConfigError>)
        ensures
            r is Ok <==> self.valid(),
            r is Err ==> r->Err_0 is Invalid,
    {
        if !in_units(self.balance_reserve_pct, 10, 90) {
            return Err(invalid("balance_reserve_pct must be between 10 and 90"));
        }
        if !in_units(self.max_single_position_pct, 1, 50) {
            return Err(invalid("max_single_position_pct must be between 1 and 50"));
        }
        if self.min_position_size_usd == 0 {
            return Err(invalid("min_position_size_usd must be positive"));
        }
        Ok(())
    }
}

#[derive(Clone, Copy, Debug)]
pub struct ManualPositionSizingConfig {
    pub size_per_level: u64,
}

impl ManualPositionSizingConfig {
    pub open spec fn valid(&self) -> bool {
        self.size_per_level > 0
    }

    pub fn validate(&self) -> (r: Result<(), ConfigError>)
        ensures
            r is Ok <==> self.valid(),
            r is Err ==> r->Err_0 is Invalid,
    {
        if self.size_per_level == 0 {
            return Err(invalid("size_per_level must be positive"));
        }
        Ok(())
    }
}

#[derive(Clone, Copy, Debug)]
pub struct PositionSizingConfig {
    pub mode: PositionSizingMode,
    pub auto: AutoPositionSizingConfig,
    pub manual: ManualPositionSizingConfig,
}

impl PositionSizingConfig {
    pub open spec fn valid(&self) -> bool {
        self.auto.valid() && self.manual.valid()
    }

    pub fn validate(&self) -> (r: Result<(), ConfigError>)
        ensures
            r is Ok <==> self.valid(),
            r is Err ==> r->Err_0 is Invalid,
    {
        self.auto.validate()?;
        self.manual.validate()?;
        Ok(())
    }
}

#[derive(Clone, Debug)]
pub struct GridConfig {
    pub symbol: String,
    pub levels: u32,
    pub price_range: PriceRangeConfig,
    pub position_sizing: PositionSizingConfig,
}

impl GridConfig {
    pub open spec fn valid(&self) -> bool {
        &&& self.symbol@.len() > 0
        &&& 3 <= self.levels <= 50
        &&& self.price_range.valid()
        &&& self.position_sizing.valid()
    }

    pub fn validate(&self) -> (r: Result<(), ConfigError>)
        ensures
            r is Ok <==> self.valid(),
            r is Err ==> r->Err_0 is Invalid,
    {
        if self.symbol.as_str().is_empty() {
            return Err(invalid("symbol must be provided"));
        }
        if self.levels < 3 || self.levels > 50 {
            return Err(invalid("levels must be between 3 and 50"));
        }
        self.price_range.validate()?;
        self.position_sizing.validate()?;
        Ok(())
    }
}

#[derive(Clone, Copy, Debug)]
pub struct RebalanceConfig {
    pub price_move_threshold_pct: u64,
    pub time_based: bool,
    pub cooldown_minutes: u32,
    pub max_rebalances_per_day: u32,
}

impl RebalanceConfig {
    pub open spec fn valid(&self) -> bool {
        &&& within_units(self.price_move_threshold_pct, 5, 50)
        &&& self.cooldown_minutes >= 1
        &&& self.max_rebalances_per_day >= 1
    }

    pub fn validate(&self) -> (r: Result<(), ConfigError>)
        ensures
            r is Ok <==> self.valid(),
            r is Err ==> r->Err_0 is Invalid,
    {
        if !in_units(self.price_move_threshold_pct, 5, 50) {
            return Err(invalid("price_move_threshold_pct must be between 5 and 50"));
        }
        if self.cooldown_minutes < 1 {
            return Err(invalid("cooldown_minutes must be at least 1"));
        }
        if self.max_rebalances_per_day < 1 {
            return Err(invalid("max_rebalances_per_day must be at least 1"));
        }
        Ok(())
    }
}

#[derive(Clone, Copy, Debug)]
pub struct RiskManagementConfig {
    pub max_drawdown_pct: u64,
    pub max_position_size_pct: u64,
    pub stop_loss_enabled: bool,
    pub stop_loss_pct: u64,
    pub take_profit_enabled: bool,
    pub take_profit_pct: u64,
    pub rebalance: RebalanceConfig,
}

impl RiskManagementConfig {
    pub open spec fn valid(&self) -> bool {
        &&& within_units(self.max_drawdown_pct, 5, 50)
        &&& within_units(self.max_position_size_pct, 10, 100)
        &&& self.stop_loss_enabled ==> within_units(self.stop_loss_pct, 1, 20)
        &&& self.take_profit_enabled ==> within_units(self.take_profit_pct, 5, 100)
        &&& self.rebalance.valid()
    }

    pub fn validate(&self) -> (r: Result<(), ConfigError>)
        ensures
            r is Ok <==> self.valid(),
            r is Err ==> r->Err_0 is Invalid,
    {
        if !in_units(self.max_drawdown_pct, 5, 50) {
            return Err(invalid("max_drawdown_pct must be between 5 and 50"));
        }
        if !in_units(self.max_position_size_pct, 10, 100) {
            return Err(invalid("max_position_size_pct must be between 10 and 100"));
        }
        if self.stop_loss_enabled && !in_units(self.stop_loss_pct, 1, 20) {
            return Err(invalid("stop_loss_pct must be between 1 and 20"));
        }
        if self.take_profit_enabled && !in_units(self.take_profit_pct, 5, 100) {
            return Err(invalid("take_profit_pct must be between 5 and 100"));
        }
        self.rebalance.validate()?;
        Ok(())
    }
}

impl LogLevel {
    /// The level's name as logging filters spell it.
    pub fn as_str(&self) -> (s: &'static str)
        ensures
            s@ == log_level_name(*self),
    {
        match self {
            LogLevel::Debug => "debug",
            LogLevel::Info => "info",
            LogLevel::Warning => "warn",
            LogLevel::Error => "error",
        }
    }
}

pub open spec fn log_level_name(l: LogLevel) -> Seq<char> {
    match l {
        LogLevel::Debug => "debug"@,
        LogLevel::Info => "info"@,
        LogLevel::Warning => "warn"@,
        LogLevel::Error => "error"@,
    }
}

#[derive(Clone, Copy, Debug)]
pub struct MonitoringConfig {
    pub log_level: LogLevel,
}

impl MonitoringConfig {
    /// Every log level is acceptable.
    pub fn validate(&self) -> (r: Result<(), ConfigError>)
        ensures
            r is Ok,
    {
        match self.log_level {
            LogLevel::Debug | LogLevel::Info | LogLevel::Warning | LogLevel::Error => Ok(()),
        }
    }
}

/// The text that remains of `s` once leading and trailing white space is removed.
pub uninterp spec fn trimmed(s: Seq<char>) -> Seq<char>;

/// Relies on `str::trim`: the result depends on the characters alone.
#[verifier::external_body]
pub(crate) fn trim_str(s: &str) -> (r: &str)
    ensures
        r@ == trimmed(s@),
{
    s.trim()
}

/// `s` holds something besides white space.
pub(crate) fn has_text(s: &String) -> (b: bool)
    ensures
        b == (trimmed(s@).len() > 0),
{
    !trim_str(s.as_str()).is_empty()
}

#[derive(Clone, Debug)]
pub struct ExchangeConfig {
    pub exchange_type: String,
    pub testnet: bool,
}

impl ExchangeConfig {
    pub open spec fn valid(&self) -> bool {
        trimmed(self.exchange_type@).len() > 0
    }

    pub fn validate(&self) -> (r: Result<(), ConfigError>)
        ensures
            r is Ok <==> self.valid(),
            r is Err ==> r->Err_0 is Invalid,
    {
        if !has_text(&self.exchange_type) {
            return Err(invalid("exchange type must be provided"));
        }
        Ok(())
    }
}

#[derive(Clone, Debug)]
pub struct BotConfig {
    pub name: String,
    pub active: bool,
    pub exchange: ExchangeConfig,
    pub account: AccountConfig,
    pub grid: GridConfig,
    pub risk_management: RiskManagementConfig,
    pub monitoring: MonitoringConfig,
    /// When the configuration was loaded, in nanoseconds since the epoch.
    pub loaded_at: Option<i64>,
}

impl BotConfig {
    pub open spec fn valid(&self) -> bool {
        &&& trimmed(self.name@).len() > 0
        &&& self.exchange.valid()
        &&& self.account.valid()
        &&& self.grid.valid()
        &&& self.risk_management.valid()
    }

    pub fn validate(&self) -> (r: Result<(), ConfigError>)
        ensures
            r is Ok <==> self.valid(),
            r is Err ==> r->Err_0 is Invalid,
    {
        if !has_text(&self.name) {
            return Err(invalid("name must be provided"));
        }
        self.exchange.validate()?;
        self.account.validate()?;
        self.grid.validate()?;
        self.risk_management.validate()?;
        self.monitoring.validate()?;
        Ok(())
    }
}


pub fn default_true() -> (b: bool)
    ensures
        b,
{
    true
}

pub fn default_auto_min_range_pct() -> (v: u64)
    ensures
        v == 5 * UNIT,
{
    5 * UNIT
}

pub fn default_auto_max_range_pct() -> (v: u64)
    ensures
        v == 25 * UNIT,
{
    25 * UNIT
}

pub fn default_volatility_multiplier() -> (v: u64)
    ensures
        v == 2 * UNIT,
{
    2 * UNIT
}

pub fn default_balance_reserve_pct() -> (v: u64)
    ensures
        v == 50 * UNIT,
{
    50 * UNIT
}

pub fn default_max_single_position_pct() -> (v: u64)
    ensures
        v == 10 * UNIT,
{
    10 * UNIT
}

pub fn default_min_position_size_usd() -> (v: u64)
    ensures
        v == 10 * UNIT,
{
    10 * UNIT
}

pub fn default_grid_spacing_strategy() -> (g: GridSpacingStrategy)
    ensures
        g == GridSpacingStrategy::Percentage,
{
    GridSpacingStrategy::Percentage
}

/// One ten-thousandth of a unit.
pub fn default_manual_size_per_level() -> (v: u64)
    ensures
        v == UNIT / 10_000,
{
    UNIT / 10_000
}

pub fn default_rebalance_threshold() -> (v: u64)
    ensures
        v == 15 * UNIT,
{
    15 * UNIT
}

pub fn default_rebalance_cooldown() -> (m: u32)
    ensures
        m == 30,
{
    30
}

pub fn default_max_rebalances_per_day() -> (n: u32)
    ensures
        n == 10,
{
    10
}

pub fn default_max_drawdown_pct() -> (v: u64)
    ensures
        v == 15 * UNIT,
{
    15 * UNIT
}

pub fn default_max_position_size_pct() -> (v: u64)
    ensures
        v == 30 * UNIT,
{
    30 * UNIT
}

pub fn default_stop_loss_pct() -> (v: u64)
    ensures
        v == 5 * UNIT,
{
    5 * UNIT
}

pub fn default_take_profit_pct() -> (v: u64)
    ensures
        v == 20 * UNIT,
{
    20 * UNIT
}

pub fn default_log_level() -> (l: LogLevel)
    ensures
        l == LogLevel::Info,
{
    LogLevel::Info
}

impl Default for RiskLevel {
    fn default() -> (r: Self)
        ensures
            r == RiskLevel::Moderate,
    {
        RiskLevel::Moderate
    }
}

impl Default for RangeMode {
    fn default() -> (r: Self)
        ensures
            r == RangeMode::Auto,
    {
        RangeMode::Auto
    }
}

impl Default for PositionSizingMode {
    fn default() -> (r: Self)
        ensures
            r == PositionSizingMode::Auto,
    {
        PositionSizingMode::Auto
    }
}

impl Default for AccountConfig {
    fn default() -> (r: Self)
        ensures
            r.max_allocation_pct == 20 * UNIT,
            r.risk_level == RiskLevel::Moderate,
    {
        AccountConfig { max_allocation_pct: 20 * UNIT, risk_level: RiskLevel::Moderate }
    }
}

impl Default for AutoPriceRangeConfig {
    fn default() -> (r: Self)
        ensures
            r.range_pct == 10 * UNIT,
            r.volatility_adjustment,
            r.min_range_pct == 5 * UNIT,
            r.max_range_pct == 25 * UNIT,
            r.volatility_multiplier == 2 * UNIT,
            r.valid(),
    {
        AutoPriceRangeConfig {
            range_pct: 10 * UNIT,
            volatility_adjustment: true,
            min_range_pct: default_auto_min_range_pct(),
            max_range_pct: default_auto_max_range_pct(),
            volatility_multiplier: default_volatility_multiplier(),
        }
    }
}

impl Default for ManualPriceRangeConfig {
    fn default() -> (r: Self)
        ensures
            r.min == 90_000 * UNIT,
            r.max == 120_000 * UNIT,
            r.valid(),
    {
        ManualPriceRangeConfig { min: 90_000 * UNIT, max: 120_000 * UNIT }
    }
}

impl Default for PriceRangeConfig {
    fn default() -> (r: Self)
        ensures
            r.mode == RangeMode::Auto,
            r.valid(),
    {
        PriceRangeConfig {
            mode: RangeMode::Auto,
            auto: AutoPriceRangeConfig::default(),
            manual: ManualPriceRangeConfig::default(),
        }
    }
}

impl Default for AutoPositionSizingConfig {
    fn default() -> (r: Self)
        ensures
            r.balance_reserve_pct == 50 * UNIT,
            r.max_single_position_pct == 10 * UNIT,
            r.grid_spacing_strategy == GridSpacingStrategy::Percentage,
            r.volatility_position_adjustment,
            r.min_position_size_usd == 10 * UNIT,
            r.valid(),
    {
        AutoPositionSizingConfig {
            balance_reserve_pct: default_balance_reserve_pct(),
            max_single_position_pct: default_max_single_position_pct(),
            grid_spacing_strategy: default_grid_spacing_strategy(),
            volatility_position_adjustment: true,
            min_position_size_usd: default_min_position_size_usd(),
        }
    }
}

impl Default for ManualPositionSizingConfig {
    fn default() -> (r: Self)
        ensures
            r.size_per_level == UNIT / 10_000,
            r.valid(),
    {
        ManualPositionSizingConfig { size_per_level: default_manual_size_per_level() }
    }
}

impl Default for PositionSizingConfig {
    fn default() -> (r: Self)
        ensures
            r.mode == PositionSizingMode::Auto,
            r.valid(),
    {
        PositionSizingConfig {
            mode: PositionSizingMode::Auto,
            auto: AutoPositionSizingConfig::default(),
            manual: ManualPositionSizingConfig::default(),
        }
    }
}

impl Default for GridConfig {
    fn default() -> (r: Self)
        ensures
            r.symbol@ == "BTC"@,
            r.levels == 15,
            r.valid(),
    {
        proof {
            reveal_strlit("BTC");
        }
        GridConfig {
            symbol: String::from_str("BTC"),
            levels: 15,
            price_range: PriceRangeConfig::default(),
            position_sizing: PositionSizingConfig::default(),
        }
    }
}

impl Default for RebalanceConfig {
    fn default() -> (r: Self)
        ensures
            r.price_move_threshold_pct == 15 * UNIT,
            !r.time_based,
            r.cooldown_minutes == 30,
            r.max_rebalances_per_day == 10,
            r.valid(),
    {
        RebalanceConfig {
            price_move_threshold_pct: default_rebalance_threshold(),
            time_based: false,
            cooldown_minutes: default_rebalance_cooldown(),
            max_rebalances_per_day: default_max_rebalances_per_day(),
        }
    }
}

impl Default for RiskManagementConfig {
    fn default() -> (r: Self)
        ensures
            r.max_drawdown_pct == 15 * UNIT,
            r.max_position_size_pct == 30 * UNIT,
            !r.stop_loss_enabled,
            r.stop_loss_pct == 5 * UNIT,
            !r.take_profit_enabled,
            r.take_profit_pct == 20 * UNIT,
            r.valid(),
    {
        RiskManagementConfig {
            max_drawdown_pct: default_max_drawdown_pct(),
            max_position_size_pct: default_max_position_size_pct(),
            stop_loss_enabled: false,
            stop_loss_pct: default_stop_loss_pct(),
            take_profit_enabled: false,
            take_profit_pct: default_take_profit_pct(),
            rebalance: RebalanceConfig::default(),
        }
    }
}

impl Default for MonitoringConfig {
    fn default() -> (r: Self)
        ensures
            r.log_level == LogLevel::Info,
    {
        MonitoringConfig { log_level: default_log_level() }
    }
}

impl Default for ExchangeConfig {
    fn default() -> (r: Self)
        ensures
            r.exchange_type@ == "hyperliquid"@,
            r.testnet,
    {
        ExchangeConfig { exchange_type: String::from_str("hyperliquid"), testnet: default_true() }
    }
}

} // verus!
