//! Per-tick risk rules over positions, prices and account metrics.
//!
//! Rule order is fixed: stop-loss, take-profit, drawdown, position size,
//! rebalance. The clock is a monotonic reading in milliseconds supplied by the
//! caller, so evaluation depends on its arguments alone.
use vstd::prelude::*;
use crate::config::{BotConfig, PriceRangeConfig, RangeMode, RiskManagementConfig};
use crate::interfaces::{MarketData, Position};
use crate::text::{amount_string, amount_text};
use crate::units::UNIT;

verus! {

#[derive(Clone, Copy, Debug, PartialEq, Eq, Structural)]
pub enum RiskAction {
    /// No action asked for.
    NoAction,
    ClosePosition,
    ReducePosition,
    CancelOrders,
    PauseTrading,
    EmergencyExit,
}

#[derive(Clone, Copy, Debug, PartialEq, Eq, Structural)]
pub enum Severity {
    Low,
    Medium,
    High,
    Critical,
}

/// The rule that raised an event.
#[derive(Clone, Copy, Debug, PartialEq, Eq, Structural)]
pub enum RiskRule {
    StopLoss,
    TakeProfit,
    Drawdown,
    PositionSize,
    Rebalance,
}

pub open spec fn rule_text(r: RiskRule) -> Seq<char> {
    match r {
        RiskRule::StopLoss => "stop_loss"@,
        RiskRule::TakeProfit => "take_profit"@,
        RiskRule::Drawdown => "drawdown"@,
        RiskRule::PositionSize => "position_size"@,
        RiskRule::Rebalance => "rebalance"@,
    }
}

impl RiskRule {
    pub fn name(&self) -> (s: &'static str)
        ensures
            s@ == rule_text(*self),
    {
        match self {
            RiskRule::StopLoss => "stop_loss",
            RiskRule::TakeProfit => "take_profit",
            RiskRule::Drawdown => "drawdown",
            RiskRule::PositionSize => "position_size",
            RiskRule::Rebalance => "rebalance",
        }
    }
}

/// The figures an event was raised on.
#[derive(Clone, Copy, Debug, PartialEq, Eq, Structural)]
pub enum RiskPayload {
    Position { size: i64, entry_price: u64, current_value: u64, unrealized_pnl: i64 },
    Percent { value: u64 },
    Range { price: u64, lower: u64, upper: u64 },
}

#[derive(Debug)]
pub struct RiskEvent {
    pub rule: RiskRule,
    pub asset: String,
    pub action: RiskAction,
    pub reason: String,
    pub severity: Severity,
    pub metadata: RiskPayload,
    /// Clock reading, in milliseconds, at which the event was raised.
    pub timestamp: u64,
}

/// An event as the rules describe it.
pub struct RiskNotice {
    pub rule: RiskRule,
    pub asset: Seq<char>,
    pub action: RiskAction,
    pub severity: Severity,
    pub reason: Seq<char>,
    pub metadata: RiskPayload,
    pub timestamp: u64,
}

impl RiskEvent {
    pub open spec fn notice(&self) -> RiskNotice {
        RiskNotice {
            rule: self.rule,
            asset: self.asset@,
            action: self.action,
            severity: self.severity,
            reason: self.reason@,
            metadata: self.metadata,
            timestamp: self.timestamp,
        }
    }

    /// Name of the rule that raised the event.
    pub fn rule_name(&self) -> (s: &'static str)
        ensures
            s@ == rule_text(self.rule),
    {
        self.rule.name()
    }
}

pub open spec fn notices_of(events: Seq<RiskEvent>) -> Seq<RiskNotice> {
    events.map_values(|e: RiskEvent| e.notice())
}

/// Account figures, as reported by the exchange or the executor.
#[derive(Clone, Copy, Debug)]
pub struct AccountMetrics {
    /// Signed: a paper account may be overdrawn.
    pub total_value: i64,
    pub total_pnl: i64,
    pub unrealized_pnl: i64,
    pub realized_pnl: i64,
    pub drawdown_pct: u64,
    pub positions_count: usize,
    pub largest_position_pct: u64,
}

impl AccountMetrics {
    pub fn zero() -> (m: Self)
        ensures
            m.total_value == 0 && m.total_pnl == 0 && m.unrealized_pnl == 0 && m.realized_pnl == 0,
            m.drawdown_pct == 0 && m.positions_count == 0 && m.largest_position_pct == 0,
    {
        AccountMetrics {
            total_value: 0,
            total_pnl: 0,
            unrealized_pnl: 0,
            realized_pnl: 0,
            drawdown_pct: 0,
            positions_count: 0,
            largest_position_pct: 0,
        }
    }
}

pub open spec fn abs(x: int) -> int {
    if x < 0 { -x } else { x }
}

/// Cost basis of a position: entry price times absolute size.
pub open spec fn basis(p: Position) -> int {
    p.entry_price as int * abs(p.size as int) / UNIT as int
}

/// Loss or gain of a position in percent of its basis (rounded down).
pub open spec fn pnl_pct(p: Position) -> int {
    abs(p.unrealized_pnl as int) * 100 * UNIT as int / basis(p)
}

pub open spec fn stop_loss_fires(c: RiskManagementConfig, p: Position) -> bool {
    &&& p.entry_price > 0
    &&& p.unrealized_pnl < 0
    &&& basis(p) > 0
    &&& pnl_pct(p) >= c.stop_loss_pct as int
}

pub open spec fn take_profit_fires(c: RiskManagementConfig, p: Position) -> bool {
    &&& p.entry_price > 0
    &&& p.unrealized_pnl > 0
    &&& basis(p) > 0
    &&& pnl_pct(p) >= c.take_profit_pct as int
}

/// `x`, capped at the largest `u64`.
pub open spec fn capped(x: int) -> u64 {
    if x > u64::MAX as int { u64::MAX } else { x as u64 }
}

/// `"<label> <value>% exceeds <limit>%"`, amounts with two decimals.
pub open spec fn exceeds_text(label: Seq<char>, value: u64, limit: u64) -> Seq<char> {
    label + " "@ + amount_text(value) + "% exceeds "@ + amount_text(limit) + "%"@
}

/// `"price <p> outside [<lower>, <upper>] with threshold <t>%"`.
pub open spec fn range_text(price: u64, lower: u64, upper: u64, t: u64) -> Seq<char> {
    "price "@ + amount_text(price) + " outside ["@ + amount_text(lower) + ", "@ + amount_text(upper)
        + "] with threshold "@ + amount_text(t) + "%"@
}

/// The figures of a position an event carries.
pub open spec fn position_payload_of(p: Position) -> RiskPayload {
    RiskPayload::Position {
        size: p.size,
        entry_price: p.entry_price,
        current_value: p.current_value,
        unrealized_pnl: p.unrealized_pnl,
    }
}

pub open spec fn position_notices(rule: RiskRule, c: RiskManagementConfig, ps: Seq<Position>, now: u64) -> Seq<RiskNotice>
    decreases ps.len(),
{
    if ps.len() == 0 {
        Seq::empty()
    } else {
        let prev = position_notices(rule, c, ps.drop_last(), now);
        let p = ps.last();
        let stop = rule == RiskRule::StopLoss;
        let fires = if stop { stop_loss_fires(c, p) } else { take_profit_fires(c, p) };
        if fires {
            prev.push(RiskNotice {
                rule,
                asset: p.asset@,
                action: RiskAction::ClosePosition,
                severity: if stop { Severity::High } else { Severity::Medium },
                reason: exceeds_text(if stop { "loss"@ } else { "profit"@ }, capped(pnl_pct(p)),
                    if stop { c.stop_loss_pct } else { c.take_profit_pct }),
                metadata: position_payload_of(p),
                timestamp: now,
            })
        } else {
            prev
        }
    }
}

pub open spec fn stop_loss_notices(c: RiskManagementConfig, ps: Seq<Position>, now: u64) -> Seq<RiskNotice> {
    if c.stop_loss_enabled { position_notices(RiskRule::StopLoss, c, ps, now) } else { Seq::empty() }
}

pub open spec fn take_profit_notices(c: RiskManagementConfig, ps: Seq<Position>, now: u64) -> Seq<RiskNotice> {
    if c.take_profit_enabled { position_notices(RiskRule::TakeProfit, c, ps, now) } else { Seq::empty() }
}

pub open spec fn drawdown_notices(c: RiskManagementConfig, symbol: Seq<char>, m: AccountMetrics, now: u64) -> Seq<RiskNotice> {
    if m.drawdown_pct >= c.max_drawdown_pct {
        seq![RiskNotice {
            rule: RiskRule::Drawdown,
            asset: symbol,
            action: RiskAction::PauseTrading,
            severity: Severity::Critical,
            reason: exceeds_text("drawdown"@, m.drawdown_pct, c.max_drawdown_pct),
            metadata: RiskPayload::Percent { value: m.drawdown_pct },
            timestamp: now,
        }]
    } else {
        Seq::empty()
    }
}

pub open spec fn position_size_notices(c: RiskManagementConfig, symbol: Seq<char>, m: AccountMetrics, now: u64) -> Seq<RiskNotice> {
    if m.largest_position_pct > c.max_position_size_pct {
        seq![RiskNotice {
            rule: RiskRule::PositionSize,
            asset: symbol,
            action: RiskAction::ReducePosition,
            severity: Severity::High,
            reason: exceeds_text("position"@, m.largest_position_pct, c.max_position_size_pct),
            metadata: RiskPayload::Percent { value: m.largest_position_pct },
            timestamp: now,
        }]
    } else {
        Seq::empty()
    }
}

/// The band the price is held against: around the price in auto mode, the
/// configured bounds in manual mode (`None` when those are unusable).
pub open spec fn rebalance_bounds(r: PriceRangeConfig, price: u64) -> Option<(int, int)> {
    match r.mode {
        RangeMode::Auto => {
            let span = price as int * r.auto.range_pct as int / (100 * UNIT as int);
            Some((price as int - span, price as int + span))
        },
        RangeMode::Manual => if r.manual.min == 0 || r.manual.max <= r.manual.min {
            None
        } else {
            Some((r.manual.min as int, r.manual.max as int))
        },
    }
}

/// `price >= upper * (1 + t/100)` or `price <= lower * (1 - t/100)`.
pub open spec fn beyond_triggers(lower: int, upper: int, t: u64, price: u64) -> bool {
    let hundred = 100 * UNIT as int;
    price as int * hundred >= upper * (hundred + t as int) || price as int * hundred <= lower * (hundred - t as int)
}

/// The rebalance cooldown has passed and the cap is not reached.
pub open spec fn rebalance_allowed(c: RiskManagementConfig, last: Option<u64>, count: u32, now: u64) -> bool {
    &&& last matches Some(t) ==> !(if now >= t { now - t } else { 0 } < c.rebalance.cooldown_minutes as int * 60_000)
    &&& count < c.rebalance.max_rebalances_per_day
}

pub open spec fn rebalance_fires(c: RiskManagementConfig, r: PriceRangeConfig, last: Option<u64>, count: u32, price: u64, now: u64) -> bool {
    &&& rebalance_bounds(r, price) matches Some((lo, hi))
    &&& beyond_triggers(lo, hi, c.rebalance.price_move_threshold_pct, price)
    &&& rebalance_allowed(c, last, count, now)
}

/// The event of a rebalance at the price of `md`.
pub open spec fn rebalance_notice(c: RiskManagementConfig, r: PriceRangeConfig, md: MarketData, now: u64) -> RiskNotice {
    let (lo, hi) = match rebalance_bounds(r, md.price) { Some(b) => b, None => (0, 0) };
    RiskNotice {
        rule: RiskRule::Rebalance,
        asset: md.asset@,
        action: RiskAction::CancelOrders,
        severity: Severity::Medium,
        reason: range_text(md.price, capped(lo), capped(hi), c.rebalance.price_move_threshold_pct),
        metadata: RiskPayload::Range { price: md.price, lower: capped(lo), upper: capped(hi) },
        timestamp: now,
    }
}

pub struct RiskManager {
    pub config: RiskManagementConfig,
    pub grid_symbol: String,
    pub price_range: PriceRangeConfig,
    /// Clock reading of the last rebalance event.
    pub last_rebalance: Option<u64>,
    /// Rebalance events raised so far; never reset.
    pub rebalance_count: u32,
    pub trading_paused: bool,
}

impl RiskManager {
    pub open spec fn wf(&self) -> bool {
        self.config.valid() && self.price_range.valid()
    }

    /// The events an evaluation raises, in rule order.
    pub open spec fn notices(&self, ps: Seq<Position>, md: MarketData, m: AccountMetrics, now: u64) -> Seq<RiskNotice> {
        stop_loss_notices(self.config, ps, now) + take_profit_notices(self.config, ps, now)
            + drawdown_notices(self.config, self.grid_symbol@, m, now)
            + position_size_notices(self.config, self.grid_symbol@, m, now)
            + if rebalance_fires(self.config, self.price_range, self.last_rebalance, self.rebalance_count, md.price, now) {
                seq![rebalance_notice(self.config, self.price_range, md, now)]
            } else {
                Seq::empty()
            }
    }

    pub fn new(config: &BotConfig) -> (m: Self)
        requires
            config.valid(),
        ensures
            m.wf(),
            m.config == config.risk_management,
            m.grid_symbol@ == config.grid.symbol@,
            m.price_range == config.grid.price_range,
            m.last_rebalance.is_none(),
            m.rebalance_count == 0,
            !m.trading_paused,
    {
        RiskManager {
            config: config.risk_management,
            grid_symbol: config.grid.symbol.clone(),
            price_range: config.grid.price_range,
            last_rebalance: None,
            rebalance_count: 0,
            trading_paused: false,
        }
    }

    pub fn trading_paused(&self) -> (b: bool)
        ensures
            b == self.trading_paused,
    {
        self.trading_paused
    }
}


fn clamp_u64(x: u128) -> (r: u64)
    ensures
        r == if x > u64::MAX as u128 { u64::MAX } else { x as u64 },
{
    if x > u64::MAX as u128 { u64::MAX } else { x as u64 }
}

fn abs_i64(x: i64) -> (r: u128)
    ensures
        r as int == abs(x as int),
{
    if x < 0 { (-(x as i128)) as u128 } else { x as u128 }
}

/// `"<label> <value>% exceeds <limit>%"`, amounts with two decimals.
fn exceeds_reason(label: &str, value: u64, limit: u64) -> (s: String)
    ensures
        s@ == exceeds_text(label@, value, limit),
{
    let mut s = String::from_str(label);
    s.append(" ");
    let v = amount_string(value);
    s.append(v.as_str());
    s.append("% exceeds ");
    let l = amount_string(limit);
    s.append(l.as_str());
    s.append("%");
    s
}

/// `(basis, pnl_pct)` of a position whose basis is positive.
fn position_figures(p: &Position) -> (r: (u128, u128))
    ensures
        r.0 as int == basis(*p),
        r.0 > 0 ==> r.1 as int == pnl_pct(*p),
{
    let size = abs_i64(p.size);
    proof {
        assert((p.entry_price as int) * (size as int) <= (u64::MAX as int) * (u64::MAX as int)) by (nonlinear_arith)
            requires 0 <= p.entry_price <= u64::MAX, 0 <= size <= u64::MAX;
    }
    let b: u128 = (p.entry_price as u128) * size / (UNIT as u128);
    if b == 0 {
        return (0, 0);
    }
    let pnl = abs_i64(p.unrealized_pnl);
    (b, pnl * 100 * (UNIT as u128) / b)
}

fn position_payload(p: &Position) -> (r: RiskPayload)
    ensures
        r == position_payload_of(*p),
{
    RiskPayload::Position {
        size: p.size,
        entry_price: p.entry_price,
        current_value: p.current_value,
        unrealized_pnl: p.unrealized_pnl,
    }
}

impl RiskManager {
    fn event(
        &self,
        rule: RiskRule,
        asset: &String,
        action: RiskAction,
        severity: Severity,
        reason: String,
        payload: RiskPayload,
        now: u64,
    ) -> (e: RiskEvent)
        ensures
            e.notice() == (RiskNotice { rule, asset: asset@, action, severity, reason: reason@, metadata: payload,
                timestamp: now }),
    {
        RiskEvent { rule, asset: asset.clone(), action, reason, severity, metadata: payload, timestamp: now }
    }

    /// Stop-loss or take-profit over every position, in order.
    fn check_positions(&self, rule: RiskRule, positions: &[Position], now: u64) -> (events: Vec<RiskEvent>)
        requires
            rule == RiskRule::StopLoss || rule == RiskRule::TakeProfit,
        ensures
            notices_of(events@) == position_notices(rule, self.config, positions@, now),
    {
        let mut events: Vec<RiskEvent> = Vec::new();
        let mut i: usize = 0;
        let stop = rule == RiskRule::StopLoss;
        let limit = if stop { self.config.stop_loss_pct } else { self.config.take_profit_pct };
        while i < positions.len()
            invariant
                i <= positions@.len(),
                stop == (rule == RiskRule::StopLoss),
                rule == RiskRule::StopLoss || rule == RiskRule::TakeProfit,
                limit == if stop { self.config.stop_loss_pct } else { self.config.take_profit_pct },
                notices_of(events@) == position_notices(rule, self.config, positions@.subrange(0, i as int), now),
            decreases positions@.len() - i,
        {
            let p = &positions[i];
            proof {
                assert(positions@.subrange(0, i + 1).drop_last() =~= positions@.subrange(0, i as int));
                assert(positions@.subrange(0, i + 1).last() == *p);
            }
            let candidate = if stop { p.unrealized_pnl < 0 } else { p.unrealized_pnl > 0 };
            if p.entry_price > 0 && candidate {
                let (b, pct) = position_figures(p);
                if b > 0 && pct >= limit as u128 {
                    let label = if stop { "loss" } else { "profit" };
                    let reason = exceeds_reason(label, clamp_u64(pct), limit);
                    let (action, severity) = (RiskAction::ClosePosition, if stop { Severity::High } else { Severity::Medium });
                    let e = self.event(rule, &p.asset, action, severity, reason, position_payload(p), now);
                    let ghost before = events@;
                    events.push(e);
                    proof {
                        assert(notices_of(events@) =~= notices_of(before).push(e.notice()));
                    }
                }
            }
            i = i + 1;
        }
        proof {
            assert(positions@.subrange(0, positions@.len() as int) =~= positions@);
        }
        events
    }

    fn check_stop_loss(&self, positions: &[Position], now: u64) -> (events: Vec<RiskEvent>)
        ensures
            notices_of(events@) == stop_loss_notices(self.config, positions@, now),
    {
        if !self.config.stop_loss_enabled {
            return Vec::new();
        }
        self.check_positions(RiskRule::StopLoss, positions, now)
    }

    fn check_take_profit(&self, positions: &[Position], now: u64) -> (events: Vec<RiskEvent>)
        ensures
            notices_of(events@) == take_profit_notices(self.config, positions@, now),
    {
        if !self.config.take_profit_enabled {
            return Vec::new();
        }
        self.check_positions(RiskRule::TakeProfit, positions, now)
    }

    fn check_drawdown(&self, metrics: &AccountMetrics, now: u64) -> (events: Vec<RiskEvent>)
        ensures
            notices_of(events@) == drawdown_notices(self.config, self.grid_symbol@, *metrics, now),
    {
        let mut events: Vec<RiskEvent> = Vec::new();
        if metrics.drawdown_pct < self.config.max_drawdown_pct {
            return events;
        }
        let reason = exceeds_reason("drawdown", metrics.drawdown_pct, self.config.max_drawdown_pct);
        let e = self.event(RiskRule::Drawdown, &self.grid_symbol, RiskAction::PauseTrading, Severity::Critical,
            reason, RiskPayload::Percent { value: metrics.drawdown_pct }, now);
        events.push(e);
        proof {
            assert(notices_of(events@) =~= drawdown_notices(self.config, self.grid_symbol@, *metrics, now));
        }
        events
    }

    fn check_position_size(&self, metrics: &AccountMetrics, now: u64) -> (events: Vec<RiskEvent>)
        ensures
            notices_of(events@) == position_size_notices(self.config, self.grid_symbol@, *metrics, now),
    {
        let mut events: Vec<RiskEvent> = Vec::new();
        if metrics.largest_position_pct <= self.config.max_position_size_pct {
            return events;
        }
        let reason = exceeds_reason("position", metrics.largest_position_pct, self.config.max_position_size_pct);
        let e = self.event(RiskRule::PositionSize, &self.grid_symbol, RiskAction::ReducePosition, Severity::High,
            reason, RiskPayload::Percent { value: metrics.largest_position_pct }, now);
        events.push(e);
        proof {
            assert(notices_of(events@) =~= position_size_notices(self.config, self.grid_symbol@, *metrics, now));
        }
        events
    }

    /// The cooldown since the last rebalance has passed and the cap is not reached.
    pub fn can_rebalance(&self, now: u64) -> (b: bool)
        ensures
            b == rebalance_allowed(self.config, self.last_rebalance, self.rebalance_count, now),
    {
        if let Some(last) = self.last_rebalance {
            let cooldown_ms: u64 = (self.config.rebalance.cooldown_minutes as u64) * 60_000;
            let elapsed: u64 = if now >= last { now - last } else { 0 };
            if elapsed < cooldown_ms {
                return false;
            }
        }
        if self.rebalance_count >= self.config.rebalance.max_rebalances_per_day {
            return false;
        }
        true
    }

    fn check_rebalance(&mut self, market_data: &MarketData, now: u64) -> (events: Vec<RiskEvent>)
        requires
            old(self).wf(),
        ensures
            final(self).wf(),
            final(self).config == old(self).config,
            final(self).grid_symbol@ == old(self).grid_symbol@,
            final(self).price_range == old(self).price_range,
            final(self).trading_paused == old(self).trading_paused,
            ({
                let fires = rebalance_fires(old(self).config, old(self).price_range, old(self).last_rebalance,
                    old(self).rebalance_count, market_data.price, now);
                &&& fires ==> notices_of(events@) == seq![rebalance_notice(old(self).config, old(self).price_range,
                    *market_data, now)]
                &&& fires ==> final(self).last_rebalance == Some(now)
                    && final(self).rebalance_count == old(self).rebalance_count + 1
                &&& !fires ==> events@.len() == 0 && final(self).last_rebalance == old(self).last_rebalance
                    && final(self).rebalance_count == old(self).rebalance_count
            }),
    {
        let threshold = self.config.rebalance.price_move_threshold_pct;
        let price = market_data.price;
        let hundred: u128 = 100 * (UNIT as u128);
        let (lower, upper): (u128, u128) = match self.price_range.mode {
            RangeMode::Auto => {
                proof {
                    assert((price as int) * (self.price_range.auto.range_pct as int) <= (u64::MAX as int) * (u64::MAX as int))
                        by (nonlinear_arith) requires 0 <= price <= u64::MAX, 0 <= self.price_range.auto.range_pct <= u64::MAX;
                }
                let span: u128 = (price as u128) * (self.price_range.auto.range_pct as u128) / hundred;
                proof {
                    assert((price as int) * (self.price_range.auto.range_pct as int) <= (price as int) * (50 * UNIT as int))
                        by (nonlinear_arith) requires self.price_range.auto.range_pct <= 50 * UNIT, price >= 0;
                    vstd::arithmetic::div_mod::lemma_div_is_ordered(
                        (price as int) * (self.price_range.auto.range_pct as int),
                        (price as int) * (50 * UNIT as int), 100 * UNIT as int);
                    assert((price as int) * (50 * UNIT as int) / (100 * UNIT as int) <= price as int)
                        by (nonlinear_arith) requires price >= 0;
                }
                (price as u128 - span, price as u128 + span)
            },
            RangeMode::Manual => {
                let min = self.price_range.manual.min;
                let max = self.price_range.manual.max;
                if min == 0 || max <= min {
                    return Vec::new();
                }
                (min as u128, max as u128)
            },
        };
        proof {
            assert((upper as int) * (hundred as int + threshold as int) <= (2 * u64::MAX as int) * (200 * UNIT as int))
                by (nonlinear_arith) requires upper <= 2 * u64::MAX as int, threshold <= 50 * UNIT, upper >= 0, threshold >= 0,
                    hundred == 100 * UNIT;
            assert((lower as int) * (hundred as int - threshold as int) <= (2 * u64::MAX as int) * (200 * UNIT as int))
                by (nonlinear_arith) requires lower <= 2 * u64::MAX as int, threshold <= 50 * UNIT, lower >= 0, threshold >= 0,
                    hundred == 100 * UNIT;
        }
        let scaled: u128 = (price as u128) * hundred;
        let beyond = scaled >= upper * (hundred + threshold as u128) || scaled <= lower * (hundred - threshold as u128);
        if beyond && self.can_rebalance(now) {
            self.last_rebalance = Some(now);
            self.rebalance_count = self.rebalance_count + 1;
            let mut reason = String::from_str("price ");
            let p = amount_string(price);
            reason.append(p.as_str());
            reason.append(" outside [");
            let lo = amount_string(clamp_u64(lower));
            reason.append(lo.as_str());
            reason.append(", ");
            let hi = amount_string(clamp_u64(upper));
            reason.append(hi.as_str());
            reason.append("] with threshold ");
            let t = amount_string(threshold);
            reason.append(t.as_str());
            reason.append("%");
            let payload = RiskPayload::Range { price, lower: clamp_u64(lower), upper: clamp_u64(upper) };
            let e = self.event(RiskRule::Rebalance, &market_data.asset, RiskAction::CancelOrders, Severity::Medium,
                reason, payload, now);
            let mut events: Vec<RiskEvent> = Vec::new();
            events.push(e);
            proof {
                assert(notices_of(events@) =~= seq![e.notice()]);
            }
            return events;
        }
        Vec::new()
    }

    /// Runs every rule in order and returns the events raised. Pauses trading
    /// when an event asks for it.
    pub fn evaluate(
        &mut self,
        positions: &[Position],
        market_data: &MarketData,
        metrics: &AccountMetrics,
        now: u64,
    ) -> (events: Vec<RiskEvent>)
        requires
            old(self).wf(),
        ensures
            final(self).wf(),
            notices_of(events@) == old(self).notices(positions@, *market_data, *metrics, now),
            final(self).config == old(self).config,
            final(self).grid_symbol@ == old(self).grid_symbol@,
            final(self).price_range == old(self).price_range,
            final(self).trading_paused == (old(self).trading_paused
                || exists|i: int| 0 <= i < events@.len() && (#[trigger] events@[i]).action == RiskAction::PauseTrading),
            rebalance_fires(old(self).config, old(self).price_range, old(self).last_rebalance,
                old(self).rebalance_count, market_data.price, now)
                ==> final(self).last_rebalance == Some(now) && final(self).rebalance_count == old(self).rebalance_count + 1,
            !rebalance_fires(old(self).config, old(self).price_range, old(self).last_rebalance,
                old(self).rebalance_count, market_data.price, now)
                ==> final(self).last_rebalance == old(self).last_rebalance
                    && final(self).rebalance_count == old(self).rebalance_count,
    {
        let mut events = self.check_stop_loss(positions, now);
        let ghost n1 = notices_of(events@);
        let mut more = self.check_take_profit(positions, now);
        let ghost a = events@;
        let ghost b = more@;
        events.append(&mut more);
        proof { assert(notices_of(events@) =~= notices_of(a) + notices_of(b)); }
        let mut more = self.check_drawdown(metrics, now);
        let ghost a = events@;
        let ghost b = more@;
        events.append(&mut more);
        proof { assert(notices_of(events@) =~= notices_of(a) + notices_of(b)); }
        let mut more = self.check_position_size(metrics, now);
        let ghost a = events@;
        let ghost b = more@;
        events.append(&mut more);
        proof { assert(notices_of(events@) =~= notices_of(a) + notices_of(b)); }
        let mut more = self.check_rebalance(market_data, now);
        let ghost a = events@;
        let ghost b = more@;
        events.append(&mut more);
        proof {
            assert(notices_of(events@) =~= notices_of(a) + notices_of(b));
            if !rebalance_fires(old(self).config, old(self).price_range, old(self).last_rebalance,
                old(self).rebalance_count, market_data.price, now) {
                assert(notices_of(b) =~= Seq::<RiskNotice>::empty());
            }
        }
        let mut i: usize = 0;
        let mut pause = false;
        while i < events.len()
            invariant
                i <= events@.len(),
                pause == exists|j: int| 0 <= j < i && (#[trigger] events@[j]).action == RiskAction::PauseTrading,
            decreases events@.len() - i,
        {
            if events[i].action == RiskAction::PauseTrading {
                pause = true;
            }
            i = i + 1;
        }
        if pause {
            self.trading_paused = true;
        }
        events
    }
}

/// A borrowed view of a risk manager through which evaluations are made.
pub struct RiskEvaluator<'a> {
    pub manager: &'a mut RiskManager,
}

impl<'a> RiskEvaluator<'a> {
    pub fn new(manager: &'a mut RiskManager) -> (e: Self)
        ensures
            *e.manager == *old(manager),
    {
        RiskEvaluator { manager }
    }

    /// Evaluates through the borrowed manager.
    pub fn evaluate(
        &mut self,
        positions: &[Position],
        market_data: &MarketData,
        metrics: &AccountMetrics,
        now: u64,
    ) -> (events: Vec<RiskEvent>)
        requires
            old(self).manager.wf(),
        ensures
            final(self).manager.wf(),
            notices_of(events@) == old(self).manager.notices(positions@, *market_data, *metrics, now),
            final(self).manager.config == old(self).manager.config,
            final(self).manager.grid_symbol@ == old(self).manager.grid_symbol@,
            final(self).manager.price_range == old(self).manager.price_range,
            final(self).manager.trading_paused == (old(self).manager.trading_paused
                || exists|i: int| 0 <= i < events@.len() && (#[trigger] events@[i]).action == RiskAction::PauseTrading),
            rebalance_fires(old(self).manager.config, old(self).manager.price_range, old(self).manager.last_rebalance,
                old(self).manager.rebalance_count, market_data.price, now)
                ==> final(self).manager.last_rebalance == Some(now)
                    && final(self).manager.rebalance_count == old(self).manager.rebalance_count + 1,
            !rebalance_fires(old(self).manager.config, old(self).manager.price_range, old(self).manager.last_rebalance,
                old(self).manager.rebalance_count, market_data.price, now)
                ==> final(self).manager.last_rebalance == old(self).manager.last_rebalance
                    && final(self).manager.rebalance_count == old(self).manager.rebalance_count,
    {
        self.manager.evaluate(positions, market_data, metrics, now)
    }
}


/// Evaluation is a function of its inputs: two managers with the same
/// settings and the same rebalance record raise the same events for the same
/// positions, market data, metrics and clock reading.
pub proof fn lemma_evaluation_pure(
    m1: RiskManager,
    m2: RiskManager,
    ps: Seq<Position>,
    md: MarketData,
    metrics: AccountMetrics,
    now: u64,
)
    requires
        m1.config == m2.config,
        m1.grid_symbol@ == m2.grid_symbol@,
        m1.price_range == m2.price_range,
        m1.last_rebalance == m2.last_rebalance,
        m1.rebalance_count == m2.rebalance_count,
    ensures
        m1.notices(ps, md, metrics, now) == m2.notices(ps, md, metrics, now),
{
}

/// With stop-loss enabled, a position raises a stop-loss event exactly when
/// it has an entry price, a loss, and a strictly positive basis, and its loss
/// reaches the configured percentage. The basis is the entry price times the
/// size rounded down to a billionth; against that basis, the percentage
/// rounded down decides exactly as the unrounded one would.
pub proof fn lemma_stop_loss_iff(c: RiskManagementConfig, p: Position, now: u64)
    requires
        c.stop_loss_enabled,
    ensures
        stop_loss_notices(c, seq![p], now).len() == 1 <==> stop_loss_fires(c, p),
        stop_loss_notices(c, seq![p], now).len() == 0 <==> !stop_loss_fires(c, p),
        stop_loss_fires(c, p) ==> {
            let n = stop_loss_notices(c, seq![p], now)[0];
            &&& n.rule == RiskRule::StopLoss
            &&& n.asset == p.asset@
            &&& n.action == RiskAction::ClosePosition
            &&& n.severity == Severity::High
        },
        basis(p) > 0 ==> (pnl_pct(p) >= c.stop_loss_pct as int
            <==> abs(p.unrealized_pnl as int) * 100 * UNIT as int >= c.stop_loss_pct as int * basis(p)),
{
    assert(seq![p].drop_last() =~= Seq::<Position>::empty());
    assert(seq![p].last() == p);
    assert(position_notices(RiskRule::StopLoss, c, Seq::<Position>::empty(), now) == Seq::<RiskNotice>::empty());
    assert(position_notices(RiskRule::StopLoss, c, seq![p].drop_last(), now) == Seq::<RiskNotice>::empty());
    if basis(p) > 0 {
        let x = abs(p.unrealized_pnl as int) * 100 * UNIT as int;
        let b = basis(p);
        let t = c.stop_loss_pct as int;
        assert(x >= 0);
        vstd::arithmetic::div_mod::lemma_fundamental_div_mod(x, b);
        assert((x / b >= t) <==> (x >= t * b)) by (nonlinear_arith)
            requires b > 0, x == b * (x / b) + x % b, 0 <= x % b < b;
    }
}

} // verus!
