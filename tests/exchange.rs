use hyperliquid_bot::exchange::{PaperAccount, PaperError};
use hyperliquid_bot::interfaces::OrderSide;

const UNIT: f64 = 1_000_000_000.0;

fn units(x: f64) -> u64 {
    (x * UNIT).round() as u64
}

fn signed_units(x: f64) -> i64 {
    (x * UNIT).round() as i64
}

#[test]
fn buy_pays_quote_and_opens_position() {
    let mut account = PaperAccount::new();
    account.update_balance_on_fill(OrderSide::Buy, units(100.0), units(2.0), "BTC", 7).unwrap();
    let usd = account.get_balance("USD");
    assert_eq!(usd.available, signed_units(9_800.0));
    assert_eq!(usd.total, signed_units(9_800.0));
    assert_eq!(account.positions.len(), 1);
    assert_eq!(account.positions[0].asset, "BTC");
    assert_eq!(account.positions[0].size, signed_units(2.0));
    assert_eq!(account.positions[0].entry_price, units(100.0));
    assert_eq!(account.positions[0].timestamp, 7);
}

#[test]
fn second_buy_averages_entry_price() {
    let mut account = PaperAccount::new();
    account.update_balance_on_fill(OrderSide::Buy, units(100.0), units(1.0), "ETH", 0).unwrap();
    account.update_balance_on_fill(OrderSide::Buy, units(130.0), units(2.0), "ETH", 1).unwrap();
    assert_eq!(account.positions[0].size, signed_units(3.0));
    assert_eq!(account.positions[0].entry_price, units(120.0));
}

#[test]
fn selling_everything_drops_the_position() {
    let mut account = PaperAccount::new();
    account.update_balance_on_fill(OrderSide::Buy, units(100.0), units(1.0), "BTC", 0).unwrap();
    account.update_balance_on_fill(OrderSide::Sell, units(110.0), units(1.0), "BTC", 1).unwrap();
    assert!(account.positions.is_empty());
    assert_eq!(account.get_balance("USD").available, signed_units(10_010.0));
}

#[test]
fn selling_without_a_position_goes_short() {
    let mut account = PaperAccount::new();
    account.update_balance_on_fill(OrderSide::Sell, units(50.0), units(1.0), "SOL", 0).unwrap();
    assert_eq!(account.positions[0].size, signed_units(-1.0));
    assert_eq!(account.positions[0].entry_price, units(50.0));
}

#[test]
fn closing_part_and_all_of_a_position() {
    let mut account = PaperAccount::new();
    account.update_balance_on_fill(OrderSide::Buy, units(10.0), units(3.0), "BTC", 0).unwrap();
    assert_eq!(account.close_position("BTC", Some(units(0.5))), Ok(true));
    assert_eq!(account.positions[0].size, signed_units(2.5));
    assert_eq!(account.close_position("BTC", None), Ok(true));
    assert!(account.positions.is_empty());
    assert_eq!(account.close_position("BTC", None), Ok(false));
}

#[test]
fn unknown_balance_is_recorded_empty() {
    let mut account = PaperAccount::new();
    let eth = account.get_balance("ETH");
    assert_eq!((eth.available, eth.locked, eth.total), (0, 0, 0));
    assert_eq!(account.balances.len(), 1);
}

#[test]
fn metrics_follow_balances_and_positions() {
    let mut account = PaperAccount::new();
    account.update_balance_on_fill(OrderSide::Buy, units(100.0), units(10.0), "BTC", 0).unwrap();
    account.refresh_position_values(&vec![("ETH".to_string(), units(1.0)), ("BTC".to_string(), units(120.0))], 9);
    assert_eq!(account.positions[0].current_value, units(1_200.0));
    assert_eq!(account.positions[0].timestamp, 9);
    let m = account.compute_metrics();
    assert_eq!(m.total_value, signed_units(9_000.0));
    assert_eq!(m.positions_count, 1);
    // 1200 of 9000
    assert_eq!(m.largest_position_pct, 13_333_333_333);
}

#[test]
fn overdrawn_fill_is_refused_beyond_range() {
    let mut account = PaperAccount::new();
    let r = account.update_balance_on_fill(OrderSide::Buy, u64::MAX, u64::MAX, "BTC", 0);
    assert_eq!(r, Err(PaperError::Overflow));
    assert!(account.positions.is_empty());
    assert!(account.balances.is_empty());
}
