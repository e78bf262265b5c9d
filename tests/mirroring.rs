use hyperliquid_bot::interfaces::OrderSide;
use hyperliquid_bot::mirroring::{
    calculate_order_size, is_spot_coin, LeaderOrder, LeaderOrderStatus, LeaderOrderUpdate,
    MirrorError, MirrorStep, OrderPlacement, SpotOrderMirror, SpotPrice,
};

const UNIT: f64 = 1_000_000_000.0;

fn units(x: f64) -> u64 {
    (x * UNIT).round() as u64
}

fn update(id: u64, coin: &str, price: f64, status: LeaderOrderStatus) -> LeaderOrderUpdate {
    update_side(id, coin, OrderSide::Buy, price, status)
}

fn update_side(id: u64, coin: &str, side: OrderSide, price: f64, status: LeaderOrderStatus) -> LeaderOrderUpdate {
    LeaderOrderUpdate {
        order: LeaderOrder { id, coin: coin.to_string(), side, price: units(price), size: units(1.0) },
        status,
    }
}

/// Runs one leader update the way the exchange driver does, with the given
/// spot price and placement answer; returns the request placed and the
/// follower order cancelled, if any.
fn drive(
    mirror: &mut SpotOrderMirror,
    update: &LeaderOrderUpdate,
    price: SpotPrice,
    placement: OrderPlacement,
) -> (Option<hyperliquid_bot::mirroring::MirrorOrderRequest>, Option<u64>) {
    match mirror.plan_update(update).unwrap() {
        MirrorStep::Done => (None, None),
        MirrorStep::PlaceOrder => {
            let request = mirror.order_request(&update.order, &price).unwrap();
            mirror.record_placement(update.order.id, placement);
            (Some(request), None)
        }
        MirrorStep::Cancel { follower_order_id } => (None, Some(follower_order_id)),
    }
}

#[test]
fn spot_mirror_rejects_testnet_configs() {
    assert!(SpotOrderMirror::new(true, "0xleader".to_string(), units(10.0)).is_err());
}

#[test]
fn mirrors_spot_order_with_fixed_value() {
    let mut mirror = SpotOrderMirror::new(false, "0xleader".to_string(), units(10.0)).unwrap();
    let open = update_side(1, "@5", OrderSide::Buy, 24.5, LeaderOrderStatus::Open);
    let (placed, cancelled) = drive(&mut mirror, &open, SpotPrice::new(units(25.0), 3), OrderPlacement::Resting { order_id: 55 });
    let order = placed.expect("an order is placed");
    assert!(cancelled.is_none());
    assert!((order.size as f64 / UNIT - 0.4).abs() < 1e-9);
    assert_eq!(order.coin, "@5");
    assert_eq!(order.side, OrderSide::Buy);
    assert!((order.price as f64 / UNIT - 24.5).abs() < 1e-9);
    assert_eq!(mirror.follower_order_for(1), Some(55));
}

#[test]
fn ignores_non_spot_orders() {
    let mut mirror = SpotOrderMirror::new(false, "0xleader".to_string(), units(10.0)).unwrap();
    let open = update_side(7, "BTC", OrderSide::Buy, 19.0, LeaderOrderStatus::Open);
    let (placed, _) = drive(&mut mirror, &open, SpotPrice::new(units(20.0), 3), OrderPlacement::Filled);
    assert!(placed.is_none());
    assert_eq!(mirror.follower_order_for(7), None);
}

#[test]
fn cancels_follower_on_leader_cancel() {
    let mut mirror = SpotOrderMirror::new(false, "0xleader".to_string(), units(10.0)).unwrap();
    let open = update_side(9, "@2", OrderSide::Sell, 29.5, LeaderOrderStatus::Open);
    drive(&mut mirror, &open, SpotPrice::new(units(30.0), 4), OrderPlacement::Resting { order_id: 88 });
    let cancel = update_side(9, "@2", OrderSide::Sell, 29.5, LeaderOrderStatus::Canceled);
    let (_, cancelled) = drive(&mut mirror, &cancel, SpotPrice::new(units(30.0), 4), OrderPlacement::Filled);
    assert_eq!(cancelled, Some(88));
    assert_eq!(mirror.follower_order_for(9), None);
}

#[test]
fn does_not_map_immediate_fills() {
    let mut mirror = SpotOrderMirror::new(false, "0xleader".to_string(), units(10.0)).unwrap();
    let open = update_side(42, "@7", OrderSide::Buy, 49.0, LeaderOrderStatus::Open);
    let (_, cancelled) = drive(&mut mirror, &open, SpotPrice::new(units(50.0), 2), OrderPlacement::Filled);
    assert!(cancelled.is_none());
    assert_eq!(mirror.follower_order_for(42), None);
    let cancel = update_side(42, "@7", OrderSide::Buy, 49.0, LeaderOrderStatus::Canceled);
    let (_, cancelled) = drive(&mut mirror, &cancel, SpotPrice::new(units(50.0), 2), OrderPlacement::Filled);
    assert!(cancelled.is_none());
}

#[test]
fn detects_spot_coins() {
    assert!(is_spot_coin("@1"));
    assert!(is_spot_coin("ETH/USDC"));
    assert!(!is_spot_coin("BTC"));
    assert!(!is_spot_coin("@-1"));
}

#[test]
fn spot_coin_edge_cases() {
    assert!(!is_spot_coin(""));
    assert!(!is_spot_coin("N/A"));
    assert!(!is_spot_coin("@"));
    assert!(!is_spot_coin("@x1"));
    assert!(is_spot_coin("@+7"));
    assert!(is_spot_coin("@-0"));
    assert!(!is_spot_coin("@99999999999999999999"));
}

#[test]
fn calculates_order_size_with_rounding() {
    let info = SpotPrice::new(units(25.0), 3);
    let size = calculate_order_size(units(10.0), &info).unwrap();
    assert!((size as f64 / UNIT - 0.4).abs() < 1e-9);
}

#[test]
fn order_size_rounds_half_away_from_zero() {
    // 10 / 16 = 0.625, kept to two decimals
    let info = SpotPrice::new(units(16.0), 2);
    assert_eq!(calculate_order_size(units(10.0), &info), Ok(units(0.63)));
    let info = SpotPrice::new(units(3.0), 0);
    assert_eq!(calculate_order_size(units(10.0), &info), Ok(units(3.0)));
}

#[test]
fn order_size_errors() {
    assert_eq!(calculate_order_size(units(10.0), &SpotPrice::new(0, 3)), Err(MirrorError::NonPositiveSpotPrice));
    assert_eq!(calculate_order_size(units(1.0), &SpotPrice::new(units(1000.0), 2)), Err(MirrorError::ZeroSize));
}

#[test]
fn mirror_rejects_testnet_and_bad_settings() {
    assert_eq!(SpotOrderMirror::new(true, "0xleader".to_string(), units(10.0)).err(), Some(MirrorError::Testnet));
    assert_eq!(SpotOrderMirror::new(false, "  ".to_string(), units(10.0)).err(), Some(MirrorError::LeaderAddressMissing));
    assert_eq!(SpotOrderMirror::new(false, "0xleader".to_string(), 0).err(), Some(MirrorError::NonPositiveOrderValue));
}

#[test]
fn mirrors_open_spot_order_then_cancels_follower() {
    let mut mirror = SpotOrderMirror::new(false, "0xleader".to_string(), units(10.0)).unwrap();
    assert_eq!(mirror.leader_address(), "0xleader");
    let open = update(30, "@5", 88.0, LeaderOrderStatus::Open);
    assert_eq!(mirror.plan_update(&open), Ok(MirrorStep::PlaceOrder));
    let request = mirror.order_request(&open.order, &SpotPrice::new(units(25.0), 3)).unwrap();
    assert_eq!(request.coin, "@5");
    assert_eq!(request.side, OrderSide::Buy);
    assert_eq!(request.size, units(0.4));
    assert_eq!(request.price, units(88.0));
    mirror.record_placement(30, OrderPlacement::Resting { order_id: 29 });
    assert_eq!(mirror.follower_order_for(30), Some(29));
    let cancel = update(30, "@5", 88.0, LeaderOrderStatus::Canceled);
    assert_eq!(mirror.plan_update(&cancel), Ok(MirrorStep::Cancel { follower_order_id: 29 }));
    assert_eq!(mirror.follower_order_for(30), None);
    assert_eq!(mirror.plan_update(&cancel), Ok(MirrorStep::Done));
}

#[test]
fn ignores_non_spot_orders_and_drops_their_mapping() {
    let mut mirror = SpotOrderMirror::new(false, "0xleader".to_string(), units(10.0)).unwrap();
    mirror.record_placement(20, OrderPlacement::Resting { order_id: 19 });
    let perp = update(20, "BTC", 10.0, LeaderOrderStatus::Open);
    assert_eq!(mirror.plan_update(&perp), Ok(MirrorStep::Done));
    assert_eq!(mirror.follower_order_for(20), None);
}

#[test]
fn immediate_fills_are_not_mapped() {
    let mut mirror = SpotOrderMirror::new(false, "0xleader".to_string(), units(10.0)).unwrap();
    mirror.record_placement(50, OrderPlacement::Filled);
    assert_eq!(mirror.follower_order_for(50), None);
    mirror.record_placement(42, OrderPlacement::Resting { order_id: 49 });
    let filled = update(42, "ETH/USDC", 10.0, LeaderOrderStatus::Filled);
    assert_eq!(mirror.plan_update(&filled), Ok(MirrorStep::Done));
    assert_eq!(mirror.follower_order_for(42), None);
}

#[test]
fn open_order_needs_positive_price() {
    let mut mirror = SpotOrderMirror::new(false, "0xleader".to_string(), units(10.0)).unwrap();
    let open = update(1, "@1", 0.0, LeaderOrderStatus::Open);
    assert_eq!(mirror.plan_update(&open), Err(MirrorError::NonPositiveLeaderPrice));
}
