//! Decisions of the spot order mirror: which leader orders are copied, at
//! what size, and which follower orders they map to. Talking to the exchange
//! is left to the caller, which reports back what the exchange answered.
use vstd::prelude::*;
use vstd::string::StrSliceExecFns;
use std::collections::HashMap;
use crate::config::trimmed;
use crate::interfaces::OrderSide;
use crate::units::UNIT;

verus! {

broadcast use vstd::std_specs::hash::group_hash_axioms;

/// A spot price and the number of decimals the exchange accepts in sizes.
#[derive(Clone, Copy, Debug, PartialEq, Eq, Structural)]
pub struct SpotPrice {
    pub price: u64,
    pub size_decimals: u32,
}

impl SpotPrice {
    pub fn new(price: u64, size_decimals: u32) -> (s: Self)
        ensures
            s.price == price,
            s.size_decimals == size_decimals,
    {
        SpotPrice { price, size_decimals }
    }
}

#[derive(Debug)]
pub struct MirrorOrderRequest {
    pub coin: String,
    pub side: OrderSide,
    pub size: u64,
    pub price: u64,
}

#[derive(Clone, Copy, Debug, PartialEq, Eq, Structural)]
pub enum OrderPlacement {
    Resting { order_id: u64 },
    Filled,
}

#[derive(Debug)]
pub struct LeaderOrder {
    pub id: u64,
    pub coin: String,
    pub side: OrderSide,
    pub price: u64,
    pub size: u64,
}

#[derive(Clone, Copy, Debug, PartialEq, Eq, Structural)]
pub enum LeaderOrderStatus {
    Open,
    Canceled,
    Filled,
    Unknown,
}

#[derive(Debug)]
pub struct LeaderOrderUpdate {
    pub order: LeaderOrder,
    pub status: LeaderOrderStatus,
}

#[derive(Clone, Copy, Debug, PartialEq, Eq, Structural)]
pub enum MirrorError {
    /// Mirroring runs on mainnet only.
    Testnet,
    LeaderAddressMissing,
    NonPositiveOrderValue,
    NonPositiveLeaderPrice,
    NonPositiveSpotPrice,
    /// The order size rounds to zero.
    ZeroSize,
    /// The order size does not fit the fixed-point range.
    SizeOutOfRange,
}

impl MirrorError {
    pub fn message(&self) -> (s: &'static str) {
        match self {
            MirrorError::Testnet => "spot mirroring is available only on mainnet",
            MirrorError::LeaderAddressMissing => "leader address required",
            MirrorError::NonPositiveOrderValue => "fixed order value must be positive",
            MirrorError::NonPositiveLeaderPrice => "leader order price must be positive",
            MirrorError::NonPositiveSpotPrice => "spot price must be positive",
            MirrorError::ZeroSize => "calculated order size is zero",
            MirrorError::SizeOutOfRange => "calculated order size out of range",
        }
    }
}

/// The next exchange call the mirror asks for.
#[derive(Clone, Copy, Debug, PartialEq, Eq, Structural)]
pub enum MirrorStep {
    /// Nothing to do.
    Done,
    /// Fetch the spot price of the coin, then build the order with
    /// [`SpotOrderMirror::order_request`].
    PlaceOrder,
    /// Cancel this follower order.
    Cancel { follower_order_id: u64 },
}

pub open spec fn is_digit(c: char) -> bool {
    '0' <= c <= '9'
}

/// Value of a run of decimal digits.
pub open spec fn digits_value(s: Seq<char>) -> int
    decreases s.len(),
{
    if s.len() == 0 {
        0
    } else {
        digits_value(s.drop_last()) * 10 + (s.last() as int - '0' as int)
    }
}

pub open spec fn all_digits(s: Seq<char>) -> bool {
    s.len() > 0 && forall|i: int| 0 <= i < s.len() ==> is_digit(#[trigger] s[i])
}

/// The integer that `i64`'s `FromStr` reads from `s`: an optional sign and at
/// least one ASCII digit, within range.
pub open spec fn i64_text_value(s: Seq<char>) -> Option<int> {
    let (neg, digits) = if s.len() > 0 && (s[0] == '-' || s[0] == '+') {
        (s[0] == '-', s.subrange(1, s.len() as int))
    } else {
        (false, s)
    };
    let v = if neg { -digits_value(digits) } else { digits_value(digits) };
    if all_digits(digits) && i64::MIN <= v <= i64::MAX { Some(v) } else { None }
}

/// Relies on `<i64 as FromStr>::from_str`: reads an optional sign and decimal
/// digits, failing on anything else and on values out of range.
#[verifier::external_body]
fn parse_i64(s: &str) -> (r: Option<i64>)
    ensures
        match i64_text_value(s@) {
            Some(v) => r == Some(v as i64),
            None => r.is_none(),
        },
{
    s.parse::<i64>().ok()
}

/// Spot coins are written `@<index>` with a non-negative index, or as a
/// `BASE/QUOTE` pair.
pub open spec fn spot_coin(c: Seq<char>) -> bool {
    if c.len() == 0 || c == "N/A"@ {
        false
    } else if c[0] == '@' {
        c.len() > 1 && (i64_text_value(c.subrange(1, c.len() as int)) matches Some(v) && v >= 0)
    } else {
        c.contains('/')
    }
}

pub fn is_spot_coin(coin: &str) -> (b: bool)
    ensures
        b == spot_coin(coin@),
{
    let n = coin.unicode_len();
    if n == 0 {
        return false;
    }
    proof {
        reveal_strlit("N/A");
    }
    if n == 3 && coin.get_char(0) == 'N' && coin.get_char(1) == '/' && coin.get_char(2) == 'A' {
        proof {
            assert(coin@ =~= "N/A"@);
        }
        return false;
    }
    if coin.get_char(0) == '@' {
        if n == 1 {
            return false;
        }
        let rest = coin.substring_char(1, n);
        return match parse_i64(rest) {
            Some(v) => v >= 0,
            None => false,
        };
    }
    let mut i: usize = 0;
    while i < n
        invariant
            n == coin@.len(),
            n > 0,
            coin@ != "N/A"@,
            coin@[0] != '@',
            i <= n,
            forall|j: int| 0 <= j < i ==> coin@[j] != '/',
        decreases n - i,
    {
        if coin.get_char(i) == '/' {
            proof {
                assert(coin@[i as int] == '/');
                assert(coin@.contains('/'));
            }
            return true;
        }
        i = i + 1;
    }
    false
}

/// Number of fixed-point steps in one increment of a size with `decimals`
/// decimals; the fixed-point resolution stops at nine.
pub open spec fn size_step(decimals: u32) -> int {
    match decimals {
        0 => 1_000_000_000,
        1 => 100_000_000,
        2 => 10_000_000,
        3 => 1_000_000,
        4 => 100_000,
        5 => 10_000,
        6 => 1_000,
        7 => 100,
        8 => 10,
        _ => 1,
    }
}

/// `value / price`, rounded to the nearest multiple of `step` (halves away
/// from zero), in fixed point.
pub open spec fn rounded_size(value: u64, price: u64, step: int) -> int {
    ((2 * value as int * UNIT as int + price as int * step) / (2 * price as int * step)) * step
}

fn step_for(decimals: u32) -> (s: u64)
    ensures
        s as int == size_step(decimals),
        1 <= s <= UNIT,
{
    match decimals {
        0 => 1_000_000_000,
        1 => 100_000_000,
        2 => 10_000_000,
        3 => 1_000_000,
        4 => 100_000,
        5 => 10_000,
        6 => 1_000,
        7 => 100,
        8 => 10,
        _ => 1,
    }
}

/// Size of an order worth `fixed_value_usdc` at the spot price, rounded to
/// the decimals the exchange accepts.
pub fn calculate_order_size(fixed_value_usdc: u64, price_info: &SpotPrice) -> (r: Result<u64, MirrorError>)
    ensures
        price_info.price == 0 ==> r == Err::<u64, MirrorError>(MirrorError::NonPositiveSpotPrice),
        price_info.price > 0 ==> ({
            let s = rounded_size(fixed_value_usdc, price_info.price, size_step(price_info.size_decimals));
            &&& s == 0 ==> r == Err::<u64, MirrorError>(MirrorError::ZeroSize)
            &&& s > u64::MAX as int ==> r == Err::<u64, MirrorError>(MirrorError::SizeOutOfRange)
            &&& 0 < s <= u64::MAX as int ==> r == Ok::<u64, MirrorError>(s as u64)
        }),
{
    if price_info.price == 0 {
        return Err(MirrorError::NonPositiveSpotPrice);
    }
    let step: u64 = step_for(price_info.size_decimals);
    proof {
        assert((price_info.price as int) * (step as int) <= (u64::MAX as int) * (UNIT as int)) by (nonlinear_arith)
            requires 0 <= price_info.price <= u64::MAX, 1 <= step <= UNIT;
        assert((price_info.price as int) * (step as int) >= 1) by (nonlinear_arith)
            requires price_info.price >= 1, step >= 1;
    }
    proof {
        assert(2 * (fixed_value_usdc as int) * (UNIT as int) <= 2 * (u64::MAX as int) * (UNIT as int)) by (nonlinear_arith)
            requires 0 <= fixed_value_usdc <= u64::MAX;
    }
    let denom: u128 = 2 * (price_info.price as u128) * (step as u128);
    let num: u128 = 2 * (fixed_value_usdc as u128) * (UNIT as u128) + (price_info.price as u128) * (step as u128);
    let steps: u128 = num / denom;
    proof {
        assert(steps <= num) by {
            vstd::arithmetic::div_mod::lemma_div_is_ordered_by_denominator(num as int, 1, denom as int);
        }
        assert((steps as int) * (step as int) <= (num as int) * (UNIT as int)) by (nonlinear_arith)
            requires steps <= num, 1 <= step <= UNIT, steps >= 0;
    }
    let size: u128 = steps * (step as u128);
    if size == 0 {
        return Err(MirrorError::ZeroSize);
    }
    if size > u64::MAX as u128 {
        return Err(MirrorError::SizeOutOfRange);
    }
    Ok(size as u64)
}

pub struct SpotOrderMirror {
    pub fixed_value_usdc: u64,
    pub leader_address: String,
    /// Leader order id to the id of the follower order that copies it.
    pub order_mappings: HashMap<u64, u64>,
}

impl SpotOrderMirror {
    pub fn new(is_testnet: bool, leader_address: String, fixed_value_usdc: u64) -> (r: Result<Self, MirrorError>)
        ensures
            is_testnet ==> r == Err::<Self, MirrorError>(MirrorError::Testnet),
            !is_testnet && trimmed(leader_address@).len() == 0
                ==> r == Err::<Self, MirrorError>(MirrorError::LeaderAddressMissing),
            !is_testnet && trimmed(leader_address@).len() > 0 && fixed_value_usdc == 0
                ==> r == Err::<Self, MirrorError>(MirrorError::NonPositiveOrderValue),
            !is_testnet && trimmed(leader_address@).len() > 0 && fixed_value_usdc > 0 ==> (r matches Ok(m)
                && m.leader_address@ == leader_address@ && m.fixed_value_usdc == fixed_value_usdc
                && m.order_mappings@ == Map::<u64, u64>::empty()),
    {
        if is_testnet {
            return Err(MirrorError::Testnet);
        }
        if !crate::config::has_text(&leader_address) {
            return Err(MirrorError::LeaderAddressMissing);
        }
        if fixed_value_usdc == 0 {
            return Err(MirrorError::NonPositiveOrderValue);
        }
        Ok(SpotOrderMirror { fixed_value_usdc, leader_address, order_mappings: HashMap::new() })
    }

    /// Decides what a leader order update calls for, and forgets mappings
    /// that the update closes.
    pub fn plan_update(&mut self, update: &LeaderOrderUpdate) -> (r: Result<MirrorStep, MirrorError>)
        ensures
            final(self).fixed_value_usdc == old(self).fixed_value_usdc,
            final(self).leader_address@ == old(self).leader_address@,
            !spot_coin(update.order.coin@) ==> r == Ok::<MirrorStep, MirrorError>(MirrorStep::Done)
                && final(self).order_mappings@ == old(self).order_mappings@.remove(update.order.id),
            spot_coin(update.order.coin@) ==> match update.status {
                LeaderOrderStatus::Open => final(self).order_mappings@ == old(self).order_mappings@
                    && if update.order.price == 0 {
                        r == Err::<MirrorStep, MirrorError>(MirrorError::NonPositiveLeaderPrice)
                    } else {
                        r == Ok::<MirrorStep, MirrorError>(MirrorStep::PlaceOrder)
                    },
                LeaderOrderStatus::Canceled => final(self).order_mappings@ == old(self).order_mappings@.remove(update.order.id)
                    && if old(self).order_mappings@.contains_key(update.order.id) {
                        r == Ok::<MirrorStep, MirrorError>(MirrorStep::Cancel {
                            follower_order_id: old(self).order_mappings@[update.order.id] })
                    } else {
                        r == Ok::<MirrorStep, MirrorError>(MirrorStep::Done)
                    },
                LeaderOrderStatus::Filled => final(self).order_mappings@ == old(self).order_mappings@.remove(update.order.id)
                    && r == Ok::<MirrorStep, MirrorError>(MirrorStep::Done),
                LeaderOrderStatus::Unknown => final(self).order_mappings@ == old(self).order_mappings@
                    && r == Ok::<MirrorStep, MirrorError>(MirrorStep::Done),
            },
    {
        let id = update.order.id;
        if !is_spot_coin(update.order.coin.as_str()) {
            self.order_mappings.remove(&id);
            return Ok(MirrorStep::Done);
        }
        match update.status {
            LeaderOrderStatus::Open => {
                if update.order.price == 0 {
                    return Err(MirrorError::NonPositiveLeaderPrice);
                }
                Ok(MirrorStep::PlaceOrder)
            },
            LeaderOrderStatus::Canceled => match self.order_mappings.remove(&id) {
                Some(follower_order_id) => Ok(MirrorStep::Cancel { follower_order_id }),
                None => Ok(MirrorStep::Done),
            },
            LeaderOrderStatus::Filled => {
                self.order_mappings.remove(&id);
                Ok(MirrorStep::Done)
            },
            LeaderOrderStatus::Unknown => Ok(MirrorStep::Done),
        }
    }

    /// The follower order copying `order` at the fixed order value.
    pub fn order_request(&self, order: &LeaderOrder, price_info: &SpotPrice) -> (r: Result<MirrorOrderRequest, MirrorError>)
        ensures
            match calculate_order_size_spec(self.fixed_value_usdc, *price_info) {
                Ok(size) => r matches Ok(req) && req.coin@ == order.coin@ && req.side == order.side
                    && req.size == size && req.price == order.price,
                Err(e) => r matches Err(e2) && e2 == e,
            },
    {
        let size = calculate_order_size(self.fixed_value_usdc, price_info)?;
        Ok(MirrorOrderRequest { coin: order.coin.clone(), side: order.side, size, price: order.price })
    }

    /// Records where the follower order of leader order `leader_order_id` went.
    pub fn record_placement(&mut self, leader_order_id: u64, placement: OrderPlacement)
        ensures
            final(self).fixed_value_usdc == old(self).fixed_value_usdc,
            final(self).leader_address@ == old(self).leader_address@,
            final(self).order_mappings@ == match placement {
                OrderPlacement::Resting { order_id } => old(self).order_mappings@.insert(leader_order_id, order_id),
                OrderPlacement::Filled => old(self).order_mappings@.remove(leader_order_id),
            },
    {
        match placement {
            OrderPlacement::Resting { order_id } => {
                self.order_mappings.insert(leader_order_id, order_id);
            },
            OrderPlacement::Filled => {
                self.order_mappings.remove(&leader_order_id);
            },
        }
    }

    pub fn follower_order_for(&self, leader_order_id: u64) -> (r: Option<u64>)
        ensures
            r == if self.order_mappings@.contains_key(leader_order_id) {
                Some(self.order_mappings@[leader_order_id])
            } else {
                None::<u64>
            },
    {
        match self.order_mappings.get(&leader_order_id) {
            Some(v) => Some(*v),
            None => None,
        }
    }

    pub fn leader_address(&self) -> (s: &str)
        ensures
            s@ == self.leader_address@,
    {
        self.leader_address.as_str()
    }
}

/// What [`calculate_order_size`] returns.
pub open spec fn calculate_order_size_spec(value: u64, p: SpotPrice) -> Result<u64, MirrorError> {
    if p.price == 0 {
        Err(MirrorError::NonPositiveSpotPrice)
    } else {
        let s = rounded_size(value, p.price, size_step(p.size_decimals));
        if s == 0 {
            Err(MirrorError::ZeroSize)
        } else if s > u64::MAX as int {
            Err(MirrorError::SizeOutOfRange)
        } else {
            Ok(s as u64)
        }
    }
}

} // verus!
