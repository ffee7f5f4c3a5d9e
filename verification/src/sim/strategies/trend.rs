//! A strategy that follows the price of the underlying.

use vstd::prelude::*;

use crate::float;
use crate::float::{less, same};
use crate::sim::market_data;
use crate::sim::market_data::{Span, Tau, TokenSide};
use crate::sim::order::OrderSide;
use crate::sim::strategy;
use crate::sim::strategy::{
    other_token,
    push_buy,
    push_sell,
    too_soon,
    History,
    Quotes,
    StrategyAction,
};

verus! {

/// How far back the price is compared, in milliseconds.
pub const LOOKBACK_MS: u64 = 3000;

/// The move that counts, 0.0002.
pub const THRESHOLD: u64 = 0x3F2A_36E2_EB1C_432D;

/// The same downwards, -0.0002.
pub const THRESHOLD_BELOW: u64 = 0xBF2A_36E2_EB1C_432D;

/// Milliseconds between two looks.
pub const PAUSE_MS: u64 = 500;

/// Prices that are remembered.
pub const MOST: usize = 200;

/// Prices that are forgotten at once.
pub const FORGET: usize = 100;

/// The strategy.
pub struct TrendStrategy {
    pub order_size: u64,
    pub split: u64,
    pub history: History,
    pub last_action_ms: i64,
}

/// What the strategy holds.
pub struct TrendView {
    pub order_size: u64,
    pub split: u64,
    pub history: Seq<(i64, u64)>,
    pub last_action_ms: i64,
}

impl View for TrendStrategy {
    type V = TrendView;

    open spec fn view(&self) -> TrendView {
        TrendView {
            order_size: self.order_size,
            split: self.split,
            history: self.history@,
            last_action_ms: self.last_action_ms,
        }
    }
}

/// The price to compare with, or none where it is not time to look, the end is near, or there is
/// nothing to compare.
pub open spec fn old_price(s: TrendView, ts_ms: i64, tau: Tau, btc_mid: u64) -> Option<u64> {
    if ts_ms - s.last_action_ms < PAUSE_MS || market_data::is_below(tau, market_data::ten_secs())
        || float::eq(btc_mid, 0) {
        None
    } else {
        match strategy::last_before(s.history, ts_ms - LOOKBACK_MS) {
            Some(p) => if float::eq(p, 0) { None } else { Some(p) },
            None => None,
        }
    }
}

/// The token to buy after a move of the price.
pub open spec fn side_of(momentum: u64) -> Option<TokenSide> {
    if float::lt(THRESHOLD, momentum) {
        Some(TokenSide::Up)
    } else if float::lt(momentum, THRESHOLD_BELOW) {
        Some(TokenSide::Down)
    } else {
        None
    }
}

/// The orders after a move of the price: buy what gains by it, sell what loses.
pub open spec fn orders_for(momentum: u64, q: Quotes, size: u64) -> Seq<StrategyAction> {
    match side_of(momentum) {
        Some(t) => strategy::buy_below(q, t, size) + strategy::sell_above(
            q,
            strategy::other(t),
            size,
        ),
        None => seq![],
    }
}

impl TrendStrategy {
    /// A strategy with orders of a size.
    pub fn new(order_size: u64, split: u64) -> (s: TrendStrategy)
        ensures
            s@ == (TrendView { order_size, split, history: seq![], last_action_ms: 0 }),
    {
        let s: TrendStrategy = TrendStrategy {
            order_size,
            split,
            history: History::new(),
            last_action_ms: 0,
        };
        assert(s@.history =~= seq![]);
        s
    }

    /// Remembers a price.
    pub fn observe(&mut self, ts_ms: i64, mid: u64)
        ensures
            final(self)@ == (TrendView {
                history: strategy::remembered(
                    old(self)@.history,
                    (ts_ms, mid),
                    MOST as int,
                    FORGET as int,
                ),
                ..old(self)@
            }),
    {
        self.history.remember(ts_ms, mid, MOST, FORGET);
    }

    /// The price to compare the present one with, if it is time to look. The look is then taken.
    pub fn look(&mut self, ts_ms: i64, tau: Tau, btc_mid: u64) -> (p: Option<u64>)
        ensures
            p == old_price(old(self)@, ts_ms, tau, btc_mid),
            final(self)@ == (if p is Some {
                TrendView { last_action_ms: ts_ms, ..old(self)@ }
            } else {
                old(self)@
            }),
    {
        let ten: Span = Span { ms: 10_000, secs: 0x4024_0000_0000_0000 };
        if too_soon(ts_ms, self.last_action_ms, PAUSE_MS) || tau.below(ten) || same(btc_mid, 0) {
            return None;
        }
        match self.history.at(ts_ms, LOOKBACK_MS) {
            Some(p) => {
                if same(p, 0) {
                    None
                } else {
                    self.last_action_ms = ts_ms;
                    Some(p)
                }
            },
            None => None,
        }
    }

    /// The orders after a move of the price.
    pub fn orders(&self, momentum: u64, q: &Quotes) -> (actions: Vec<StrategyAction>)
        ensures
            actions@ == orders_for(momentum, *q, self@.order_size),
    {
        let mut actions: Vec<StrategyAction> = Vec::new();
        let wanted: Option<TokenSide> = if less(THRESHOLD, momentum) {
            Some(TokenSide::Up)
        } else if less(momentum, THRESHOLD_BELOW) {
            Some(TokenSide::Down)
        } else {
            None
        };
        match wanted {
            Some(t) => {
                let _ = push_buy(&mut actions, q, t, self.order_size);
                let _ = push_sell(&mut actions, q, other_token(t), self.order_size);
            },
            None => {},
        }
        assert(actions@ =~= orders_for(momentum, *q, self@.order_size));
        actions
    }
}

// Laws

/// The price is followed: after a move upwards the first token is bought and the second sold, after
/// one downwards the second is bought and the first sold, and after less than 0.0002 nothing is
/// done.
pub proof fn moves_are_followed(momentum: u64, q: Quotes, size: u64)
    ensures
        ({
            let up = float::lt(0x3F2A_36E2_EB1C_432D, momentum);
            let down = !up && float::lt(momentum, 0xBF2A_36E2_EB1C_432D);
            orders_for(momentum, q, size) == strategy::order_if(
                up && q.up.below_ask is Some && float::lt(0, q.up.below_ask->0),
                TokenSide::Up,
                OrderSide::Bid,
                q.up.below_ask->0,
                size,
            ) + strategy::order_if(
                down && q.down.below_ask is Some && float::lt(0, q.down.below_ask->0),
                TokenSide::Down,
                OrderSide::Bid,
                q.down.below_ask->0,
                size,
            ) + strategy::order_if(
                up && q.down.above_bid is Some && float::lt(size, q.down.sellable),
                TokenSide::Down,
                OrderSide::Ask,
                q.down.above_bid->0,
                size,
            ) + strategy::order_if(
                down && q.up.above_bid is Some && float::lt(size, q.up.sellable),
                TokenSide::Up,
                OrderSide::Ask,
                q.up.above_bid->0,
                size,
            )
        }),
{
}

/// The price is compared with the last one that is three seconds old, unless that is zero. There is
/// no comparison within half a second of the last one, in the last ten seconds, or without a price.
pub proof fn old_prices_are_compared(s: TrendView, ts_ms: i64, tau: Tau, btc_mid: u64, i: int)
    ensures
        ts_ms - s.last_action_ms < 500 || strategy::has_less(tau, 10_000, 0x4024_0000_0000_0000)
            || float::eq(btc_mid, 0) ==> old_price(s, ts_ms, tau, btc_mid) is None,
        ts_ms - s.last_action_ms >= 500 && !strategy::has_less(tau, 10_000, 0x4024_0000_0000_0000)
            && !float::eq(btc_mid, 0) && 0 <= i < s.history.len() && s.history[i].0 <= ts_ms - 3000
            && (forall|j: int|
            i < j < s.history.len() ==> (#[trigger] s.history[j]).0 > ts_ms - 3000) ==> old_price(
            s,
            ts_ms,
            tau,
            btc_mid,
        ) == (if float::eq(s.history[i].1, 0) {
            None
        } else {
            Some(s.history[i].1)
        }),
        (forall|j: int| 0 <= j < s.history.len() ==> (#[trigger] s.history[j]).0 > ts_ms - 3000)
            ==> old_price(s, ts_ms, tau, btc_mid) is None,
{
    strategy::last_entries_are_found(s.history, ts_ms - 3000);
}

} // verus!
