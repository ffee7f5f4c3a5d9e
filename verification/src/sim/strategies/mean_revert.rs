//! A strategy that bets on a price coming back to its middle.

use vstd::prelude::*;

use crate::float;
use crate::float::{absolute, less};
use crate::sim::market_data;
use crate::sim::market_data::{Span, Tau, TokenSide};
use crate::sim::order::OrderSide;
use crate::sim::strategy;
use crate::sim::strategy::{other_token, push_buy, push_sell, too_soon, Quotes, StrategyAction};

verus! {

/// How far from the middle a bet is made, 1.5.
pub const Z_ENTRY: u64 = 0x3FF8_0000_0000_0000;

/// The same on the other side, -1.5.
pub const Z_ENTRY_BELOW: u64 = 0xBFF8_0000_0000_0000;

/// How close to the middle a bet is closed, 0.5.
pub const Z_EXIT: u64 = 0x3FE0_0000_0000_0000;

/// Milliseconds between two actions.
pub const PAUSE_MS: u64 = 1000;

/// The strategy.
#[derive(Clone, Copy, Debug, PartialEq, Eq, Structural)]
pub struct MeanRevertStrategy {
    pub order_size: u64,
    pub split: u64,
    pub last_action_ms: i64,
    pub in_position: Option<TokenSide>,
}

/// What the strategy is told: whether the fair value was sampled, the time, what is left of it,
/// how far the price is from its middle, and the quotes.
#[derive(Clone, Copy, Debug, PartialEq, Eq, Structural)]
pub struct Seen {
    pub is_fair_value: bool,
    pub ts_ms: i64,
    pub tau: Tau,
    pub z: u64,
    pub quotes: Quotes,
}

/// The token to buy, if there is a bet to make: the one that is too cheap.
pub open spec fn bet(z: u64) -> Option<TokenSide> {
    if float::lt(Z_ENTRY, z) {
        Some(TokenSide::Down)
    } else if float::lt(z, Z_ENTRY_BELOW) {
        Some(TokenSide::Up)
    } else {
        None
    }
}

/// What the strategy does.
pub open spec fn step(s: MeanRevertStrategy, e: Seen) -> (MeanRevertStrategy, Seq<StrategyAction>) {
    if !e.is_fair_value || market_data::is_below(e.tau, market_data::ten_secs()) || e.ts_ms
        - s.last_action_ms < PAUSE_MS {
        (s, seq![])
    } else if s.in_position is Some && float::lt(float::abs(e.z), Z_EXIT) {
        let exit = strategy::sell_above(e.quotes, s.in_position->0, s.order_size);
        (
            if exit.len() > 0 {
                MeanRevertStrategy { in_position: None, last_action_ms: e.ts_ms, ..s }
            } else {
                s
            },
            exit,
        )
    } else {
        match bet(e.z) {
            Some(t) => {
                let entry = strategy::buy_below(e.quotes, t, s.order_size);
                (
                    if entry.len() > 0 {
                        MeanRevertStrategy { in_position: Some(t), last_action_ms: e.ts_ms, ..s }
                    } else {
                        s
                    },
                    entry + strategy::sell_above(e.quotes, strategy::other(t), s.order_size),
                )
            },
            None => (s, seq![]),
        }
    }
}

impl MeanRevertStrategy {
    /// A strategy with orders of a size.
    pub fn new(order_size: u64, split: u64) -> (s: MeanRevertStrategy)
        ensures
            s == (MeanRevertStrategy { order_size, split, last_action_ms: 0, in_position: None }),
    {
        MeanRevertStrategy { order_size, split, last_action_ms: 0, in_position: None }
    }

    /// What the strategy does.
    pub fn on_event(&mut self, e: &Seen) -> (actions: Vec<StrategyAction>)
        ensures
            (*final(self), actions@) == step(*old(self), *e),
    {
        let mut actions: Vec<StrategyAction> = Vec::new();
        assert(actions@ =~= seq![]);
        let ten: Span = Span { ms: 10_000, secs: 0x4024_0000_0000_0000 };
        if !e.is_fair_value || e.tau.below(ten) || too_soon(e.ts_ms, self.last_action_ms, PAUSE_MS) {
            return actions;
        }
        match self.in_position {
            Some(held) => {
                if less(absolute(e.z), Z_EXIT) {
                    if push_sell(&mut actions, &e.quotes, held, self.order_size) {
                        self.in_position = None;
                        self.last_action_ms = e.ts_ms;
                    }
                    assert(actions@ =~= strategy::sell_above(e.quotes, held, self.order_size));
                    return actions;
                }
            },
            None => {},
        }
        let wanted: Option<TokenSide> = if less(Z_ENTRY, e.z) {
            Some(TokenSide::Down)
        } else if less(e.z, Z_ENTRY_BELOW) {
            Some(TokenSide::Up)
        } else {
            None
        };
        match wanted {
            Some(t) => {
                if push_buy(&mut actions, &e.quotes, t, self.order_size) {
                    self.in_position = Some(t);
                    self.last_action_ms = e.ts_ms;
                }
                let _ = push_sell(&mut actions, &e.quotes, other_token(t), self.order_size);
                assert(actions@ =~= strategy::buy_below(e.quotes, t, self.order_size)
                    + strategy::sell_above(e.quotes, strategy::other(t), self.order_size));
            },
            None => {},
        }
        actions
    }
}

// Laws

/// A price is bet on to come back: where it lies more than 1.5 above its middle the second token is
/// bought and the first one sold, where it lies as far below the first is bought and the second
/// sold. What was bought is held from then on.
pub proof fn bets_are_on_the_middle(s: MeanRevertStrategy, e: Seen)
    requires
        e.is_fair_value,
        !strategy::has_less(e.tau, 10_000, 0x4024_0000_0000_0000),
        e.ts_ms - s.last_action_ms >= 1000,
        s.in_position is None || !float::lt(float::abs(e.z), 0x3FE0_0000_0000_0000),
    ensures
        ({
            let (t, actions) = step(s, e);
            let high = float::lt(0x3FF8_0000_0000_0000, e.z);
            let low = !high && float::lt(e.z, 0xBFF8_0000_0000_0000);
            let buys_down = high && e.quotes.down.below_ask is Some && float::lt(
                0,
                e.quotes.down.below_ask->0,
            );
            let buys_up = low && e.quotes.up.below_ask is Some && float::lt(
                0,
                e.quotes.up.below_ask->0,
            );
            &&& actions == strategy::order_if(
                buys_down,
                TokenSide::Down,
                OrderSide::Bid,
                e.quotes.down.below_ask->0,
                s.order_size,
            ) + strategy::order_if(
                buys_up,
                TokenSide::Up,
                OrderSide::Bid,
                e.quotes.up.below_ask->0,
                s.order_size,
            ) + strategy::order_if(
                high && e.quotes.up.above_bid is Some && float::lt(
                    s.order_size,
                    e.quotes.up.sellable,
                ),
                TokenSide::Up,
                OrderSide::Ask,
                e.quotes.up.above_bid->0,
                s.order_size,
            ) + strategy::order_if(
                low && e.quotes.down.above_bid is Some && float::lt(
                    s.order_size,
                    e.quotes.down.sellable,
                ),
                TokenSide::Down,
                OrderSide::Ask,
                e.quotes.down.above_bid->0,
                s.order_size,
            )
            &&& t == (MeanRevertStrategy {
                in_position: if buys_down {
                    Some(TokenSide::Down)
                } else if buys_up {
                    Some(TokenSide::Up)
                } else {
                    s.in_position
                },
                last_action_ms: if buys_down || buys_up { e.ts_ms } else { s.last_action_ms },
                ..s
            })
        }),
{
}

/// Once the price is within 0.5 of its middle, what is held is sold, and nothing else is done; it
/// is held no longer once the sale was asked for.
pub proof fn bets_are_closed_at_the_middle(s: MeanRevertStrategy, e: Seen)
    requires
        e.is_fair_value,
        !strategy::has_less(e.tau, 10_000, 0x4024_0000_0000_0000),
        e.ts_ms - s.last_action_ms >= 1000,
        s.in_position is Some,
        float::lt(float::abs(e.z), 0x3FE0_0000_0000_0000),
    ensures
        ({
            let (t, actions) = step(s, e);
            let token = s.in_position->0;
            let q = if token == TokenSide::Up { e.quotes.up } else { e.quotes.down };
            let sells = q.above_bid is Some && float::lt(s.order_size, q.sellable);
            &&& actions == strategy::order_if(
                sells,
                token,
                OrderSide::Ask,
                q.above_bid->0,
                s.order_size,
            )
            &&& sells ==> t == (MeanRevertStrategy {
                in_position: None,
                last_action_ms: e.ts_ms,
                ..s
            })
            &&& !sells ==> t == s
        }),
{
}

/// Nothing is done without a sample of the fair value, in the last ten seconds, or within a second
/// of the last action.
pub proof fn pauses_are_kept(s: MeanRevertStrategy, e: Seen)
    requires
        !e.is_fair_value || strategy::has_less(e.tau, 10_000, 0x4024_0000_0000_0000) || e.ts_ms
            - s.last_action_ms < 1000,
    ensures
        step(s, e) == (s, Seq::<StrategyAction>::empty()),
{
}

} // verus!
