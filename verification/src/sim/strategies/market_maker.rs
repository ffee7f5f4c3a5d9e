//! A strategy that quotes both sides around the fair value.

use vstd::prelude::*;

use crate::float;
use crate::float::{at_most, less, positive};
use crate::sim::engine::{HIGHEST_PRICE, LOWEST_PRICE};
use crate::sim::market_data;
use crate::sim::market_data::{Span, Tau, TokenSide};
use crate::sim::order::OrderSide;
use crate::sim::strategy;
use crate::sim::strategy::{too_soon, StrategyAction};

verus! {

/// The most shares of a token, 150.
pub const MAX_POSITION: u64 = 0x4062_C000_0000_0000;

/// Milliseconds between two quotes.
pub const REQUOTE_MS: u64 = 1000;

/// The strategy.
#[derive(Clone, Copy, Debug, PartialEq, Eq, Structural)]
pub struct MarketMakerStrategy {
    pub half_spread: u64,
    pub order_size: u64,
    pub split: u64,
    pub last_quote_ms: i64,
}

/// What the strategy is told: whether fair value or book have changed, the time, what is left of
/// it, whether it has live orders, the prices that it would quote for both tokens, and what it
/// holds of them: all shares, and those that can be sold.
#[derive(Clone, Copy, Debug, PartialEq, Eq, Structural)]
pub struct Seen {
    pub may_quote: bool,
    pub ts_ms: i64,
    pub tau: Tau,
    pub has_orders: bool,
    pub bid: u64,
    pub ask: u64,
    pub down_bid: u64,
    pub down_ask: u64,
    pub up_total: u64,
    pub up_sellable: u64,
    pub down_total: u64,
    pub down_sellable: u64,
}

/// All live orders are cancelled, where there are any.
pub open spec fn cancel_live(e: Seen) -> Seq<StrategyAction> {
    if e.has_orders { seq![StrategyAction::CancelAll] } else { seq![] }
}

/// An action that is taken on a condition.
pub open spec fn when(b: bool, a: StrategyAction) -> Seq<StrategyAction> {
    if b { seq![a] } else { seq![] }
}

/// The prices can be quoted: they do not cross and lie between the lowest and the highest.
pub open spec fn can_quote(bid: u64, ask: u64) -> bool {
    !(float::le(ask, bid) || float::lt(bid, LOWEST_PRICE) || float::lt(HIGHEST_PRICE, ask))
}

/// The quotes: both sides of both tokens, as far as little enough is held or enough can be sold.
pub open spec fn quotes(e: Seen, size: u64) -> Seq<StrategyAction> {
    when(
        float::lt(e.up_total, MAX_POSITION),
        strategy::buy(TokenSide::Up, e.bid, size),
    ) + when(float::lt(size, e.up_sellable), strategy::sell(TokenSide::Up, e.ask, size)) + when(
        float::pos(e.down_bid) && float::lt(e.down_bid, e.down_ask) && float::lt(
            e.down_total,
            MAX_POSITION,
        ),
        strategy::buy(TokenSide::Down, e.down_bid, size),
    ) + when(
        float::lt(e.down_ask, float::ONE) && float::lt(size, e.down_sellable),
        strategy::sell(TokenSide::Down, e.down_ask, size),
    )
}

/// What the strategy does: it quotes anew from time to time, and only cancels near the end.
pub open spec fn step(s: MarketMakerStrategy, e: Seen) -> (MarketMakerStrategy, Seq<StrategyAction>) {
    if !e.may_quote || e.ts_ms - s.last_quote_ms < REQUOTE_MS {
        (s, seq![])
    } else if market_data::is_below(e.tau, market_data::fifteen_secs()) {
        (s, cancel_live(e))
    } else if !can_quote(e.bid, e.ask) {
        (s, seq![])
    } else {
        (
            MarketMakerStrategy { last_quote_ms: e.ts_ms, ..s },
            cancel_live(e) + quotes(e, s.order_size),
        )
    }
}

fn push_order(
    actions: &mut Vec<StrategyAction>,
    b: bool,
    token: TokenSide,
    side: OrderSide,
    price: u64,
    size: u64,
)
    ensures
        final(actions)@ == old(actions)@ + when(
            b,
            StrategyAction::PlaceOrder { token, side, price, size },
        ),
{
    let ghost was = actions@;
    if b {
        actions.push(StrategyAction::PlaceOrder { token, side, price, size });
    }
    assert(actions@ =~= was + when(b, StrategyAction::PlaceOrder { token, side, price, size }));
}

impl MarketMakerStrategy {
    /// A strategy that quotes around the fair value, with orders of a size.
    pub fn new(half_spread: u64, order_size: u64, split: u64) -> (s: MarketMakerStrategy)
        ensures
            s == (MarketMakerStrategy { half_spread, order_size, split, last_quote_ms: 0 }),
    {
        MarketMakerStrategy { half_spread, order_size, split, last_quote_ms: 0 }
    }

    /// What the strategy does.
    pub fn on_event(&mut self, e: &Seen) -> (actions: Vec<StrategyAction>)
        ensures
            (*final(self), actions@) == step(*old(self), *e),
    {
        let mut actions: Vec<StrategyAction> = Vec::new();
        assert(actions@ =~= seq![]);
        if !e.may_quote || too_soon(e.ts_ms, self.last_quote_ms, REQUOTE_MS) {
            return actions;
        }
        let fifteen: Span = Span { ms: 15_000, secs: 0x402E_0000_0000_0000 };
        if e.tau.below(fifteen) {
            if e.has_orders {
                actions.push(StrategyAction::CancelAll);
            }
            assert(actions@ =~= cancel_live(*e));
            return actions;
        }
        if at_most(e.ask, e.bid) || less(e.bid, LOWEST_PRICE) || less(HIGHEST_PRICE, e.ask) {
            return actions;
        }
        if e.has_orders {
            actions.push(StrategyAction::CancelAll);
        }
        assert(actions@ =~= cancel_live(*e));
        let size: u64 = self.order_size;
        push_order(
            &mut actions,
            less(e.up_total, MAX_POSITION),
            TokenSide::Up,
            OrderSide::Bid,
            e.bid,
            size,
        );
        push_order(
            &mut actions,
            less(size, e.up_sellable),
            TokenSide::Up,
            OrderSide::Ask,
            e.ask,
            size,
        );
        push_order(
            &mut actions,
            positive(e.down_bid) && less(e.down_bid, e.down_ask) && less(e.down_total, MAX_POSITION),
            TokenSide::Down,
            OrderSide::Bid,
            e.down_bid,
            size,
        );
        push_order(
            &mut actions,
            less(e.down_ask, float::ONE) && less(size, e.down_sellable),
            TokenSide::Down,
            OrderSide::Ask,
            e.down_ask,
            size,
        );
        assert(actions@ =~= cancel_live(*e) + quotes(*e, size));
        self.last_quote_ms = e.ts_ms;
        actions
    }
}

// Laws

/// Both sides of both tokens are quoted at their own prices: a token is bid for while less than 150
/// shares of it are held, and offered while more of it can be sold than the size. The second token
/// is bid for only at a positive price below its ask, and offered only below one. Live orders are
/// cancelled before.
pub proof fn both_sides_are_quoted(s: MarketMakerStrategy, e: Seen)
    requires
        e.may_quote,
        e.ts_ms - s.last_quote_ms >= 1000,
        !strategy::has_less(e.tau, 15_000, 0x402E_0000_0000_0000),
        !float::le(e.ask, e.bid),
        !float::lt(e.bid, 0x3F84_7AE1_47AE_147B),
        !float::lt(0x3FEF_AE14_7AE1_47AE, e.ask),
    ensures
        ({
            let (t, actions) = step(s, e);
            &&& actions == (if e.has_orders {
                seq![StrategyAction::CancelAll]
            } else {
                seq![]
            }) + strategy::order_if(
                float::lt(e.up_total, 0x4062_C000_0000_0000),
                TokenSide::Up,
                OrderSide::Bid,
                e.bid,
                s.order_size,
            ) + strategy::order_if(
                float::lt(s.order_size, e.up_sellable),
                TokenSide::Up,
                OrderSide::Ask,
                e.ask,
                s.order_size,
            ) + strategy::order_if(
                float::lt(0, e.down_bid) && float::lt(e.down_bid, e.down_ask) && float::lt(
                    e.down_total,
                    0x4062_C000_0000_0000,
                ),
                TokenSide::Down,
                OrderSide::Bid,
                e.down_bid,
                s.order_size,
            ) + strategy::order_if(
                float::lt(e.down_ask, 0x3FF0_0000_0000_0000) && float::lt(
                    s.order_size,
                    e.down_sellable,
                ),
                TokenSide::Down,
                OrderSide::Ask,
                e.down_ask,
                s.order_size,
            )
            &&& t == (MarketMakerStrategy { last_quote_ms: e.ts_ms, ..s })
        }),
{
}

/// In the last fifteen seconds nothing is quoted, and what is live is cancelled. Nothing is done
/// within a second of the last quotes, or at prices that cross or lie outside 0.01 and 0.99.
pub proof fn quotes_end_in_time(s: MarketMakerStrategy, e: Seen)
    ensures
        e.may_quote && e.ts_ms - s.last_quote_ms >= 1000 && strategy::has_less(
            e.tau,
            15_000,
            0x402E_0000_0000_0000,
        ) ==> step(s, e) == (
            s,
            if e.has_orders {
                seq![StrategyAction::CancelAll]
            } else {
                Seq::<StrategyAction>::empty()
            },
        ),
        !e.may_quote || e.ts_ms - s.last_quote_ms < 1000 ==> step(s, e) == (
            s,
            Seq::<StrategyAction>::empty(),
        ),
        !strategy::has_less(e.tau, 15_000, 0x402E_0000_0000_0000) && (float::le(e.ask, e.bid)
            || float::lt(e.bid, 0x3F84_7AE1_47AE_147B) || float::lt(0x3FEF_AE14_7AE1_47AE, e.ask))
            ==> step(s, e) == (s, Seq::<StrategyAction>::empty()),
{
}

} // verus!
