//! A strategy that trades where the price is off the fair value.

use vstd::prelude::*;
use vstd::string::*;

use crate::float;
use crate::float::{less, negated, positive};
use crate::sim::market_data;
use crate::sim::market_data::{FairSample, Span, Tau, TokenSide};
use crate::sim::order::OrderSide;
use crate::sim::strategy;
use crate::sim::strategy::{other_token, too_soon, StrategyAction};

verus! {

/// The most shares of a token, 200.
pub const MAX_POSITION: u64 = 0x4069_0000_0000_0000;

/// The bits of one half.
pub const HALF: u64 = 0x3FE0_0000_0000_0000;

/// Milliseconds between two orders.
pub const PAUSE_MS: u64 = 500;

/// The strategy.
#[derive(Clone, Copy, Debug, PartialEq, Eq, Structural)]
pub struct FairValueStrategy {
    pub edge_threshold: u64,
    pub order_size: u64,
    pub split: u64,
    pub use_lstm: bool,
    pub last_order_ms: i64,
}

/// What the strategy is told of a token: its best bid, zero where there is none, the price above
/// it, the shares that can be sold, and all shares.
#[derive(Clone, Copy, Debug, PartialEq, Eq, Structural)]
pub struct Holding {
    pub bid: u64,
    pub above_bid: u64,
    pub sellable: u64,
    pub total: u64,
}

/// What the strategy is told: whether the fair value was sampled, the time, what is left of it,
/// whether it has live orders, how far the fair value lies above the price, and what it holds.
#[derive(Clone, Copy, Debug, PartialEq, Eq, Structural)]
pub struct Seen {
    pub is_fair_value: bool,
    pub ts_ms: i64,
    pub tau: Tau,
    pub has_orders: bool,
    pub edge: u64,
    pub up: Holding,
    pub down: Holding,
}

/// The fair value that the strategy goes by: that of the model where it is asked for and there is
/// one, or else the one that was computed, or one half.
pub open spec fn value_used(use_lstm: bool, fair: Option<FairSample>) -> u64 {
    match fair {
        Some(f) => match f.lstm_fair_yes {
            Some(l) => if use_lstm { l } else { f.fair_yes },
            None => f.fair_yes,
        },
        None => HALF,
    }
}

/// What is told of a token.
pub open spec fn holding_of(e: Seen, t: TokenSide) -> Holding {
    match t {
        TokenSide::Up => e.up,
        TokenSide::Down => e.down,
    }
}

/// The token that is too cheap.
pub open spec fn cheap(edge: u64, threshold: u64) -> Option<TokenSide> {
    if float::lt(threshold, edge) {
        Some(TokenSide::Up)
    } else if float::lt(edge, float::neg(threshold)) {
        Some(TokenSide::Down)
    } else {
        None
    }
}

/// Buys a token, where less than the most is held.
pub open spec fn buy_some(e: Seen, t: TokenSide, size: u64) -> Seq<StrategyAction> {
    if float::lt(holding_of(e, t).total, MAX_POSITION) {
        seq![strategy::buy(t, holding_of(e, t).above_bid, size)]
    } else {
        seq![]
    }
}

/// Sells a token, where more than the size can be sold and there is a bid.
pub open spec fn sell_some(e: Seen, t: TokenSide, size: u64) -> Seq<StrategyAction> {
    if float::lt(size, holding_of(e, t).sellable) && float::pos(holding_of(e, t).bid) {
        seq![strategy::sell(t, holding_of(e, t).above_bid, size)]
    } else {
        seq![]
    }
}

/// What the strategy does: it cancels what is live, buys the token that is too cheap, and sells
/// the other.
pub open spec fn step(s: FairValueStrategy, e: Seen) -> (FairValueStrategy, Seq<StrategyAction>) {
    if !e.is_fair_value || market_data::is_below(e.tau, market_data::five_secs()) || e.ts_ms
        - s.last_order_ms < PAUSE_MS {
        (s, seq![])
    } else {
        let cancel = if e.has_orders { seq![StrategyAction::CancelAll] } else { seq![] };
        match cheap(e.edge, s.edge_threshold) {
            Some(t) => (
                if buy_some(e, t, s.order_size).len() > 0 {
                    FairValueStrategy { last_order_ms: e.ts_ms, ..s }
                } else {
                    s
                },
                cancel + buy_some(e, t, s.order_size) + sell_some(
                    e,
                    strategy::other(t),
                    s.order_size,
                ),
            ),
            None => (s, cancel),
        }
    }
}

impl Seen {
    fn holding(&self, t: TokenSide) -> (h: Holding)
        ensures
            h == holding_of(*self, t),
    {
        match t {
            TokenSide::Up => self.up,
            TokenSide::Down => self.down,
        }
    }
}

impl FairValueStrategy {
    /// A strategy that trades from a threshold on, with orders of a size.
    pub fn new(edge_threshold: u64, order_size: u64, split: u64, use_lstm: bool) -> (s:
        FairValueStrategy)
        ensures
            s == (FairValueStrategy {
                edge_threshold,
                order_size,
                split,
                use_lstm,
                last_order_ms: 0,
            }),
    {
        FairValueStrategy { edge_threshold, order_size, split, use_lstm, last_order_ms: 0 }
    }

    /// The name of the strategy.
    pub fn name(&self) -> (s: String)
        ensures
            s@ == (if self.use_lstm { "fv_lstm"@ } else { "fv_analytical"@ }),
    {
        if self.use_lstm {
            "fv_lstm".to_owned()
        } else {
            "fv_analytical".to_owned()
        }
    }

    /// The fair value that the strategy goes by.
    pub fn fair_value(&self, fair: &Option<FairSample>) -> (v: u64)
        ensures
            v == value_used(self.use_lstm, *fair),
    {
        match fair {
            Some(f) => match f.lstm_fair_yes {
                Some(l) => if self.use_lstm { l } else { f.fair_yes },
                None => f.fair_yes,
            },
            None => HALF,
        }
    }

    /// What the strategy does.
    pub fn on_event(&mut self, e: &Seen) -> (actions: Vec<StrategyAction>)
        ensures
            (*final(self), actions@) == step(*old(self), *e),
    {
        let mut actions: Vec<StrategyAction> = Vec::new();
        assert(actions@ =~= seq![]);
        let five: Span = Span { ms: 5000, secs: 0x4014_0000_0000_0000 };
        if !e.is_fair_value || e.tau.below(five) || too_soon(e.ts_ms, self.last_order_ms, PAUSE_MS) {
            return actions;
        }
        if e.has_orders {
            actions.push(StrategyAction::CancelAll);
        }
        let ghost cancel = actions@;
        assert(cancel =~= if e.has_orders { seq![StrategyAction::CancelAll] } else { seq![] });
        let wanted: Option<TokenSide> = if less(self.edge_threshold, e.edge) {
            Some(TokenSide::Up)
        } else if less(e.edge, negated(self.edge_threshold)) {
            Some(TokenSide::Down)
        } else {
            None
        };
        match wanted {
            Some(t) => {
                let h: Holding = e.holding(t);
                if less(h.total, MAX_POSITION) {
                    actions.push(
                        StrategyAction::PlaceOrder {
                            token: t,
                            side: OrderSide::Bid,
                            price: h.above_bid,
                            size: self.order_size,
                        },
                    );
                    self.last_order_ms = e.ts_ms;
                }
                let o: TokenSide = other_token(t);
                let g: Holding = e.holding(o);
                if less(self.order_size, g.sellable) && positive(g.bid) {
                    actions.push(
                        StrategyAction::PlaceOrder {
                            token: o,
                            side: OrderSide::Ask,
                            price: g.above_bid,
                            size: self.order_size,
                        },
                    );
                }
                assert(actions@ =~= cancel + buy_some(*e, t, self.order_size) + sell_some(
                    *e,
                    strategy::other(t),
                    self.order_size,
                ));
            },
            None => {},
        }
        actions
    }
}

// Laws

/// Where the fair value lies far enough above the price, the token is bought just above its best
/// bid, unless 200 shares of it are held, and the other one sold, as far as it is there and there
/// is a bid. Where it lies far enough below, the same is done with the tokens exchanged. Otherwise
/// nothing is traded. Live orders are cancelled before.
pub proof fn edges_are_traded(s: FairValueStrategy, e: Seen)
    requires
        e.is_fair_value,
        !strategy::has_less(e.tau, 5000, 0x4014_0000_0000_0000),
        e.ts_ms - s.last_order_ms >= 500,
    ensures
        ({
            let (t, actions) = step(s, e);
            let high = float::lt(s.edge_threshold, e.edge);
            let low = !high && float::lt(e.edge, float::neg(s.edge_threshold));
            let bought = (high && float::lt(e.up.total, 0x4069_0000_0000_0000)) || (low
                && float::lt(e.down.total, 0x4069_0000_0000_0000));
            &&& actions == (if e.has_orders {
                seq![StrategyAction::CancelAll]
            } else {
                seq![]
            }) + strategy::order_if(
                high && float::lt(e.up.total, 0x4069_0000_0000_0000),
                TokenSide::Up,
                OrderSide::Bid,
                e.up.above_bid,
                s.order_size,
            ) + strategy::order_if(
                low && float::lt(e.down.total, 0x4069_0000_0000_0000),
                TokenSide::Down,
                OrderSide::Bid,
                e.down.above_bid,
                s.order_size,
            ) + strategy::order_if(
                high && float::lt(s.order_size, e.down.sellable) && float::lt(0, e.down.bid),
                TokenSide::Down,
                OrderSide::Ask,
                e.down.above_bid,
                s.order_size,
            ) + strategy::order_if(
                low && float::lt(s.order_size, e.up.sellable) && float::lt(0, e.up.bid),
                TokenSide::Up,
                OrderSide::Ask,
                e.up.above_bid,
                s.order_size,
            )
            &&& t == (FairValueStrategy {
                last_order_ms: if bought { e.ts_ms } else { s.last_order_ms },
                ..s
            })
        }),
{
}

/// Nothing is done without a sample of the fair value, in the last five seconds, or within half a
/// second of the last purchase.
pub proof fn pauses_are_kept(s: FairValueStrategy, e: Seen)
    requires
        !e.is_fair_value || strategy::has_less(e.tau, 5000, 0x4014_0000_0000_0000) || e.ts_ms
            - s.last_order_ms < 500,
    ensures
        step(s, e) == (s, Seq::<StrategyAction>::empty()),
{
}

/// The value of the model is gone by exactly where it is asked for and there is one.
pub proof fn models_are_gone_by(use_lstm: bool, f: FairSample)
    ensures
        use_lstm && f.lstm_fair_yes is Some ==> Some(value_used(use_lstm, Some(f)))
            == f.lstm_fair_yes,
        !use_lstm || f.lstm_fair_yes is None ==> value_used(use_lstm, Some(f)) == f.fair_yes,
        value_used(use_lstm, None) == 0x3FE0_0000_0000_0000,
{
}

} // verus!
