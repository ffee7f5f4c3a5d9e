//! A strategy that buys a token below its fair value and sells it where the two meet.
//!
//! Prices and sizes are floating-point numbers, given by their bits. Sums, differences and
//! rounded values of them arrive with each tick; what is done about them is decided here.

use vstd::prelude::*;
use vstd::string::*;

use crate::config::MARKET_DURATION;
use crate::executor::strategy;
use crate::executor::strategy::{Action, ActionResult, Num, OrderSide, Strategy, TokenSide};
use crate::float;
use crate::float::{at_most, less, positive, same};
use crate::json;
use crate::text;
use crate::text::{contains_text, Text};

verus! {

/// Seconds after the start of a market in which positions are opened.
pub const ACTIVE_WINDOW_SECS: i64 = 180;

/// Failed sales in a row after which no more are tried.
pub const MAX_SELL_ERRORS: u32 = 5;

/// Failed splits after which the strategy gives up.
pub const MAX_SPLIT_RETRIES: u32 = 5;

/// The fair value above which a token may be bought, 0.55.
pub const FV_THRESHOLD: u64 = 0x3FE1_9999_9999_999A;

/// How far the fair value has to exceed the ask, 0.05.
pub const EDGE_MIN: u64 = 0x3FA9_9999_9999_999A;

/// How close ask and fair value have to be to have met, 0.01.
pub const CONVERGENCE: u64 = 0x3F84_7AE1_47AE_147B;

/// The gain below which a loss is stopped, -0.08.
pub const STOP_LOSS: u64 = 0xBFB4_7AE1_47AE_147B;

/// The smallest size of an order, 5.
pub const MIN_ORDER_SIZE: u64 = 0x4014_0000_0000_0000;

/// Where the strategy stands.
#[derive(Clone, Copy, Debug, PartialEq, Eq, Structural)]
pub enum Phase {
    WaitingForData,
    PreMarket,
    Active,
    WindDown,
    Done,
}

/// The strategy.
pub struct FvConvergenceStrategy {
    pub phase: Phase,
    pub market_start_epoch: i64,
    pub split_requested: bool,
    pub split_confirmed: bool,
    pub split_retry_count: u32,
    pub split_retry_after_ms: Option<u64>,
    pub register_requested: bool,
    pub register_confirmed: bool,
    pub pending_buy_order_id: Option<String>,
    pub pending_buy_price_bits: u64,
    pub pending_buy_side: Option<TokenSide>,
    pub pending_sell_order_id: Option<String>,
    pub pending_sell_price_bits: u64,
    pub held_side: Option<TokenSide>,
    pub sell_error_count: u32,
    pub split_amount: u64,
}

/// What the strategy holds.
pub struct FvView {
    pub phase: Phase,
    pub market_start_epoch: i64,
    pub split_requested: bool,
    pub split_confirmed: bool,
    pub split_retry_count: u32,
    pub split_retry_after_ms: Option<u64>,
    pub register_requested: bool,
    pub register_confirmed: bool,
    pub pending_buy_order_id: Option<Text>,
    pub pending_buy_price_bits: u64,
    pub pending_buy_side: Option<TokenSide>,
    pub pending_sell_order_id: Option<Text>,
    pub pending_sell_price_bits: u64,
    pub held_side: Option<TokenSide>,
    pub sell_error_count: u32,
    pub split_amount: u64,
}

impl View for FvConvergenceStrategy {
    type V = FvView;

    open spec fn view(&self) -> FvView {
        FvView {
            phase: self.phase,
            market_start_epoch: self.market_start_epoch,
            split_requested: self.split_requested,
            split_confirmed: self.split_confirmed,
            split_retry_count: self.split_retry_count,
            split_retry_after_ms: self.split_retry_after_ms,
            register_requested: self.register_requested,
            register_confirmed: self.register_confirmed,
            pending_buy_order_id: json::opt_string(self.pending_buy_order_id),
            pending_buy_price_bits: self.pending_buy_price_bits,
            pending_buy_side: self.pending_buy_side,
            pending_sell_order_id: json::opt_string(self.pending_sell_order_id),
            pending_sell_price_bits: self.pending_sell_price_bits,
            held_side: self.held_side,
            sell_error_count: self.sell_error_count,
            split_amount: self.split_amount,
        }
    }
}

/// The best ask of a token: the price at which to bid below it, and by how much the fair value
/// exceeds the ask.
pub struct AskQuote {
    pub price: Num,
    pub edge: u64,
}

/// A token that may be bought: its fair value and its best ask.
pub struct BuyQuote {
    pub fair: u64,
    pub ask: Option<AskQuote>,
}

/// The best bid of the token that is held: the price at which to sell, and what it gains over
/// the price of entry.
pub struct BidQuote {
    pub price: Num,
    pub gain: u64,
}

/// The position that is held: its size, the part of it that can be sold, the price of entry, how
/// much would then have been sold in all, how much was bought in all, the best bid, and how far
/// the best ask lies from the fair value.
pub struct HeldQuote {
    pub held: u64,
    pub size: Num,
    pub entry: u64,
    pub sold_after: u64,
    pub bought: u64,
    pub bid: Option<BidQuote>,
    pub ask_gap: Option<u64>,
}

/// What the strategy is told at each tick: the time in seconds, a clock in milliseconds that
/// only moves forward, what is known, the quotes, and the size of its orders.
pub struct Tick {
    pub now: i64,
    pub clock_ms: u64,
    pub has_market_info: bool,
    pub has_bba: bool,
    pub has_fair_value: bool,
    pub yes: BuyQuote,
    pub no: BuyQuote,
    pub held: HeldQuote,
    pub order_size: Num,
}

/// What the strategy is told of a fill: the token, the side, the size, and what is held after it.
pub struct Fill {
    pub token_side: TokenSide,
    pub order_side: OrderSide,
    pub size: u64,
    pub held_after: u64,
}

// Signals

/// A price lies between zero and one.
pub open spec fn is_price(p: u64) -> bool {
    float::lt(0, p) && float::lt(p, float::ONE)
}

/// The price at which to buy a token, if it is worth it: its fair value is high enough and
/// exceeds the ask by enough.
pub open spec fn buy_price(q: BuyQuote) -> Option<Num> {
    match q.ask {
        Some(a) => if float::lt(FV_THRESHOLD, q.fair) && float::le(EDGE_MIN, a.edge) && is_price(
            a.price.bits,
        ) {
            Some(a.price)
        } else {
            None
        },
        None => None,
    }
}

/// What to buy: the first token if it is worth it, or else the second.
pub open spec fn buy_signal(t: Tick) -> Option<(TokenSide, strategy::NumView)> {
    if !t.has_bba || !t.has_fair_value {
        None
    } else {
        match (buy_price(t.yes), buy_price(t.no)) {
            (Some(p), _) => Some((TokenSide::Yes, p@)),
            (None, Some(p)) => Some((TokenSide::No, p@)),
            (None, None) => None,
        }
    }
}

/// The price at which to stop a loss, if there is one to stop.
pub open spec fn stop_loss_signal(t: Tick) -> Option<strategy::NumView> {
    match t.held.bid {
        Some(b) => if t.has_bba && !float::le(t.held.entry, 0) && float::lt(b.gain, STOP_LOSS)
            && is_price(b.price.bits) && float::pos(t.held.size.bits) {
            Some(b.price@)
        } else {
            None
        },
        None => None,
    }
}

/// The price at which to sell because price and fair value have met.
pub open spec fn sell_signal(t: Tick) -> Option<strategy::NumView> {
    match (t.held.bid, t.held.ask_gap) {
        (Some(b), Some(gap)) => if t.has_bba && t.has_fair_value && float::le(gap, CONVERGENCE)
            && is_price(b.price.bits) && float::pos(t.held.size.bits) {
            Some(b.price@)
        } else {
            None
        },
        _ => None,
    }
}

/// A sale would exceed what was bought.
pub open spec fn over_sell(t: Tick) -> bool {
    float::lt(t.held.bought, t.held.sold_after)
}

fn lies_between(p: u64) -> (b: bool)
    ensures
        b == is_price(p),
{
    less(0, p) && less(p, float::ONE)
}

fn price_to_buy(q: &BuyQuote) -> (p: Option<&Num>)
    ensures
        match (p, buy_price(*q)) {
            (Some(p), Some(n)) => *p == n,
            (None, None) => true,
            _ => false,
        },
{
    match &q.ask {
        Some(a) => if less(FV_THRESHOLD, q.fair) && at_most(EDGE_MIN, a.edge) && lies_between(
            a.price.bits,
        ) {
            Some(&a.price)
        } else {
            None
        },
        None => None,
    }
}

/// What an optional pair of token and price holds.
pub open spec fn opt_signal(s: Option<(TokenSide, &Num)>) -> Option<(TokenSide, strategy::NumView)> {
    match s {
        Some((side, p)) => Some((side, p@)),
        None => None,
    }
}

/// What an optional price holds.
pub open spec fn opt_num(s: Option<&Num>) -> Option<strategy::NumView> {
    match s {
        Some(p) => Some(p@),
        None => None,
    }
}

/// What to buy.
pub fn compute_buy_signal(t: &Tick) -> (s: Option<(TokenSide, &Num)>)
    ensures
        opt_signal(s) == buy_signal(*t),
{
    if !t.has_bba || !t.has_fair_value {
        return None;
    }
    match price_to_buy(&t.yes) {
        Some(p) => Some((TokenSide::Yes, p)),
        None => match price_to_buy(&t.no) {
            Some(p) => Some((TokenSide::No, p)),
            None => None,
        },
    }
}

/// The price at which to stop a loss.
pub fn compute_stop_loss_signal(t: &Tick) -> (s: Option<&Num>)
    ensures
        opt_num(s) == stop_loss_signal(*t),
{
    match &t.held.bid {
        Some(b) => if t.has_bba && !at_most(t.held.entry, 0) && less(b.gain, STOP_LOSS)
            && lies_between(b.price.bits) && positive(t.held.size.bits) {
            Some(&b.price)
        } else {
            None
        },
        None => None,
    }
}

/// The price at which to sell because price and fair value have met.
pub fn compute_sell_signal(t: &Tick) -> (s: Option<&Num>)
    ensures
        opt_num(s) == sell_signal(*t),
{
    match (&t.held.bid, t.held.ask_gap) {
        (Some(b), Some(gap)) => if t.has_bba && t.has_fair_value && at_most(gap, CONVERGENCE)
            && lies_between(b.price.bits) && positive(t.held.size.bits) {
            Some(&b.price)
        } else {
            None
        },
        _ => None,
    }
}

// Ticks

/// The phase after the time and the data of a tick have been looked at.
pub open spec fn phase_at(v: FvView, t: Tick) -> Phase {
    let elapsed = t.now - v.market_start_epoch;
    match v.phase {
        Phase::PreMarket => if elapsed >= 0 && v.split_confirmed && v.register_confirmed && t.has_bba
            && t.has_fair_value {
            Phase::Active
        } else {
            Phase::PreMarket
        },
        Phase::Active => if elapsed >= ACTIVE_WINDOW_SECS {
            Phase::WindDown
        } else {
            Phase::Active
        },
        Phase::WindDown => if elapsed >= MARKET_DURATION { Phase::Done } else { Phase::WindDown },
        Phase::WaitingForData => Phase::WaitingForData,
        Phase::Done => Phase::Done,
    }
}

/// The strategy with no order to buy pending.
pub open spec fn without_buy(v: FvView) -> FvView {
    FvView {
        pending_buy_order_id: None,
        pending_buy_price_bits: 0,
        pending_buy_side: None,
        ..v
    }
}

/// A tick before the market opens: split once, and register once that is done. A split that
/// failed is tried again after its delay, and too many failures end it all.
pub open spec fn pre_market_step(v: FvView, t: Tick) -> (FvView, Seq<strategy::ActionView>) {
    if !v.split_requested && !v.split_confirmed {
        if v.split_retry_count >= MAX_SPLIT_RETRIES {
            (FvView { phase: Phase::Done, ..v }, seq![])
        } else if v.split_retry_after_ms matches Some(after) && t.clock_ms < after {
            (v, seq![])
        } else {
            (
                FvView { split_requested: true, ..v },
                seq![strategy::ActionView::SplitUsdc { amount: v.split_amount }],
            )
        }
    } else if v.split_confirmed && !v.register_requested && !v.register_confirmed {
        (
            FvView { register_requested: true, ..v },
            seq![strategy::ActionView::RegisterPositions],
        )
    } else {
        (v, seq![])
    }
}

/// An order to buy that can only rest in the book.
pub open spec fn buy_action(t: Tick, side: TokenSide, price: strategy::NumView) -> strategy::ActionView {
    strategy::place(true, OrderSide::Buy, side, price, t.order_size@)
}

/// Shares are held.
pub open spec fn is_holding(v: FvView, t: Tick) -> bool {
    v.held_side is Some && float::pos(t.held.held)
}

/// A tick at which a position may be opened. One order is pending at a time; it is replaced
/// where the signal has changed, and cancelled where there is none any more.
pub open spec fn entry_step(v: FvView, t: Tick) -> (FvView, Seq<strategy::ActionView>) {
    if is_holding(v, t) || !v.split_confirmed || !v.register_confirmed {
        (v, seq![])
    } else {
        match (v.pending_buy_order_id, buy_signal(t)) {
            (Some(id), Some((side, price))) => if !float::eq(
                price.bits,
                v.pending_buy_price_bits,
            ) || Some(side)
                != v.pending_buy_side {
                (
                    without_buy(v),
                    seq![
                        strategy::ActionView::CancelOrder { order_id: id },
                        buy_action(t, side, price),
                    ],
                )
            } else {
                (v, seq![])
            },
            (Some(id), None) => (
                without_buy(v),
                seq![strategy::ActionView::CancelOrder { order_id: id }],
            ),
            (None, Some((side, price))) => (v, seq![buy_action(t, side, price)]),
            (None, None) => (v, seq![]),
        }
    }
}

/// What is sold at a tick at which a position may be closed: all of it, at the price that stops
/// a loss, or else at the one that takes the gain; never more than was bought, never while a
/// sale is pending, and not after too many failed sales.
pub open spec fn exit_actions(v: FvView, t: Tick) -> Seq<strategy::ActionView> {
    if !is_holding(v, t) || v.sell_error_count >= MAX_SELL_ERRORS || v.pending_sell_order_id is Some {
        seq![]
    } else {
        match (stop_loss_signal(t), sell_signal(t)) {
            (Some(price), _) => if over_sell(t) {
                seq![]
            } else {
                seq![strategy::place(false, OrderSide::Sell, v.held_side->0, price, t.held.size@)]
            },
            (None, Some(price)) => if over_sell(t) {
                seq![]
            } else {
                seq![strategy::place(false, OrderSide::Sell, v.held_side->0, price, t.held.size@)]
            },
            (None, None) => seq![],
        }
    }
}

/// A tick.
pub open spec fn tick_step(v: FvView, t: Tick) -> (FvView, Seq<strategy::ActionView>) {
    if v.phase == Phase::WaitingForData {
        if !t.has_market_info {
            (v, seq![])
        } else if t.now < v.market_start_epoch + MARKET_DURATION {
            (FvView { phase: Phase::PreMarket, ..v }, seq![])
        } else {
            (FvView { phase: Phase::Done, ..v }, seq![])
        }
    } else {
        let w = FvView { phase: phase_at(v, t), ..v };
        match w.phase {
            Phase::PreMarket => pre_market_step(w, t),
            Phase::Active => if exit_actions(w, t).len() > 0 {
                (w, exit_actions(w, t))
            } else {
                entry_step(w, t)
            },
            Phase::WindDown => match w.pending_buy_order_id {
                Some(id) => (
                    without_buy(w),
                    seq![strategy::ActionView::CancelOrder { order_id: id }],
                ),
                None => (w, exit_actions(w, t)),
            },
            Phase::WaitingForData => (w, seq![]),
            Phase::Done => (w, seq![]),
        }
    }
}

// Results and fills

/// Seconds to wait before a split is tried again.
pub open spec fn split_backoff(reason: Text, retries: int) -> int {
    if text::has_infix(reason, "429"@) || text::has_infix(reason, "quota exceeded"@) {
        60
    } else if 5 * retries < 30 {
        5 * retries
    } else {
        30
    }
}

/// The strategy once a split has failed.
pub open spec fn split_failed(v: FvView, reason: Text, clock_ms: u64) -> FvView {
    let after = clock_ms + 1000 * split_backoff(reason, v.split_retry_count + 1);
    FvView {
        split_retry_count: (v.split_retry_count + 1) as u32,
        split_retry_after_ms: Some(if after <= u64::MAX { after as u64 } else { u64::MAX }),
        split_requested: false,
        ..v
    }
}

/// The strategy once it has learned what became of an action.
pub open spec fn result_step(
    v: FvView,
    action: strategy::ActionView,
    result: strategy::ResultView,
    clock_ms: u64,
) -> FvView {
    match action {
        strategy::ActionView::SplitUsdc { .. } => match result {
            strategy::ResultView::Success { .. } => FvView { split_confirmed: true, ..v },
            strategy::ResultView::DryRun { .. } => FvView { split_confirmed: true, ..v },
            strategy::ResultView::Error { reason } => split_failed(v, reason, clock_ms),
            _ => v,
        },
        strategy::ActionView::RegisterPositions => match result {
            strategy::ResultView::Success { .. } => FvView { register_confirmed: true, ..v },
            strategy::ResultView::DryRun { .. } => FvView { register_confirmed: true, ..v },
            strategy::ResultView::Error { .. } => FvView { register_requested: false, ..v },
            _ => v,
        },
        strategy::ActionView::Place { post_only, side, token, price, .. } => if post_only && side
            == OrderSide::Buy {
            match result {
                strategy::ResultView::OrderPlaced { order_id } => FvView {
                    pending_buy_order_id: Some(order_id),
                    pending_buy_price_bits: price.bits,
                    pending_buy_side: Some(token),
                    ..v
                },
                strategy::ResultView::Rejected { .. } => without_buy(v),
                strategy::ResultView::Error { .. } => without_buy(v),
                strategy::ResultView::DryRun { .. } => FvView {
                    pending_buy_order_id: Some("dry-run"@),
                    pending_buy_price_bits: price.bits,
                    ..v
                },
                _ => v,
            }
        } else if !post_only && side == OrderSide::Sell {
            match result {
                strategy::ResultView::OrderPlaced { order_id } => FvView {
                    pending_sell_order_id: Some(order_id),
                    pending_sell_price_bits: price.bits,
                    sell_error_count: 0,
                    ..v
                },
                strategy::ResultView::Error { .. } => FvView {
                    sell_error_count: (v.sell_error_count + 1) as u32,
                    pending_sell_order_id: None,
                    pending_sell_price_bits: 0,
                    ..v
                },
                strategy::ResultView::DryRun { .. } => FvView {
                    pending_sell_order_id: Some("dry-run"@),
                    pending_sell_price_bits: price.bits,
                    ..v
                },
                _ => v,
            }
        } else {
            v
        },
        _ => v,
    }
}

/// The strategy once an order has been filled.
pub open spec fn fill_step(v: FvView, f: Fill) -> FvView {
    if float::le(f.size, 0) {
        v
    } else {
        match f.order_side {
            OrderSide::Buy => FvView { held_side: Some(f.token_side), ..without_buy(v) },
            OrderSide::Sell => FvView {
                pending_sell_order_id: None,
                pending_sell_price_bits: 0,
                sell_error_count: 0,
                held_side: if float::lt(f.held_after, MIN_ORDER_SIZE) { None } else { v.held_side },
                ..v
            },
        }
    }
}

impl FvConvergenceStrategy {
    /// A strategy for a market, which splits an amount before the market opens.
    pub fn new(market_start: i64, split_amount: u64) -> (s: FvConvergenceStrategy)
        ensures
            s@ == (FvView {
                phase: Phase::WaitingForData,
                market_start_epoch: market_start,
                split_requested: false,
                split_confirmed: false,
                split_retry_count: 0,
                split_retry_after_ms: None,
                register_requested: false,
                register_confirmed: false,
                pending_buy_order_id: None,
                pending_buy_price_bits: 0,
                pending_buy_side: None,
                pending_sell_order_id: None,
                pending_sell_price_bits: 0,
                held_side: None,
                sell_error_count: 0,
                split_amount,
            }),
    {
        FvConvergenceStrategy {
            phase: Phase::WaitingForData,
            market_start_epoch: market_start,
            split_requested: false,
            split_confirmed: false,
            split_retry_count: 0,
            split_retry_after_ms: None,
            register_requested: false,
            register_confirmed: false,
            pending_buy_order_id: None,
            pending_buy_price_bits: 0,
            pending_buy_side: None,
            pending_sell_order_id: None,
            pending_sell_price_bits: 0,
            held_side: None,
            sell_error_count: 0,
            split_amount,
        }
    }

    /// Moves on to the phase that the time and the data call for.
    pub fn update_phase_with_state(&mut self, t: &Tick)
        ensures
            final(self)@ == (FvView { phase: phase_at(old(self)@, *t), ..old(self)@ }),
    {
        let elapsed: i128 = t.now as i128 - self.market_start_epoch as i128;
        match self.phase {
            Phase::PreMarket => {
                if elapsed >= 0 && self.split_confirmed && self.register_confirmed && t.has_bba
                    && t.has_fair_value {
                    self.phase = Phase::Active;
                }
            },
            Phase::Active => {
                if elapsed >= ACTIVE_WINDOW_SECS as i128 {
                    self.phase = Phase::WindDown;
                }
            },
            Phase::WindDown => {
                if elapsed >= MARKET_DURATION as i128 {
                    self.phase = Phase::Done;
                }
            },
            Phase::WaitingForData => {},
            Phase::Done => {},
        }
    }

    fn drop_buy(&mut self) -> (id: Option<String>)
        ensures
            final(self)@ == without_buy(old(self)@),
            json::opt_string(id) == old(self)@.pending_buy_order_id,
    {
        let id: Option<String> = self.pending_buy_order_id.take();
        self.pending_buy_price_bits = 0;
        self.pending_buy_side = None;
        id
    }

    /// A tick before the market opens.
    pub fn tick_pre_market(&mut self, t: &Tick) -> (actions: Vec<Action>)
        ensures
            (final(self)@, strategy::actions_view(actions@)) == pre_market_step(old(self)@, *t),
    {
        let mut actions: Vec<Action> = Vec::new();
        if !self.split_requested && !self.split_confirmed {
            if self.split_retry_count >= MAX_SPLIT_RETRIES {
                self.phase = Phase::Done;
                assert(strategy::actions_view(actions@) =~= seq![]);
                return actions;
            }
            let too_early: bool = match self.split_retry_after_ms {
                Some(after) => t.clock_ms < after,
                None => false,
            };
            if too_early {
                assert(strategy::actions_view(actions@) =~= seq![]);
                return actions;
            }
            actions.push(Action::SplitUsdc { amount: self.split_amount });
            self.split_requested = true;
            assert(strategy::actions_view(actions@) =~= seq![
                strategy::ActionView::SplitUsdc { amount: old(self).split_amount },
            ]);
        } else if self.split_confirmed && !self.register_requested && !self.register_confirmed {
            actions.push(Action::RegisterPositions);
            self.register_requested = true;
            assert(strategy::actions_view(actions@) =~= seq![
                strategy::ActionView::RegisterPositions,
            ]);
        } else {
            assert(strategy::actions_view(actions@) =~= seq![]);
        }
        actions
    }

    fn make_buy_action(t: &Tick, side: TokenSide, price: &Num) -> (a: Action)
        ensures
            a@ == buy_action(*t, side, price@),
    {
        match side {
            TokenSide::Yes => Action::PlacePostOnlyBuyYes {
                price: price.duplicate(),
                size: t.order_size.duplicate(),
            },
            TokenSide::No => Action::PlacePostOnlyBuyNo {
                price: price.duplicate(),
                size: t.order_size.duplicate(),
            },
        }
    }

    fn make_sell_action(t: &Tick, side: TokenSide, price: &Num) -> (a: Action)
        ensures
            a@ == strategy::place(false, OrderSide::Sell, side, price@, t.held.size@),
    {
        match side {
            TokenSide::Yes => Action::PlaceLimitSellYes {
                price: price.duplicate(),
                size: t.held.size.duplicate(),
            },
            TokenSide::No => Action::PlaceLimitSellNo {
                price: price.duplicate(),
                size: t.held.size.duplicate(),
            },
        }
    }

    /// A tick at which a position may be opened.
    pub fn tick_entry(&mut self, t: &Tick) -> (actions: Vec<Action>)
        ensures
            (final(self)@, strategy::actions_view(actions@)) == entry_step(old(self)@, *t),
    {
        let mut actions: Vec<Action> = Vec::new();
        if (self.held_side.is_some() && positive(t.held.held)) || !self.split_confirmed
            || !self.register_confirmed {
            assert(strategy::actions_view(actions@) =~= seq![]);
            return actions;
        }
        let signal: Option<(TokenSide, &Num)> = compute_buy_signal(t);
        if self.pending_buy_order_id.is_some() {
            let unchanged: bool = match signal {
                Some((side, price)) => same(price.bits, self.pending_buy_price_bits)
                    && self.pending_buy_side == Some(side),
                None => false,
            };
            if unchanged {
                assert(strategy::actions_view(actions@) =~= seq![]);
                return actions;
            }
            match self.drop_buy() {
                Some(order_id) => {
                    actions.push(Action::CancelOrder { order_id });
                },
                None => {},
            }
            let ghost id = old(self)@.pending_buy_order_id->0;
            match signal {
                Some((side, price)) => {
                    actions.push(FvConvergenceStrategy::make_buy_action(t, side, price));
                    assert(strategy::actions_view(actions@) =~= seq![
                        strategy::ActionView::CancelOrder { order_id: id },
                        buy_action(*t, side, price@),
                    ]);
                },
                None => {
                    assert(strategy::actions_view(actions@) =~= seq![
                        strategy::ActionView::CancelOrder { order_id: id },
                    ]);
                },
            }
            return actions;
        }
        match signal {
            Some((side, price)) => {
                actions.push(FvConvergenceStrategy::make_buy_action(t, side, price));
                assert(strategy::actions_view(actions@) =~= seq![buy_action(*t, side, price@)]);
            },
            None => {
                assert(strategy::actions_view(actions@) =~= seq![]);
            },
        }
        actions
    }

    /// What is sold at a tick at which a position may be closed.
    pub fn tick_exit(&self, t: &Tick) -> (actions: Vec<Action>)
        ensures
            strategy::actions_view(actions@) == exit_actions(self@, *t),
    {
        let mut actions: Vec<Action> = Vec::new();
        assert(strategy::actions_view(actions@) =~= seq![]);
        let side: TokenSide = match self.held_side {
            Some(side) => side,
            None => {
                return actions;
            },
        };
        if !positive(t.held.held) || self.sell_error_count >= MAX_SELL_ERRORS
            || self.pending_sell_order_id.is_some() {
            return actions;
        }
        let signal: Option<&Num> = match compute_stop_loss_signal(t) {
            Some(price) => Some(price),
            None => compute_sell_signal(t),
        };
        match signal {
            Some(price) => {
                if !less(t.held.bought, t.held.sold_after) {
                    actions.push(FvConvergenceStrategy::make_sell_action(t, side, price));
                    assert(strategy::actions_view(actions@) =~= seq![
                        strategy::place(false, OrderSide::Sell, side, price@, t.held.size@),
                    ]);
                }
            },
            None => {},
        }
        actions
    }

    fn take_split_failure(&mut self, reason: &str, clock_ms: u64)
        requires
            old(self).split_retry_count < u32::MAX,
        ensures
            final(self)@ == split_failed(old(self)@, reason@, clock_ms),
    {
        self.split_retry_count = self.split_retry_count + 1;
        let backoff: u64 = if contains_text(reason, "429") || contains_text(
            reason,
            "quota exceeded",
        ) {
            60
        } else if 5 * (self.split_retry_count as u64) < 30 {
            5 * (self.split_retry_count as u64)
        } else {
            30
        };
        let after: u128 = clock_ms as u128 + 1000 * backoff as u128;
        self.split_retry_after_ms = Some(
            if after <= u64::MAX as u128 {
                after as u64
            } else {
                u64::MAX
            },
        );
        self.split_requested = false;
    }
}

impl Strategy for FvConvergenceStrategy {
    type Tick = Tick;

    type Fill = Fill;

    open spec fn ready(&self) -> bool {
        self.split_retry_count < u32::MAX && self.sell_error_count < u32::MAX
    }

    /// What to do at a tick.
    fn on_tick(&mut self, t: &Tick) -> (actions: Vec<Action>)
        ensures
            (final(self)@, strategy::actions_view(actions@)) == tick_step(old(self)@, *t),
    {
        if self.phase == Phase::WaitingForData {
            if t.has_market_info {
                if (t.now as i128) < self.market_start_epoch as i128 + MARKET_DURATION as i128 {
                    self.phase = Phase::PreMarket;
                } else {
                    self.phase = Phase::Done;
                }
            }
            let none: Vec<Action> = Vec::new();
            assert(strategy::actions_view(none@) =~= seq![]);
            return none;
        }
        self.update_phase_with_state(t);
        match self.phase {
            Phase::PreMarket => self.tick_pre_market(t),
            Phase::Active => {
                let exits: Vec<Action> = self.tick_exit(t);
                if exits.len() > 0 {
                    assert(strategy::actions_view(exits@).len() > 0);
                    return exits;
                }
                assert(strategy::actions_view(exits@).len() == 0);
                self.tick_entry(t)
            },
            Phase::WindDown => {
                if self.pending_buy_order_id.is_some() {
                    let mut actions: Vec<Action> = Vec::new();
                    let ghost id = self@.pending_buy_order_id->0;
                    match self.drop_buy() {
                        Some(order_id) => {
                            actions.push(Action::CancelOrder { order_id });
                        },
                        None => {},
                    }
                    assert(strategy::actions_view(actions@) =~= seq![
                        strategy::ActionView::CancelOrder { order_id: id },
                    ]);
                    return actions;
                }
                self.tick_exit(t)
            },
            _ => {
                let none: Vec<Action> = Vec::new();
                assert(strategy::actions_view(none@) =~= seq![]);
                none
            },
        }
    }

    /// Learns what became of an action.
    fn on_action_result(&mut self, action: &Action, result: &ActionResult, clock_ms: u64)
        ensures
            final(self)@ == result_step(old(self)@, action@, result@, clock_ms),
    {
        match action {
            Action::SplitUsdc { .. } => match result {
                ActionResult::Success { .. } => {
                    self.split_confirmed = true;
                },
                ActionResult::DryRun { .. } => {
                    self.split_confirmed = true;
                },
                ActionResult::Error { reason } => {
                    self.take_split_failure(reason.as_str(), clock_ms);
                },
                _ => {},
            },
            Action::RegisterPositions => match result {
                ActionResult::Success { .. } => {
                    self.register_confirmed = true;
                },
                ActionResult::DryRun { .. } => {
                    self.register_confirmed = true;
                },
                ActionResult::Error { .. } => {
                    self.register_requested = false;
                },
                _ => {},
            },
            _ => match action.order() {
                Some(o) => {
                    if o.post_only && o.side == OrderSide::Buy {
                        match result {
                            ActionResult::OrderPlaced { order_id } => {
                                self.pending_buy_order_id = Some(order_id.clone());
                                self.pending_buy_price_bits = o.price.bits;
                                self.pending_buy_side = Some(o.token);
                            },
                            ActionResult::Rejected { .. } => {
                                let _ = self.drop_buy();
                            },
                            ActionResult::Error { .. } => {
                                let _ = self.drop_buy();
                            },
                            ActionResult::DryRun { .. } => {
                                self.pending_buy_order_id = Some("dry-run".to_owned());
                                self.pending_buy_price_bits = o.price.bits;
                            },
                            _ => {},
                        }
                    } else if !o.post_only && o.side == OrderSide::Sell {
                        match result {
                            ActionResult::OrderPlaced { order_id } => {
                                self.pending_sell_order_id = Some(order_id.clone());
                                self.pending_sell_price_bits = o.price.bits;
                                self.sell_error_count = 0;
                            },
                            ActionResult::Error { .. } => {
                                self.sell_error_count = self.sell_error_count + 1;
                                self.pending_sell_order_id = None;
                                self.pending_sell_price_bits = 0;
                            },
                            ActionResult::DryRun { .. } => {
                                self.pending_sell_order_id = Some("dry-run".to_owned());
                                self.pending_sell_price_bits = o.price.bits;
                            },
                            _ => {},
                        }
                    }
                },
                None => {},
            },
        }
    }

    /// Learns of a fill.
    fn on_fill(&mut self, f: &Fill)
        ensures
            final(self)@ == fill_step(old(self)@, *f),
    {
        if at_most(f.size, 0) {
            return;
        }
        match f.order_side {
            OrderSide::Buy => {
                let _ = self.drop_buy();
                self.held_side = Some(f.token_side);
            },
            OrderSide::Sell => {
                self.pending_sell_order_id = None;
                self.pending_sell_price_bits = 0;
                self.sell_error_count = 0;
                if less(f.held_after, MIN_ORDER_SIZE) {
                    self.held_side = None;
                }
            },
        }
    }
}

// Laws

/// How far a phase lies from the start.
pub open spec fn phase_rank(p: Phase) -> int {
    match p {
        Phase::WaitingForData => 0,
        Phase::PreMarket => 1,
        Phase::Active => 2,
        Phase::WindDown => 3,
        Phase::Done => 4,
    }
}

/// Phases only move forward, and only a tick moves them.
pub proof fn phases_only_advance(
    v: FvView,
    t: Tick,
    action: strategy::ActionView,
    result: strategy::ResultView,
    clock_ms: u64,
    f: Fill,
)
    ensures
        phase_rank(tick_step(v, t).0.phase) >= phase_rank(v.phase),
        result_step(v, action, result, clock_ms).phase == v.phase,
        fill_step(v, f).phase == v.phase,
{
}

/// What is asked for in each phase: nothing at the ends, no order before the market has opened
/// and everything is prepared, and no purchase once the window for it is over.
pub proof fn actions_fit_the_phase(v: FvView, t: Tick, i: int)
    requires
        0 <= i < tick_step(v, t).1.len(),
    ensures
        v.phase != Phase::WaitingForData,
        tick_step(v, t).0.phase != Phase::Done,
        tick_step(v, t).1[i] is Place ==> t.now >= v.market_start_epoch || v.phase == Phase::Active
            || v.phase == Phase::WindDown,
        tick_step(v, t).1[i] matches strategy::ActionView::Place { side, .. } && side
            == OrderSide::Buy ==> t.now < v.market_start_epoch + ACTIVE_WINDOW_SECS || v.phase
            == Phase::PreMarket,
{
}

/// Purchases only ever rest in the book; sales are never more than was bought, of the token
/// that is held, and at most one is asked for at a time.
pub proof fn sales_are_covered(v: FvView, t: Tick, i: int)
    requires
        0 <= i < tick_step(v, t).1.len(),
    ensures
        match tick_step(v, t).1[i] {
            strategy::ActionView::Place { post_only, side, token, .. } => match side {
                OrderSide::Buy => post_only && !is_holding(v, t),
                OrderSide::Sell => !post_only && !over_sell(t) && v.held_side == Some(token)
                    && v.pending_sell_order_id is None && v.sell_error_count < MAX_SELL_ERRORS
                    && tick_step(v, t).1.len() == 1,
            },
            _ => true,
        },
{
}

/// A split is not asked for again before its delay is over, nor once it has been confirmed, nor
/// after too many failures.
pub proof fn splits_are_limited(v: FvView, t: Tick, i: int)
    requires
        0 <= i < tick_step(v, t).1.len(),
        tick_step(v, t).1[i] is SplitUsdc,
    ensures
        !v.split_confirmed,
        v.split_retry_count < MAX_SPLIT_RETRIES,
        v.split_retry_after_ms matches Some(after) ==> t.clock_ms >= after,
{
}

/// There is a reason to sell what is held at its best bid: the bid loses more than 0.08 against
/// the price of entry, or ask and fair value lie no more than 0.01 apart. The bid lies between
/// zero and one, and there is something to sell.
pub open spec fn has_reason_to_sell(t: Tick, b: BidQuote) -> bool {
    &&& t.has_bba
    &&& float::lt(0, b.price.bits) && float::lt(b.price.bits, 0x3FF0_0000_0000_0000)
    &&& float::lt(0, t.held.size.bits)
    &&& (!float::le(t.held.entry, 0) && float::lt(b.gain, 0xBFB4_7AE1_47AE_147B)) || (
    t.has_fair_value && t.held.ask_gap is Some && float::le(
        t.held.ask_gap->0,
        0x3F84_7AE1_47AE_147B,
    ))
}

/// What is held is sold, whichever phase it is in: while the market is traded and while it winds
/// down, a reason to sell leads to exactly one limit sale of all that is held, at the best bid,
/// unless a sale is pending, too many have failed, more would be sold than was bought, or a
/// purchase has to be taken back first.
pub proof fn positions_are_sold(v: FvView, t: Tick, side: TokenSide, b: BidQuote)
    requires
        tick_step(v, t).0.phase == Phase::Active || (tick_step(v, t).0.phase == Phase::WindDown
            && v.pending_buy_order_id is None),
        v.phase != Phase::WaitingForData,
        v.held_side == Some(side),
        float::lt(0, t.held.held),
        v.pending_sell_order_id is None,
        v.sell_error_count < 5,
        !float::lt(t.held.bought, t.held.sold_after),
        t.held.bid == Some(b),
        has_reason_to_sell(t, b),
    ensures
        tick_step(v, t).1 == seq![
            strategy::ActionView::Place {
                post_only: false,
                side: OrderSide::Sell,
                token: side,
                price: b.price@,
                size: t.held.size@,
            },
        ],
{
}

/// Nothing is sold without a reason, at another price than the best bid, in another size than the
/// one that is held, or of another token.
pub proof fn sales_have_a_reason(v: FvView, t: Tick, i: int)
    requires
        0 <= i < tick_step(v, t).1.len(),
    ensures
        match tick_step(v, t).1[i] {
            strategy::ActionView::Place { post_only, side, token, price, size } => side
                == OrderSide::Sell ==> {
                &&& !post_only
                &&& v.held_side == Some(token) && float::lt(0, t.held.held)
                &&& t.held.bid is Some && price == t.held.bid->0.price@ && size == t.held.size@
                &&& has_reason_to_sell(t, t.held.bid->0)
                &&& v.pending_sell_order_id is None && v.sell_error_count < 5
                &&& !float::lt(t.held.bought, t.held.sold_after)
                &&& v.phase != Phase::WaitingForData && v.phase != Phase::Done
            },
            _ => true,
        },
{
}

/// A token is worth buying: its fair value lies above 0.55 and exceeds the ask by 0.05 at least,
/// and the price at which to bid lies between zero and one.
pub open spec fn is_worth_buying(q: BuyQuote) -> bool {
    &&& q.ask is Some
    &&& float::lt(0x3FE1_9999_9999_999A, q.fair)
    &&& float::le(0x3FA9_9999_9999_999A, q.ask->0.edge)
    &&& float::lt(0, q.ask->0.price.bits)
    &&& float::lt(q.ask->0.price.bits, 0x3FF0_0000_0000_0000)
}

/// The token to buy, and at which price: the first one where it is worth it, or else the second.
pub open spec fn wanted(t: Tick) -> Option<(TokenSide, strategy::NumView)> {
    if !(t.has_bba && t.has_fair_value) {
        None
    } else if is_worth_buying(t.yes) {
        Some((TokenSide::Yes, t.yes.ask->0.price@))
    } else if is_worth_buying(t.no) {
        Some((TokenSide::No, t.no.ask->0.price@))
    } else {
        None
    }
}

/// Everything is prepared for purchases, and nothing is held.
pub open spec fn may_buy(v: FvView, t: Tick) -> bool {
    &&& tick_step(v, t).0.phase == Phase::Active
    &&& v.phase != Phase::WaitingForData
    &&& v.held_side is None || !float::lt(0, t.held.held)
    &&& v.split_confirmed && v.register_confirmed
}

/// While the market is traded and nothing is held, the token that is worth it is bid for, in an
/// order that can only rest in the book. An order at another price or for another token is taken
/// back first, and one that is no longer wanted is taken back; one that still fits stays.
pub proof fn wanted_tokens_are_bid_for(v: FvView, t: Tick)
    requires
        may_buy(v, t),
    ensures
        ({
            let (after, actions) = tick_step(v, t);
            let w = wanted(t)->Some_0;
            let order = strategy::ActionView::Place {
                post_only: true,
                side: OrderSide::Buy,
                token: w.0,
                price: w.1,
                size: t.order_size@,
            };
            let cancel = strategy::ActionView::CancelOrder {
                order_id: v.pending_buy_order_id->0,
            };
            let fits = wanted(t) is Some && float::eq(
                w.1.bits,
                v.pending_buy_price_bits,
            ) && v.pending_buy_side == Some(w.0);
            match (v.pending_buy_order_id, wanted(t)) {
                (None, Some(_)) => actions == seq![order],
                (None, None) => actions.len() == 0,
                (Some(_), _) if fits => actions.len() == 0 && after.pending_buy_order_id
                    == v.pending_buy_order_id,
                (Some(_), Some(_)) => actions == seq![cancel, order]
                    && after.pending_buy_order_id is None,
                (Some(_), None) => actions == seq![cancel] && after.pending_buy_order_id is None,
            }
        }),
{
}

/// Once the time for purchases is over, an order to buy that is still pending is taken back, before
/// anything else.
pub proof fn late_purchases_are_taken_back(v: FvView, t: Tick, id: Text)
    requires
        tick_step(v, t).0.phase == Phase::WindDown,
        v.pending_buy_order_id == Some(id),
    ensures
        tick_step(v, t).1 == seq![strategy::ActionView::CancelOrder { order_id: id }],
        tick_step(v, t).0.pending_buy_order_id is None,
{
}

/// The phases follow the clock: preparation until the market starts and everything is confirmed
/// and known, trading for three minutes, winding down until the market ends after five.
pub proof fn phases_follow_the_clock(v: FvView, t: Tick)
    ensures
        v.phase == Phase::WaitingForData ==> tick_step(v, t).0.phase == (if !t.has_market_info {
            Phase::WaitingForData
        } else if t.now - v.market_start_epoch < 300 {
            Phase::PreMarket
        } else {
            Phase::Done
        }),
        v.phase == Phase::PreMarket ==> (tick_step(v, t).0.phase == Phase::Active <==> t.now
            >= v.market_start_epoch && v.split_confirmed && v.register_confirmed && t.has_bba
            && t.has_fair_value),
        v.phase == Phase::PreMarket && tick_step(v, t).0.phase == Phase::Done
            ==> v.split_retry_count >= 5 && !v.split_confirmed,
        v.phase == Phase::Active ==> tick_step(v, t).0.phase == (if t.now - v.market_start_epoch
            >= 180 {
            Phase::WindDown
        } else {
            Phase::Active
        }),
        v.phase == Phase::WindDown ==> tick_step(v, t).0.phase == (if t.now - v.market_start_epoch
            >= 300 {
            Phase::Done
        } else {
            Phase::WindDown
        }),
        v.phase == Phase::Done ==> tick_step(v, t) == (v, Seq::<strategy::ActionView>::empty()),
{
}

/// Before the market is traded, money is split once, as soon as the delay after a failure is over,
/// and the tokens are registered once the split is confirmed.
pub proof fn preparations_are_asked_for(v: FvView, t: Tick)
    requires
        v.phase == Phase::PreMarket,
        tick_step(v, t).0.phase != Phase::Active,
    ensures
        ({
            let (after, actions) = tick_step(v, t);
            let waits = v.split_retry_after_ms is Some && t.clock_ms < v.split_retry_after_ms->0;
            &&& !v.split_confirmed && !v.split_requested && v.split_retry_count < 5 && !waits
                ==> actions == seq![strategy::ActionView::SplitUsdc { amount: v.split_amount }]
                && after.split_requested
            &&& !v.split_confirmed && (v.split_requested || waits || v.split_retry_count >= 5)
                ==> actions.len() == 0
            &&& !v.split_confirmed && !v.split_requested && v.split_retry_count >= 5
                ==> after.phase == Phase::Done
            &&& v.split_confirmed && !v.register_requested && !v.register_confirmed ==> actions
                == seq![strategy::ActionView::RegisterPositions] && after.register_requested
            &&& v.split_confirmed && (v.register_requested || v.register_confirmed)
                ==> actions.len() == 0
        }),
{
}

/// An order that was placed is remembered as pending with its number and its price, and one that
/// failed is forgotten; failed sales are counted, and a sale that was placed starts the count anew.
pub proof fn orders_are_remembered(
    v: FvView,
    token: TokenSide,
    price: strategy::NumView,
    size: strategy::NumView,
    id: Text,
    reason: Text,
    clock_ms: u64,
)
    requires
        v.sell_error_count < u32::MAX,
    ensures
        ({
            let buy = strategy::place(true, OrderSide::Buy, token, price, size);
            let sell = strategy::place(false, OrderSide::Sell, token, price, size);
            let placed = strategy::ResultView::OrderPlaced { order_id: id };
            let failed = strategy::ResultView::Error { reason };
            let refused = strategy::ResultView::Rejected { reason };
            let none = FvView {
                pending_buy_order_id: None,
                pending_buy_price_bits: 0,
                pending_buy_side: None,
                ..v
            };
            &&& result_step(v, buy, placed, clock_ms) == (FvView {
                pending_buy_order_id: Some(id),
                pending_buy_price_bits: price.bits,
                pending_buy_side: Some(token),
                ..v
            })
            &&& result_step(v, buy, failed, clock_ms) == none
            &&& result_step(v, buy, refused, clock_ms) == none
            &&& result_step(v, sell, placed, clock_ms) == (FvView {
                pending_sell_order_id: Some(id),
                pending_sell_price_bits: price.bits,
                sell_error_count: 0,
                ..v
            })
            &&& result_step(v, sell, failed, clock_ms) == (FvView {
                pending_sell_order_id: None,
                pending_sell_price_bits: 0,
                sell_error_count: (v.sell_error_count + 1) as u32,
                ..v
            })
        }),
{
}

/// A preparation that succeeded, or was rehearsed, is confirmed. A split that failed is counted and
/// asked for again after a delay of a minute where too much was asked for, of five seconds for each
/// failure but thirty at most otherwise; a registration that failed is asked for again.
pub proof fn preparations_are_confirmed_or_tried_again(
    v: FvView,
    amount: u64,
    words: Text,
    clock_ms: u64,
)
    requires
        v.split_retry_count < u32::MAX,
        clock_ms <= u64::MAX - 60_000,
    ensures
        ({
            let split = strategy::ActionView::SplitUsdc { amount };
            let register = strategy::ActionView::RegisterPositions;
            let done = strategy::ResultView::Success { detail: words };
            let rehearsed = strategy::ResultView::DryRun { description: words };
            let failed = strategy::ResultView::Error { reason: words };
            let n = v.split_retry_count + 1;
            let secs = if text::has_infix(words, "429"@) || text::has_infix(
                words,
                "quota exceeded"@,
            ) {
                60int
            } else if n <= 6 {
                5 * n
            } else {
                30
            };
            &&& result_step(v, split, done, clock_ms) == (FvView { split_confirmed: true, ..v })
            &&& result_step(v, split, rehearsed, clock_ms) == (FvView {
                split_confirmed: true,
                ..v
            })
            &&& result_step(v, split, failed, clock_ms) == (FvView {
                split_retry_count: n as u32,
                split_retry_after_ms: Some((clock_ms + 1000 * secs) as u64),
                split_requested: false,
                ..v
            })
            &&& result_step(v, register, done, clock_ms) == (FvView {
                register_confirmed: true,
                ..v
            })
            &&& result_step(v, register, rehearsed, clock_ms) == (FvView {
                register_confirmed: true,
                ..v
            })
            &&& result_step(v, register, failed, clock_ms) == (FvView {
                register_requested: false,
                ..v
            })
        }),
{
}

/// A purchase that was filled is held, and no longer pending; a sale that was filled is no longer
/// pending, and where less than five shares are left, nothing is held any more. A fill of nothing
/// changes nothing.
pub proof fn fills_change_what_is_held(v: FvView, f: Fill)
    ensures
        float::le(f.size, 0) ==> fill_step(v, f) == v,
        !float::le(f.size, 0) && f.order_side == OrderSide::Buy ==> fill_step(v, f) == (FvView {
            held_side: Some(f.token_side),
            pending_buy_order_id: None,
            pending_buy_price_bits: 0,
            pending_buy_side: None,
            ..v
        }),
        !float::le(f.size, 0) && f.order_side == OrderSide::Sell ==> fill_step(v, f) == (FvView {
            pending_sell_order_id: None,
            pending_sell_price_bits: 0,
            sell_error_count: 0,
            held_side: if float::lt(f.held_after, 0x4014_0000_0000_0000) {
                None
            } else {
                v.held_side
            },
            ..v
        }),
{
}

/// Only purchases that may rest and sales at a price are remembered; what becomes of other orders
/// changes nothing.
pub proof fn other_orders_change_nothing(
    v: FvView,
    side: OrderSide,
    token: TokenSide,
    price: strategy::NumView,
    size: strategy::NumView,
    result: strategy::ResultView,
    clock_ms: u64,
)
    ensures
        result_step(
            v,
            strategy::place(true, OrderSide::Sell, token, price, size),
            result,
            clock_ms,
        ) == v,
        result_step(
            v,
            strategy::place(false, OrderSide::Buy, token, price, size),
            result,
            clock_ms,
        ) == v,
{
}

} // verus!
