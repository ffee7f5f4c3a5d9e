//! What strategies ask for in a simulation, and what they are told.

use vstd::prelude::*;

use crate::float;
use crate::float::less;
use crate::sim::market_data::{Tau, TokenSide};
use crate::sim::order::OrderSide;

verus! {

/// Something that a strategy asks for.
#[derive(Clone, Copy, Debug, PartialEq, Eq, Structural)]
pub enum StrategyAction {
    PlaceOrder { token: TokenSide, side: OrderSide, price: u64, size: u64 },
    CancelOrder { order_id: u64 },
    CancelAll,
}

/// What a strategy is told of a token: a price below the best ask and one above the best bid,
/// where there are any, the shares that can be sold, and all shares.
#[derive(Clone, Copy, Debug, PartialEq, Eq, Structural)]
pub struct TokenQuote {
    pub below_ask: Option<u64>,
    pub above_bid: Option<u64>,
    pub sellable: u64,
    pub total: u64,
}

/// What a strategy is told of both tokens.
#[derive(Clone, Copy, Debug, PartialEq, Eq, Structural)]
pub struct Quotes {
    pub up: TokenQuote,
    pub down: TokenQuote,
}

/// What a strategy is told of a token.
pub open spec fn quote_of(q: Quotes, t: TokenSide) -> TokenQuote {
    match t {
        TokenSide::Up => q.up,
        TokenSide::Down => q.down,
    }
}

/// The other token.
pub open spec fn other(t: TokenSide) -> TokenSide {
    match t {
        TokenSide::Up => TokenSide::Down,
        TokenSide::Down => TokenSide::Up,
    }
}

impl Quotes {
    /// What is told of a token.
    pub fn of(&self, t: TokenSide) -> (q: TokenQuote)
        ensures
            q == quote_of(*self, t),
    {
        match t {
            TokenSide::Up => self.up,
            TokenSide::Down => self.down,
        }
    }
}

/// The other token.
pub fn other_token(t: TokenSide) -> (r: TokenSide)
    ensures
        r == other(t),
{
    match t {
        TokenSide::Up => TokenSide::Down,
        TokenSide::Down => TokenSide::Up,
    }
}

/// An order to buy.
pub open spec fn buy(t: TokenSide, price: u64, size: u64) -> StrategyAction {
    StrategyAction::PlaceOrder { token: t, side: OrderSide::Bid, price, size }
}

/// An order to sell.
pub open spec fn sell(t: TokenSide, price: u64, size: u64) -> StrategyAction {
    StrategyAction::PlaceOrder { token: t, side: OrderSide::Ask, price, size }
}

/// An order to buy a token below the best ask, where that is a positive price.
pub open spec fn buy_below(q: Quotes, t: TokenSide, size: u64) -> Seq<StrategyAction> {
    match quote_of(q, t).below_ask {
        Some(p) => if float::pos(p) { seq![buy(t, p, size)] } else { seq![] },
        None => seq![],
    }
}

/// An order to sell a token above the best bid, where more than its size can be sold.
pub open spec fn sell_above(q: Quotes, t: TokenSide, size: u64) -> Seq<StrategyAction> {
    match quote_of(q, t).above_bid {
        Some(p) => if float::lt(size, quote_of(q, t).sellable) {
            seq![sell(t, p, size)]
        } else {
            seq![]
        },
        None => seq![],
    }
}

/// Buys a token below the best ask.
pub fn push_buy(actions: &mut Vec<StrategyAction>, q: &Quotes, t: TokenSide, size: u64) -> (done: bool)
    ensures
        final(actions)@ == old(actions)@ + buy_below(*q, t, size),
        done == (buy_below(*q, t, size).len() > 0),
{
    let ghost was = actions@;
    match q.of(t).below_ask {
        Some(price) => {
            if less(0, price) {
                actions.push(StrategyAction::PlaceOrder { token: t, side: OrderSide::Bid, price, size });
                assert(actions@ =~= was + buy_below(*q, t, size));
                return true;
            }
        },
        None => {},
    }
    assert(actions@ =~= was + buy_below(*q, t, size));
    false
}

/// Sells a token above the best bid.
pub fn push_sell(actions: &mut Vec<StrategyAction>, q: &Quotes, t: TokenSide, size: u64) -> (done: bool)
    ensures
        final(actions)@ == old(actions)@ + sell_above(*q, t, size),
        done == (sell_above(*q, t, size).len() > 0),
{
    let ghost was = actions@;
    match q.of(t).above_bid {
        Some(price) => {
            if less(size, q.of(t).sellable) {
                actions.push(StrategyAction::PlaceOrder { token: t, side: OrderSide::Ask, price, size });
                assert(actions@ =~= was + sell_above(*q, t, size));
                return true;
            }
        },
        None => {},
    }
    assert(actions@ =~= was + sell_above(*q, t, size));
    false
}

/// Whether less than a number of milliseconds has passed since a time.
pub fn too_soon(now_ms: i64, last_ms: i64, span_ms: u64) -> (b: bool)
    ensures
        b == (now_ms - last_ms < span_ms),
{
    now_ms as i128 - (last_ms as i128) < span_ms as i128
}

// Prices of the past

/// Times and what was seen then, the latest last.
pub struct History {
    pub entries: Vec<(i64, u64)>,
}

impl View for History {
    type V = Seq<(i64, u64)>;

    open spec fn view(&self) -> Seq<(i64, u64)> {
        self.entries@
    }
}

/// Entries with one more; where there are too many, the oldest are forgotten.
pub open spec fn remembered(
    entries: Seq<(i64, u64)>,
    e: (i64, u64),
    most: int,
    forget: int,
) -> Seq<(i64, u64)> {
    let all = entries.push(e);
    if all.len() > most { all.skip(forget) } else { all }
}

/// The last entry that is no later than a time.
pub open spec fn last_before(entries: Seq<(i64, u64)>, cutoff: int) -> Option<u64>
    decreases entries.len(),
{
    if entries.len() == 0 {
        None
    } else if entries.last().0 <= cutoff {
        Some(entries.last().1)
    } else {
        last_before(entries.drop_last(), cutoff)
    }
}

impl History {
    /// Nothing is remembered.
    pub fn new() -> (h: History)
        ensures
            h@ == Seq::<(i64, u64)>::empty(),
    {
        History { entries: Vec::new() }
    }

    /// Remembers an entry. Where there are more than `most`, the oldest `forget` are forgotten.
    pub fn remember(&mut self, ts_ms: i64, value: u64, most: usize, forget: usize)
        requires
            forget <= most,
        ensures
            final(self)@ == remembered(old(self)@, (ts_ms, value), most as int, forget as int),
    {
        self.entries.push((ts_ms, value));
        if self.entries.len() > most {
            let ghost all = self.entries@;
            let mut kept: Vec<(i64, u64)> = Vec::new();
            let mut i: usize = forget;
            assert(kept@ =~= all.subrange(forget as int, i as int));
            while i < self.entries.len()
                invariant
                    forget <= i <= self.entries@.len(),
                    all == self.entries@,
                    kept@ == all.subrange(forget as int, i as int),
                decreases self.entries@.len() - i,
            {
                kept.push(self.entries[i]);
                i = i + 1;
                assert(kept@ =~= all.subrange(forget as int, i as int));
            }
            assert(kept@ =~= all.skip(forget as int));
            self.entries = kept;
        }
    }

    /// The last entry that is no later than `span_ms` before a time.
    pub fn at(&self, now_ms: i64, span_ms: u64) -> (v: Option<u64>)
        ensures
            v == last_before(self@, now_ms - span_ms),
    {
        let cutoff: i128 = now_ms as i128 - span_ms as i128;
        let mut i: usize = self.entries.len();
        assert(self@.take(self@.len() as int) =~= self@);
        while i > 0
            invariant
                i <= self.entries@.len(),
                cutoff == now_ms - span_ms,
                last_before(self@, now_ms - span_ms) == last_before(
                    self@.take(i as int),
                    now_ms - span_ms,
                ),
            decreases i,
        {
            proof {
                assert(self@.take(i as int).last() == self@[i - 1]);
                assert(self@.take(i as int).drop_last() =~= self@.take(i - 1));
            }
            let e: (i64, u64) = self.entries[i - 1];
            if e.0 as i128 <= cutoff {
                return Some(e.1);
            }
            i = i - 1;
        }
        None
    }
}

/// What is remembered never grows beyond a limit.
pub proof fn memory_is_limited(entries: Seq<(i64, u64)>, e: (i64, u64), most: int, forget: int)
    requires
        0 < forget <= most,
        entries.len() <= most,
    ensures
        remembered(entries, e, most, forget).len() <= most,
        remembered(entries, e, most, forget).last() == e,
{
}

/// Less than a number of milliseconds, or of seconds where the time is given as such, is left.
pub open spec fn has_less(tau: Tau, ms: u64, secs: u64) -> bool {
    (tau matches Tau::Left(left) ==> left < ms) && (tau matches Tau::Given(left) ==> float::lt(
        left,
        secs,
    ))
}

/// An order, if a condition holds.
pub open spec fn order_if(b: bool, token: TokenSide, side: OrderSide, price: u64, size: u64) -> Seq<
    StrategyAction,
> {
    if b {
        seq![StrategyAction::PlaceOrder { token, side, price, size }]
    } else {
        seq![]
    }
}

/// Both tokens are told apart: each is bought below its own ask, where that is a positive price,
/// and sold above its own bid, where more of it can be sold than the size.
pub proof fn tokens_are_traded_at_their_own_prices(q: Quotes, size: u64)
    ensures
        buy_below(q, TokenSide::Up, size) == order_if(
            q.up.below_ask is Some && float::lt(0, q.up.below_ask->0),
            TokenSide::Up,
            OrderSide::Bid,
            q.up.below_ask->0,
            size,
        ),
        buy_below(q, TokenSide::Down, size) == order_if(
            q.down.below_ask is Some && float::lt(0, q.down.below_ask->0),
            TokenSide::Down,
            OrderSide::Bid,
            q.down.below_ask->0,
            size,
        ),
        sell_above(q, TokenSide::Up, size) == order_if(
            q.up.above_bid is Some && float::lt(size, q.up.sellable),
            TokenSide::Up,
            OrderSide::Ask,
            q.up.above_bid->0,
            size,
        ),
        sell_above(q, TokenSide::Down, size) == order_if(
            q.down.above_bid is Some && float::lt(size, q.down.sellable),
            TokenSide::Down,
            OrderSide::Ask,
            q.down.above_bid->0,
            size,
        ),
        other(TokenSide::Up) == TokenSide::Down && other(TokenSide::Down) == TokenSide::Up,
{
}

/// The last entry before a time is one that is not later, and all behind it are later. There is
/// none only where all are later.
pub proof fn last_entries_are_found(entries: Seq<(i64, u64)>, cutoff: int)
    ensures
        match last_before(entries, cutoff) {
            Some(v) => exists|i: int|
                0 <= i < entries.len() && (#[trigger] entries[i]).1 == v && entries[i].0 <= cutoff
                    && forall|j: int| i < j < entries.len() ==> (#[trigger] entries[j]).0 > cutoff,
            None => forall|j: int| 0 <= j < entries.len() ==> (#[trigger] entries[j]).0 > cutoff,
        },
    decreases entries.len(),
{
    if entries.len() > 0 {
        let n = entries.len() - 1;
        let fewer = entries.drop_last();
        assert(entries[n] == entries.last());
        last_entries_are_found(fewer, cutoff);
        if entries.last().0 > cutoff {
            match last_before(fewer, cutoff) {
                Some(v) => {
                    let i = choose|i: int|
                        0 <= i < fewer.len() && (#[trigger] fewer[i]).1 == v && fewer[i].0 <= cutoff
                            && forall|j: int| i < j < fewer.len() ==> (#[trigger] fewer[j]).0
                            > cutoff;
                    assert(entries[i] == fewer[i]);
                    assert forall|j: int| i < j < entries.len() implies (#[trigger] entries[j]).0
                        > cutoff by {
                        if j < n {
                            assert(entries[j] == fewer[j]);
                        }
                    }
                },
                None => {
                    assert forall|j: int| 0 <= j < entries.len() implies (#[trigger] entries[j]).0
                        > cutoff by {
                        if j < n {
                            assert(entries[j] == fewer[j]);
                        }
                    }
                },
            }
        }
    }
}

/// What is remembered are the latest entries, in their order. Nothing is forgotten before there are
/// too many.
pub proof fn latest_entries_are_remembered(
    entries: Seq<(i64, u64)>,
    e: (i64, u64),
    most: int,
    forget: int,
)
    requires
        0 <= forget <= most,
    ensures
        ({
            let now = remembered(entries, e, most, forget);
            let gone = if entries.len() + 1 > most { forget } else { 0 };
            &&& now.len() == entries.len() + 1 - gone
            &&& forall|i: int| 0 <= i < now.len() - 1 ==> #[trigger] now[i] == entries[i + gone]
            &&& now[now.len() - 1] == e
        }),
{
}

} // verus!
