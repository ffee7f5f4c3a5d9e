//! Playing a strategy against a recorded market.
//!
//! The engine keeps the orders and decides which are accepted, cancelled and filled. Sums and
//! products of prices and sizes are computed elsewhere and handed in.

use vstd::prelude::*;

use crate::float;
use crate::float::{at_most, less, same};
use crate::sim::market_data;
use crate::sim::market_data::{MarketState, TokenSide, TradeSide};
use crate::sim::order;
use crate::sim::order::{Fill, LatencyQueue, Order, OrderSide, OrderStatus};
use crate::sim::position;
use crate::sim::position::{Amounts, Position};
use crate::sim::{FillModel, SimConfig};

verus! {

/// The lowest price of an order, 0.01.
pub const LOWEST_PRICE: u64 = 0x3F84_7AE1_47AE_147B;

/// The highest price of an order, 0.99.
pub const HIGHEST_PRICE: u64 = 0x3FEF_AE14_7AE1_47AE;

/// Live orders beyond this number are looked through for those that are done with.
pub const MANY_ORDERS: usize = 100;

// Fills

/// A trade of others meets an order: it is on the other side, and its price reaches that of the
/// order, or goes through it in the conservative model.
pub open spec fn meets(model: FillModel, side: OrderSide, price: u64, trade_side: TradeSide, trade_price: u64) -> bool {
    match side {
        OrderSide::Bid => trade_side == TradeSide::Sell && (if model == FillModel::Conservative {
            float::lt(trade_price, price)
        } else {
            float::le(trade_price, price)
        }),
        OrderSide::Ask => trade_side == TradeSide::Buy && (if model == FillModel::Conservative {
            float::lt(price, trade_price)
        } else {
            float::le(price, trade_price)
        }),
    }
}

/// Whether a trade of others meets an order.
pub fn should_fill(
    model: FillModel,
    side: OrderSide,
    price: u64,
    trade_side: TradeSide,
    trade_price: u64,
) -> (b: bool)
    ensures
        b == meets(model, side, price, trade_side, trade_price),
{
    match side {
        OrderSide::Bid => trade_side == TradeSide::Sell && (if model == FillModel::Conservative {
            less(trade_price, price)
        } else {
            at_most(trade_price, price)
        }),
        OrderSide::Ask => trade_side == TradeSide::Buy && (if model == FillModel::Conservative {
            less(price, trade_price)
        } else {
            at_most(price, trade_price)
        }),
    }
}

/// Whether only a part of a trade is left for an order, because others stand before it in the
/// queue: in the model that is aware of it, at the very price of the order.
pub fn shares_queue(model: FillModel, price: u64, trade_price: u64) -> (b: bool)
    ensures
        b == (model == FillModel::QueueAware && float::eq(trade_price, price)),
{
    model == FillModel::QueueAware && same(trade_price, price)
}

/// A trade of others.
#[derive(Clone, Copy, Debug, PartialEq, Eq, Structural)]
pub struct Trade {
    pub token: TokenSide,
    pub price: u64,
    pub side: TradeSide,
}

/// An order that a trade may fill.
pub open spec fn is_candidate(o: Order, t: Trade, model: FillModel) -> bool {
    o.status == OrderStatus::Live && o.token == t.token && meets(model, o.side, o.price, t.side, t.price)
}

/// What was computed for a fill: its size, the size without a trifle, how much of the order is
/// filled then, the size of the order without the trifle, and the position after it.
#[derive(Clone, Copy, Debug, PartialEq, Eq, Structural)]
pub struct FillAmounts {
    pub size: u64,
    pub size_less: u64,
    pub filled: u64,
    pub order_size_less: u64,
    pub after: Amounts,
}

/// A fill can be booked: it has a size, and what is sold is there.
pub open spec fn can_book(o: Order, p: position::PositionView, a: FillAmounts) -> bool {
    !float::le(a.size, 0) && (o.side == OrderSide::Ask ==> position::covers(
        position::inventory_of(p, o.token),
        a.size_less,
    ))
}

/// An order after a fill: done with once all but a trifle is filled.
pub open spec fn filled_order(o: Order, a: FillAmounts) -> Order {
    Order {
        filled: a.filled,
        status: if float::le(a.order_size_less, a.filled) { OrderStatus::Filled } else { o.status },
        ..o
    }
}

/// The fill of an order at a time.
pub open spec fn fill_of(o: Order, now_ms: i64, a: FillAmounts) -> Fill {
    Fill {
        order_id: o.id,
        ts_ms: now_ms,
        token: o.token,
        side: o.side,
        price: o.price,
        size: a.size,
    }
}

// Cancellations

/// The place of the first live order with a number; the length where there is none.
pub open spec fn live_place(orders: Seq<Order>, id: u64) -> int
    decreases orders.len(),
{
    if orders.len() == 0 {
        0
    } else if orders[0].id == id && orders[0].status == OrderStatus::Live {
        0
    } else {
        1 + live_place(orders.drop_first(), id)
    }
}

/// Orders once the live one with a number is cancelled.
pub open spec fn cancelled(orders: Seq<Order>, id: u64) -> Seq<Order> {
    let i = live_place(orders, id);
    if i < orders.len() {
        orders.update(i, Order { status: OrderStatus::Cancelled, ..orders[i] })
    } else {
        orders
    }
}

/// Orders once all cancellations that are due have arrived, one after another.
pub open spec fn all_cancelled(orders: Seq<Order>, cancels: Seq<(u64, i64)>, now_ms: i64) -> Seq<Order>
    decreases cancels.len(),
{
    if cancels.len() == 0 {
        orders
    } else {
        let before = all_cancelled(orders, cancels.drop_last(), now_ms);
        if cancels.last().1 <= now_ms {
            cancelled(before, cancels.last().0)
        } else {
            before
        }
    }
}

/// The cancellations that are not due yet.
pub open spec fn cancels_left(cancels: Seq<(u64, i64)>, now_ms: i64) -> Seq<(u64, i64)> {
    cancels.filter(|c: (u64, i64)| !(c.1 <= now_ms))
}

proof fn lemma_live_place(orders: Seq<Order>, id: u64, i: int)
    requires
        0 <= i <= orders.len(),
        forall|k: int|
            0 <= k < i ==> !((#[trigger] orders[k]).id == id && orders[k].status == OrderStatus::Live),
        i < orders.len() ==> orders[i].id == id && orders[i].status == OrderStatus::Live,
    ensures
        live_place(orders, id) == i,
    decreases orders.len(),
{
    if orders.len() > 0 && i > 0 {
        let rest = orders.drop_first();
        assert forall|k: int| 0 <= k < i - 1 implies !((#[trigger] rest[k]).id == id
            && rest[k].status == OrderStatus::Live) by {
            assert(rest[k] == orders[k + 1]);
        }
        if i < orders.len() {
            assert(rest[i - 1] == orders[i]);
        }
        assert(!(orders[0].id == id && orders[0].status == OrderStatus::Live));
        lemma_live_place(rest, id, i - 1);
    }
}

fn cancel_live(orders: &mut Vec<Order>, id: u64)
    ensures
        final(orders)@ == cancelled(old(orders)@, id),
{
    let mut i: usize = 0;
    while i < orders.len()
        invariant
            i <= orders@.len(),
            orders@ == old(orders)@,
            forall|k: int|
                0 <= k < i ==> !((#[trigger] orders@[k]).id == id && orders@[k].status
                    == OrderStatus::Live),
        decreases orders@.len() - i,
    {
        let o: Order = orders[i];
        if o.id == id && o.status == OrderStatus::Live {
            proof {
                lemma_live_place(orders@, id, i as int);
            }
            let mut done: Order = o;
            done.status = OrderStatus::Cancelled;
            orders.set(i, done);
            return;
        }
        i = i + 1;
    }
    proof {
        lemma_live_place(orders@, id, i as int);
    }
}

/// The orders among some that are live.
pub open spec fn live_only(orders: Seq<Order>) -> Seq<Order> {
    orders.filter(|o: Order| o.status == OrderStatus::Live)
}

/// The orders among some that are live.
pub fn live_among(orders: &Vec<Order>) -> (live: Vec<Order>)
    ensures
        live@ == live_only(orders@),
{
    let mut live: Vec<Order> = Vec::new();
    let mut i: usize = 0;
    proof {
        reveal(Seq::filter);
        assert(orders@.take(0) =~= seq![]);
        assert(live@ =~= live_only(orders@.take(0)));
    }
    while i < orders.len()
        invariant
            i <= orders@.len(),
            live@ == live_only(orders@.take(i as int)),
        decreases orders@.len() - i,
    {
        proof {
            reveal(Seq::filter);
            assert(orders@.take(i + 1).drop_last() =~= orders@.take(i as int));
            assert(orders@.take(i + 1).last() == orders@[i as int]);
        }
        if orders[i].status == OrderStatus::Live {
            live.push(orders[i]);
        }
        assert(live@ =~= live_only(orders@.take(i + 1)));
        i = i + 1;
    }
    assert(orders@.take(orders@.len() as int) =~= orders@);
    live
}

// Orders

/// An order would not trade at once: it bids below the best ask, or asks above the best bid.
pub open spec fn rests(side: OrderSide, price: u64, best_bid: Option<u64>, best_ask: Option<u64>) -> bool {
    match side {
        OrderSide::Bid => match best_ask {
            Some(ask) => float::lt(price, ask),
            None => true,
        },
        OrderSide::Ask => match best_bid {
            Some(bid) => float::lt(bid, price),
            None => true,
        },
    }
}

/// Whether an order would not trade at once.
pub fn validate_maker_only(side: OrderSide, price: u64, state: &MarketState, token: TokenSide) -> (b:
    bool)
    ensures
        b == rests(
            side,
            price,
            market_data::best_bid_of(state@, token),
            market_data::best_ask_of(state@, token),
        ),
{
    match side {
        OrderSide::Bid => match state.best_ask(token) {
            Some(ask) => less(price, ask),
            None => true,
        },
        OrderSide::Ask => match state.best_bid(token) {
            Some(bid) => less(bid, price),
            None => true,
        },
    }
}

/// An order that a strategy asks for. `size_less` is the size without a trifle.
#[derive(Clone, Copy, Debug, PartialEq, Eq, Structural)]
pub struct OrderWish {
    pub token: TokenSide,
    pub side: OrderSide,
    pub price: u64,
    pub size: u64,
    pub size_less: u64,
}

/// An order is accepted: it would not trade at once, what it sells is there, its price lies
/// between the lowest and the highest, and it has a size.
pub open spec fn is_accepted(w: OrderWish, s: market_data::StateView, p: position::PositionView) -> bool {
    &&& rests(
        w.side,
        w.price,
        market_data::best_bid_of(s, w.token),
        market_data::best_ask_of(s, w.token),
    )
    &&& w.side == OrderSide::Ask ==> position::covers(
        position::inventory_of(p, w.token),
        w.size_less,
    )
    &&& !float::lt(w.price, LOWEST_PRICE)
    &&& !float::lt(HIGHEST_PRICE, w.price)
    &&& !float::le(w.size, 0)
}

/// A simulation: orders on their way, orders that have arrived, cancellations on their way, and
/// the position.
pub struct Simulation {
    pub queue: LatencyQueue,
    pub live: Vec<Order>,
    pub cancels: Vec<(u64, i64)>,
    pub next_id: u64,
    pub position: Position,
    pub config: SimConfig,
}

/// What a simulation holds.
pub struct SimView {
    pub queue: order::QueueView,
    pub live: Seq<Order>,
    pub cancels: Seq<(u64, i64)>,
    pub next_id: u64,
    pub position: position::PositionView,
    pub config: SimConfig,
}

impl View for Simulation {
    type V = SimView;

    open spec fn view(&self) -> SimView {
        SimView {
            queue: self.queue@,
            live: self.live@,
            cancels: self.cancels@,
            next_id: self.next_id,
            position: self.position@,
            config: self.config,
        }
    }
}

/// What a simulation is when an event begins: shares are unlocked, orders arrive, and then
/// cancellations.
pub open spec fn begun(s: SimView, now_ms: i64) -> SimView {
    SimView {
        queue: order::QueueView {
            pending: order::waiting_orders(s.queue.pending, now_ms),
            ..s.queue
        },
        live: all_cancelled(
            s.live + order::due_orders(s.queue.pending, now_ms),
            s.cancels,
            now_ms,
        ),
        cancels: cancels_left(s.cancels, now_ms),
        position: position::PositionView {
            up: position::InventoryView {
                locked: position::still_locked(s.position.up.locked, now_ms),
                ..s.position.up
            },
            down: position::InventoryView {
                locked: position::still_locked(s.position.down.locked, now_ms),
                ..s.position.down
            },
            ..s.position
        },
        ..s
    }
}

/// How long a cancellation takes: the middle of the latencies.
pub open spec fn cancel_latency(c: SimConfig) -> int {
    c.min_latency_ms + (c.max_latency_ms - c.min_latency_ms) / 2
}

/// The order that is sent for a wish.
pub open spec fn sent_order(s: SimView, w: OrderWish, now_ms: i64) -> Order {
    Order {
        id: s.next_id,
        token: w.token,
        side: w.side,
        price: w.price,
        size: w.size,
        filled: 0,
        submitted_at_ms: now_ms,
        live_at_ms: (now_ms + order::latency_of(
            order::next_state(s.queue.rng_state),
            s.queue.min_ms,
            s.queue.max_ms,
        )) as i64,
        status: OrderStatus::InTransit,
    }
}

/// What a simulation is once an order was asked for.
pub open spec fn placed(s: SimView, w: OrderWish, m: market_data::StateView, now_ms: i64) -> SimView {
    if is_accepted(w, m, s.position) {
        SimView {
            queue: order::QueueView {
                pending: s.queue.pending.push(sent_order(s, w, now_ms)),
                rng_state: order::next_state(s.queue.rng_state),
                ..s.queue
            },
            next_id: (s.next_id + 1) as u64,
            position: position::PositionView {
                orders_submitted: (s.position.orders_submitted + 1) as u64,
                ..s.position
            },
            ..s
        }
    } else {
        SimView {
            position: position::PositionView {
                orders_rejected: (s.position.orders_rejected + 1) as u64,
                ..s.position
            },
            ..s
        }
    }
}

/// What a simulation is once the cancellation of an order was asked for: an order on its way is
/// taken back, any other is cancelled later.
pub open spec fn cancel_asked(s: SimView, id: u64, now_ms: i64) -> SimView {
    let i = order::place_of(s.queue.pending, id);
    if i < s.queue.pending.len() {
        SimView {
            queue: order::QueueView { pending: s.queue.pending.remove(i), ..s.queue },
            ..s
        }
    } else {
        SimView {
            cancels: s.cancels.push((id, (now_ms + cancel_latency(s.config)) as i64)),
            ..s
        }
    }
}

/// Cancellations of all orders among some, arriving at a time.
pub open spec fn cancels_of(orders: Seq<Order>, at_ms: i64) -> Seq<(u64, i64)> {
    live_only(orders).map_values(|o: Order| (o.id, at_ms))
}

impl Simulation {
    /// The settings are sound, and the queue follows them.
    pub open spec fn wf(self) -> bool {
        self.config.wf() && self.queue.wf()
    }

    /// A simulation with nothing but money.
    pub fn new(config: SimConfig) -> (s: Simulation)
        requires
            config.wf(),
        ensures
            s.wf(),
            s@.queue == (order::QueueView {
                pending: seq![],
                min_ms: config.min_latency_ms,
                max_ms: config.max_latency_ms,
                rng_state: config.seed,
            }),
            s@.live == Seq::<Order>::empty(),
            s@.cancels == Seq::<(u64, i64)>::empty(),
            s@.next_id == 0,
            s@.config == config,
            s@.position == (position::PositionView {
                cash: config.capital,
                up: position::InventoryView { sellable: 0, locked: seq![] },
                down: position::InventoryView { sellable: 0, locked: seq![] },
                fills: seq![],
                total_volume: 0,
                orders_submitted: 0,
                orders_rejected: 0,
            }),
    {
        Simulation {
            queue: LatencyQueue::new(config.min_latency_ms, config.max_latency_ms, config.seed),
            live: Vec::new(),
            cancels: Vec::new(),
            next_id: 0,
            position: Position::new(config.capital),
            config,
        }
    }

    /// Begins an event, and gives the shares of both tokens that can be sold from now on.
    pub fn begin(&mut self, now_ms: i64) -> (free: (Vec<u64>, Vec<u64>))
        requires
            old(self).wf(),
        ensures
            final(self).wf(),
            final(self)@ == begun(old(self)@, now_ms),
            free.0@ == position::released(old(self)@.position.up.locked, now_ms),
            free.1@ == position::released(old(self)@.position.down.locked, now_ms),
    {
        let up: Vec<u64> = self.position.up.tick(now_ms);
        let down: Vec<u64> = self.position.down.tick(now_ms);
        let mut ready: Vec<Order> = self.queue.drain_ready(now_ms);
        let ghost orders = self.live@ + ready@;
        self.live.append(&mut ready);
        assert(self.live@ =~= orders);
        let mut left: Vec<(u64, i64)> = Vec::new();
        let ghost all = self.cancels@;
        let mut i: usize = 0;
        proof {
            reveal(Seq::filter);
            assert(all.take(0) =~= seq![]);
            assert(left@ =~= cancels_left(all.take(0), now_ms));
        }
        let ghost same_rest = *self;
        while i < self.cancels.len()
            invariant
                i <= self.cancels@.len(),
                all == self.cancels@,
                left@ == cancels_left(all.take(i as int), now_ms),
                self.live@ == all_cancelled(orders, all.take(i as int), now_ms),
                self.queue == same_rest.queue,
                self.position == same_rest.position,
                self.next_id == same_rest.next_id,
                self.config == same_rest.config,
                self.cancels == same_rest.cancels,
            decreases self.cancels@.len() - i,
        {
            let c: (u64, i64) = self.cancels[i];
            let ghost upto = all.take(i + 1);
            proof {
                reveal(Seq::filter);
                assert(upto.drop_last() =~= all.take(i as int));
                assert(upto.last() == c);
            }
            if c.1 <= now_ms {
                cancel_live(&mut self.live, c.0);
            } else {
                left.push(c);
            }
            assert(left@ =~= cancels_left(upto, now_ms));
            i = i + 1;
        }
        assert(all.take(all.len() as int) =~= all);
        self.cancels = left;
        (up, down)
    }

    /// The first order from a place on that a trade may fill.
    pub fn next_candidate(&self, from: usize, t: Trade) -> (i: Option<usize>)
        ensures
            i matches Some(i) ==> {
                let o = self@.live[i as int];
                &&& o.status == OrderStatus::Live && o.token == t.token
                &&& o.side == OrderSide::Bid ==> t.side == TradeSide::Sell && float::le(
                    t.price,
                    o.price,
                )
                &&& o.side == OrderSide::Ask ==> t.side == TradeSide::Buy && float::le(
                    o.price,
                    t.price,
                )
            },
            match i {
                Some(i) => from <= i < self@.live.len() && is_candidate(
                    self@.live[i as int],
                    t,
                    self@.config.fill_model,
                ) && forall|k: int|
                    from <= k < i ==> !is_candidate(
                        #[trigger] self@.live[k],
                        t,
                        self@.config.fill_model,
                    ),
                None => forall|k: int|
                    from <= k < self@.live.len() ==> !is_candidate(
                        #[trigger] self@.live[k],
                        t,
                        self@.config.fill_model,
                    ),
            },
    {
        let mut i: usize = from;
        while i < self.live.len()
            invariant
                from <= i,
                forall|k: int|
                    from <= k < i && k < self@.live.len() ==> !is_candidate(
                        #[trigger] self@.live[k],
                        t,
                        self@.config.fill_model,
                    ),
            decreases self.live@.len() - i,
        {
            let o: Order = self.live[i];
            if o.status == OrderStatus::Live && o.token == t.token && should_fill(
                self.config.fill_model,
                o.side,
                o.price,
                t.side,
                t.price,
            ) {
                return Some(i);
            }
            i = i + 1;
        }
        None
    }

    /// Books a fill of the order at a place, where it can be booked.
    pub fn take_fill(&mut self, i: usize, now_ms: i64, a: FillAmounts) -> (fill: Option<Fill>)
        requires
            old(self).wf(),
            i < old(self)@.live.len(),
            now_ms + order::LONGEST_LATENCY_MS <= i64::MAX,
        ensures
            final(self).wf(),
            ({
                let o = old(self)@.live[i as int];
                if can_book(o, old(self)@.position, a) {
                    &&& fill == Some(fill_of(o, now_ms, a))
                    &&& final(self)@ == (SimView {
                        live: old(self)@.live.update(i as int, filled_order(o, a)),
                        position: position::after_fill(
                            old(self)@.position,
                            fill_of(o, now_ms, a),
                            old(self)@.config.hold_cooldown_ms,
                            a.after,
                        ),
                        ..old(self)@
                    })
                } else {
                    fill is None && final(self)@ == old(self)@
                }
            }),
    {
        let o: Order = self.live[i];
        if at_most(a.size, 0) {
            return None;
        }
        if o.side == OrderSide::Ask && !self.position.inventory(o.token).can_sell(a.size_less) {
            return None;
        }
        let mut done: Order = o;
        done.filled = a.filled;
        if at_most(a.order_size_less, a.filled) {
            done.status = OrderStatus::Filled;
        }
        self.live.set(i, done);
        let fill: Fill = Fill {
            order_id: o.id,
            ts_ms: now_ms,
            token: o.token,
            side: o.side,
            price: o.price,
            size: a.size,
        };
        self.position.apply_fill(fill, self.config.hold_cooldown_ms, a.after);
        Some(fill)
    }

    /// The orders that are live.
    pub fn live_orders(&self) -> (live: Vec<Order>)
        ensures
            live@ == live_only(self@.live),
    {
        live_among(&self.live)
    }

    /// Asks for an order.
    pub fn place(&mut self, w: OrderWish, state: &MarketState, now_ms: i64) -> (accepted: bool)
        requires
            old(self).wf(),
            now_ms + order::LONGEST_LATENCY_MS <= i64::MAX,
            old(self).next_id < u64::MAX,
            old(self).position.orders_submitted < u64::MAX,
            old(self).position.orders_rejected < u64::MAX,
        ensures
            final(self).wf(),
            accepted == is_accepted(w, state@, old(self)@.position),
            final(self)@ == placed(old(self)@, w, state@, now_ms),
    {
        let covered: bool = w.side != OrderSide::Ask || self.position.inventory(w.token).can_sell(
            w.size_less,
        );
        if !validate_maker_only(w.side, w.price, state, w.token) || !covered || less(
            w.price,
            LOWEST_PRICE,
        ) || less(HIGHEST_PRICE, w.price) || at_most(w.size, 0) {
            self.position.orders_rejected = self.position.orders_rejected + 1;
            return false;
        }
        let o: Order = Order {
            id: self.next_id,
            token: w.token,
            side: w.side,
            price: w.price,
            size: w.size,
            filled: 0,
            submitted_at_ms: now_ms,
            live_at_ms: 0,
            status: OrderStatus::InTransit,
        };
        self.next_id = self.next_id + 1;
        self.position.orders_submitted = self.position.orders_submitted + 1;
        self.queue.submit(o, now_ms);
        true
    }

    fn cancel_time(&self, now_ms: i64) -> (t: i64)
        requires
            self.wf(),
            now_ms + order::LONGEST_LATENCY_MS <= i64::MAX,
        ensures
            t == now_ms + cancel_latency(self@.config),
    {
        let half: u64 = (self.config.max_latency_ms - self.config.min_latency_ms) / 2;
        now_ms + (self.config.min_latency_ms + half) as i64
    }

    /// Asks for the cancellation of an order.
    pub fn cancel(&mut self, id: u64, now_ms: i64)
        requires
            old(self).wf(),
            now_ms + order::LONGEST_LATENCY_MS <= i64::MAX,
        ensures
            final(self).wf(),
            final(self)@ == cancel_asked(old(self)@, id, now_ms),
    {
        if !self.queue.cancel_pending(id) {
            let t: i64 = self.cancel_time(now_ms);
            self.cancels.push((id, t));
        }
    }

    /// Asks for the cancellation of all live orders.
    pub fn cancel_all(&mut self, now_ms: i64)
        requires
            old(self).wf(),
            now_ms + order::LONGEST_LATENCY_MS <= i64::MAX,
        ensures
            final(self).wf(),
            final(self)@ == (SimView {
                cancels: old(self)@.cancels + cancels_of(
                    old(self)@.live,
                    (now_ms + cancel_latency(old(self)@.config)) as i64,
                ),
                ..old(self)@
            }),
    {
        let t: i64 = self.cancel_time(now_ms);
        let live: Vec<Order> = live_among(&self.live);
        let ghost was = self.cancels@;
        let ghost all = cancels_of(self.live@, t);
        let ghost same_rest = *self;
        let mut i: usize = 0;
        assert(self.cancels@ =~= was + all.take(0));
        while i < live.len()
            invariant
                i <= live@.len(),
                live@ == live_only(self.live@),
                all == cancels_of(self.live@, t),
                self.cancels@ == was + all.take(i as int),
                self.queue == same_rest.queue,
                self.position == same_rest.position,
                self.next_id == same_rest.next_id,
                self.config == same_rest.config,
                self.live == same_rest.live,
            decreases live@.len() - i,
        {
            self.cancels.push((live[i].id, t));
            i = i + 1;
            assert(self.cancels@ =~= was + all.take(i as int));
        }
        assert(all.take(all.len() as int) =~= all);
    }

    /// Forgets orders that are done with, where there are many.
    pub fn clean_up(&mut self)
        ensures
            old(self).wf() ==> final(self).wf(),
            final(self)@ == (if old(self)@.live.len() > MANY_ORDERS {
                SimView { live: live_only(old(self)@.live), ..old(self)@ }
            } else {
                old(self)@
            }),
    {
        if self.live.len() > MANY_ORDERS {
            self.live = live_among(&self.live);
        }
    }
}

/// Whether a strategy is asked at a time: only while the market runs.
pub fn is_open(now_ms: i64, start_ms: i64, end_ms: i64) -> (b: bool)
    ensures
        b == (start_ms <= now_ms <= end_ms),
{
    !(now_ms < start_ms || now_ms > end_ms)
}

// Laws

/// An order that is accepted gets a number of its own, and every wish is counted once, as sent or
/// as rejected.
pub proof fn wishes_are_counted_once(s: SimView, w: OrderWish, m: market_data::StateView, now_ms: i64)
    requires
        s.next_id < u64::MAX,
        s.position.orders_submitted < u64::MAX,
        s.position.orders_rejected < u64::MAX,
    ensures
        ({
            let t = placed(s, w, m, now_ms);
            &&& t.position.orders_submitted + t.position.orders_rejected
                == s.position.orders_submitted + s.position.orders_rejected + 1
            &&& t.next_id - s.next_id == t.position.orders_submitted - s.position.orders_submitted
            &&& t.queue.pending.len() - s.queue.pending.len() == t.next_id - s.next_id
            &&& t.next_id > s.next_id ==> t.queue.pending.last().id == s.next_id
        }),
{
}

/// The conservative model never fills an order that the aggressive one leaves, and the model that
/// is aware of the queue fills the same orders as the aggressive one.
pub proof fn models_are_nested(side: OrderSide, price: u64, trade_side: TradeSide, trade_price: u64)
    ensures
        meets(FillModel::Conservative, side, price, trade_side, trade_price) ==> meets(
            FillModel::Aggressive,
            side,
            price,
            trade_side,
            trade_price,
        ),
        meets(FillModel::QueueAware, side, price, trade_side, trade_price) == meets(
            FillModel::Aggressive,
            side,
            price,
            trade_side,
            trade_price,
        ),
{
}

/// Nobody sells what is not there: an order to sell is accepted and filled only where the shares
/// cover it.
pub proof fn sales_are_covered(
    w: OrderWish,
    m: market_data::StateView,
    p: position::PositionView,
    o: Order,
    a: FillAmounts,
)
    ensures
        w.side == OrderSide::Ask && is_accepted(w, m, p) ==> float::le(
            w.size_less,
            position::inventory_of(p, w.token).sellable,
        ),
        o.side == OrderSide::Ask && can_book(o, p, a) ==> float::le(
            a.size_less,
            position::inventory_of(p, o.token).sellable,
        ),
{
}

/// A cancellation touches one live order at most, and changes nothing but its status.
pub proof fn cancellations_touch_one_order(orders: Seq<Order>, id: u64, k: int)
    requires
        0 <= k < orders.len(),
    ensures
        cancelled(orders, id).len() == orders.len(),
        cancelled(orders, id)[k] != orders[k] ==> orders[k].id == id && orders[k].status
            == OrderStatus::Live && cancelled(orders, id)[k] == (Order {
            status: OrderStatus::Cancelled,
            ..orders[k]
        }),
{
    lemma_live_place_is_live(orders, id);
}

proof fn lemma_live_place_is_live(orders: Seq<Order>, id: u64)
    ensures
        0 <= live_place(orders, id) <= orders.len(),
        live_place(orders, id) < orders.len() ==> orders[live_place(orders, id)].id == id
            && orders[live_place(orders, id)].status == OrderStatus::Live,
    decreases orders.len(),
{
    if orders.len() > 0 {
        lemma_live_place_is_live(orders.drop_first(), id);
    }
}

/// A trade fills an order only if it is one of the same token, the order is live, and the two meet:
/// a sale meets a bid at its price or above it, a purchase an ask at its price or below it. At the
/// very price the conservative model leaves the order alone.
pub proof fn candidates_match_the_trade(o: Order, t: Trade, model: FillModel)
    ensures
        is_candidate(o, t, model) ==> {
            &&& o.token == t.token
            &&& o.status == OrderStatus::Live
            &&& o.side == OrderSide::Bid ==> t.side == TradeSide::Sell && float::le(
                t.price,
                o.price,
            )
            &&& o.side == OrderSide::Ask ==> t.side == TradeSide::Buy && float::le(
                o.price,
                t.price,
            )
            &&& float::eq(o.price, t.price) ==> model != FillModel::Conservative
        },
        o.token == t.token && o.status == OrderStatus::Live && o.side == OrderSide::Bid && t.side
            == TradeSide::Sell && (float::lt(t.price, o.price) || (float::eq(t.price, o.price)
            && model != FillModel::Conservative)) ==> is_candidate(o, t, model),
        o.token == t.token && o.status == OrderStatus::Live && o.side == OrderSide::Ask && t.side
            == TradeSide::Buy && (float::lt(o.price, t.price) || (float::eq(o.price, t.price)
            && model != FillModel::Conservative)) ==> is_candidate(o, t, model),
{
}

/// A purchase of any size can be booked, and a sale where the shares of its own token cover it; a
/// fill of nothing cannot.
pub proof fn bookings_need_size_and_shares(o: Order, p: position::PositionView, a: FillAmounts)
    ensures
        float::le(a.size, 0) ==> !can_book(o, p, a),
        !float::le(a.size, 0) && o.side == OrderSide::Bid ==> can_book(o, p, a),
        !float::le(a.size, 0) && o.side == OrderSide::Ask && o.token == TokenSide::Up ==> can_book(
            o,
            p,
            a,
        ) == float::le(a.size_less, p.up.sellable),
        !float::le(a.size, 0) && o.side == OrderSide::Ask && o.token == TokenSide::Down ==> can_book(
            o,
            p,
            a,
        ) == float::le(a.size_less, p.down.sellable),
{
}

/// A fill is of the order, its token, its side and its price. The order stays as it is but for how
/// much of it is filled, and it is done with exactly where all but a trifle is.
pub proof fn fills_are_of_their_order(o: Order, now_ms: i64, a: FillAmounts)
    ensures
        ({
            let f = fill_of(o, now_ms, a);
            let after = filled_order(o, a);
            &&& f.order_id == o.id && f.token == o.token && f.side == o.side && f.price == o.price
            &&& f.size == a.size && f.ts_ms == now_ms
            &&& after == (Order { filled: a.filled, status: after.status, ..o })
            &&& float::le(a.order_size_less, a.filled) ==> after.status == OrderStatus::Filled
            &&& !float::le(a.order_size_less, a.filled) ==> after.status == o.status
        }),
{
}

/// No two orders have the same number.
pub open spec fn numbered_apart(orders: Seq<Order>) -> bool {
    forall|i: int, j: int|
        0 <= i < orders.len() && 0 <= j < orders.len() && (#[trigger] orders[i]).id == (
        #[trigger] orders[j]).id ==> i == j
}

/// The cancellation of an order is due.
pub open spec fn is_called_off(cancels: Seq<(u64, i64)>, id: u64, now_ms: i64) -> bool {
    exists|c: int| 0 <= c < cancels.len() && (#[trigger] cancels[c]).0 == id && cancels[c].1 <= now_ms
}

proof fn lemma_live_place_of(orders: Seq<Order>, id: u64, k: int)
    requires
        numbered_apart(orders),
        0 <= k < orders.len(),
        orders[k].id == id,
    ensures
        live_place(orders, id) == (if orders[k].status == OrderStatus::Live {
            k
        } else {
            orders.len() as int
        }),
{
    if orders[k].status == OrderStatus::Live {
        assert forall|i: int| 0 <= i < k implies !((#[trigger] orders[i]).id == id
            && orders[i].status == OrderStatus::Live) by {
            assert(orders[i].id != orders[k].id);
        }
        lemma_live_place(orders, id, k);
    } else {
        assert forall|i: int| 0 <= i < orders.len() implies !((#[trigger] orders[i]).id == id
            && orders[i].status == OrderStatus::Live) by {
            if i != k {
                assert(orders[i].id != orders[k].id);
            }
        }
        lemma_live_place(orders, id, orders.len() as int);
    }
}

/// Every cancellation that is due reaches its order: a live order is cancelled exactly where one of
/// them names it, and no order is changed otherwise.
pub proof fn due_cancellations_arrive(
    orders: Seq<Order>,
    cancels: Seq<(u64, i64)>,
    now_ms: i64,
    k: int,
)
    requires
        numbered_apart(orders),
        0 <= k < orders.len(),
    ensures
        ({
            let after = all_cancelled(orders, cancels, now_ms);
            &&& after.len() == orders.len()
            &&& after[k] == (Order { status: after[k].status, ..orders[k] })
            &&& after[k].status == (if orders[k].status == OrderStatus::Live && is_called_off(
                cancels,
                orders[k].id,
                now_ms,
            ) {
                OrderStatus::Cancelled
            } else {
                orders[k].status
            })
        }),
    decreases cancels.len(),
{
    if cancels.len() > 0 {
        let fewer = cancels.drop_last();
        let before = all_cancelled(orders, fewer, now_ms);
        let last = cancels.last();
        let n = cancels.len() - 1;
        assert forall|i: int| 0 <= i < orders.len() implies before.len() == orders.len() && (
        #[trigger] before[i]).id == orders[i].id by {
            due_cancellations_arrive(orders, fewer, now_ms, i);
        }
        due_cancellations_arrive(orders, fewer, now_ms, k);
        assert forall|i: int, j: int|
            0 <= i < before.len() && 0 <= j < before.len() && (#[trigger] before[i]).id == (
            #[trigger] before[j]).id implies i == j by {
            assert(orders[i].id == orders[j].id);
        }
        if is_called_off(fewer, orders[k].id, now_ms) {
            let c = choose|c: int|
                0 <= c < fewer.len() && (#[trigger] fewer[c]).0 == orders[k].id && fewer[c].1
                    <= now_ms;
            assert(cancels[c] == fewer[c]);
        }
        if is_called_off(cancels, orders[k].id, now_ms) {
            let c = choose|c: int|
                0 <= c < cancels.len() && (#[trigger] cancels[c]).0 == orders[k].id && cancels[c].1
                    <= now_ms;
            if c < n {
                assert(fewer[c] == cancels[c]);
            }
        }
        assert(cancels[n] == last);
        if last.1 <= now_ms {
            if orders[k].id == last.0 {
                lemma_live_place_of(before, last.0, k);
            } else {
                lemma_live_place_is_live(before, last.0);
                assert(live_place(before, last.0) != k || before[k].id == last.0);
            }
        }
    }
}

/// Cancellations that are not due yet stay on their way, and no others.
pub proof fn early_cancellations_wait(cancels: Seq<(u64, i64)>, now_ms: i64, c: (u64, i64))
    ensures
        cancels_left(cancels, now_ms).contains(c) <==> cancels.contains(c) && c.1 > now_ms,
{
    broadcast use vstd::seq_lib::group_filter_ensures;

    let late = |c: (u64, i64)| !(c.1 <= now_ms);
    let left = cancels.filter(late);
    if left.contains(c) {
        let i = left.index_of(c);
        assert(late(left[i]));
        order::lemma_filter_is_part(cancels, late, i);
    }
    if cancels.contains(c) && c.1 > now_ms {
        let i = cancels.index_of(c);
        assert(late(cancels[i]));
        cancels.lemma_filter_contains(late, i);
    }
}

/// When an event begins, all orders that are due arrive behind those that were there, live and
/// otherwise as they were sent; those that are not due stay on their way. Money, fills and counts
/// stay as they are.
pub proof fn events_begin_with_arrivals(s: SimView, now_ms: i64, o: Order)
    ensures
        ({
            let t = begun(s, now_ms);
            &&& t.queue.pending.contains(o) <==> s.queue.pending.contains(o) && o.live_at_ms
                > now_ms
            &&& t.live.len() == s.live.len() + s.queue.pending.len() - t.queue.pending.len()
            &&& t.position.cash == s.position.cash && t.position.fills == s.position.fills
            &&& t.position.up.sellable == s.position.up.sellable
            &&& t.position.down.sellable == s.position.down.sellable
            &&& t.next_id == s.next_id && t.config == s.config
        }),
{
    order::waiting_orders_are_late(s.queue.pending, now_ms, o);
    order::orders_are_conserved(s.queue.pending, now_ms);
    lemma_cancelling_keeps_the_number(
        s.live + order::due_orders(s.queue.pending, now_ms),
        s.cancels,
        now_ms,
    );
}

proof fn lemma_cancelling_keeps_the_number(orders: Seq<Order>, cancels: Seq<(u64, i64)>, now_ms: i64)
    ensures
        all_cancelled(orders, cancels, now_ms).len() == orders.len(),
    decreases cancels.len(),
{
    if cancels.len() > 0 {
        lemma_cancelling_keeps_the_number(orders, cancels.drop_last(), now_ms);
        lemma_live_place_is_live(
            all_cancelled(orders, cancels.drop_last(), now_ms),
            cancels.last().0,
        );
    }
}

/// An order is accepted exactly where it would not trade at once against the best price of its own
/// token, its price lies between 0.01 and 0.99, it has a size, and, if it sells, the shares of its
/// own token cover it.
pub proof fn orders_are_accepted_by_rule(
    w: OrderWish,
    m: market_data::StateView,
    p: position::PositionView,
)
    requires
        float::is_number(w.price) && float::is_number(w.size),
    ensures
        is_accepted(w, m, p) <==> {
            &&& float::le(0x3F84_7AE1_47AE_147B, w.price)
            &&& float::le(w.price, 0x3FEF_AE14_7AE1_47AE)
            &&& float::lt(0, w.size)
            &&& w.side == OrderSide::Bid ==> {
                let best = market_data::best_ask_of(m, w.token);
                best is None || float::lt(w.price, best->0)
            }
            &&& w.side == OrderSide::Ask ==> {
                let best = market_data::best_bid_of(m, w.token);
                let shares = if w.token == TokenSide::Up { p.up } else { p.down };
                (best is None || float::lt(best->0, w.price)) && float::le(
                    w.size_less,
                    shares.sellable,
                )
            }
        },
{
}

/// An order that is accepted is sent as it was asked for, under the next number, and arrives after
/// the shortest latency at least and the longest at most. Nothing else changes: no order that is
/// there, no cancellation, no share, no money. One that is not accepted is only counted.
pub proof fn accepted_orders_are_sent(
    s: SimView,
    w: OrderWish,
    m: market_data::StateView,
    now_ms: i64,
)
    requires
        s.queue.min_ms <= s.queue.max_ms <= order::LONGEST_LATENCY_MS,
        now_ms + order::LONGEST_LATENCY_MS <= i64::MAX,
        s.next_id < u64::MAX,
        s.position.orders_submitted < u64::MAX,
        s.position.orders_rejected < u64::MAX,
    ensures
        ({
            let t = placed(s, w, m, now_ms);
            let o = t.queue.pending.last();
            &&& t.live == s.live && t.cancels == s.cancels && t.config == s.config
            &&& t.position.cash == s.position.cash && t.position.up == s.position.up
            &&& t.position.down == s.position.down && t.position.fills == s.position.fills
            &&& t.position.total_volume == s.position.total_volume
            &&& is_accepted(w, m, s.position) ==> {
                &&& t.queue.pending == s.queue.pending.push(o)
                &&& o.id == s.next_id && t.next_id == s.next_id + 1
                &&& o.token == w.token && o.side == w.side && o.price == w.price && o.size == w.size
                &&& o.filled == 0 && o.status == OrderStatus::InTransit
                &&& o.submitted_at_ms == now_ms
                &&& now_ms + s.queue.min_ms <= o.live_at_ms <= now_ms + s.queue.max_ms
                &&& t.position.orders_submitted == s.position.orders_submitted + 1
                &&& t.position.orders_rejected == s.position.orders_rejected
            }
            &&& !is_accepted(w, m, s.position) ==> {
                &&& t.queue == s.queue && t.next_id == s.next_id
                &&& t.position.orders_rejected == s.position.orders_rejected + 1
                &&& t.position.orders_submitted == s.position.orders_submitted
            }
        }),
{
    order::latencies_are_bounded(
        order::next_state(s.queue.rng_state),
        s.queue.min_ms,
        s.queue.max_ms,
    );
}

/// An order that is still on its way is taken back at once, and no other with it. For any other
/// number a cancellation is sent, which arrives after the middle of the latencies.
pub proof fn orders_are_called_off(s: SimView, id: u64, now_ms: i64, i: int)
    requires
        s.config.min_latency_ms <= s.config.max_latency_ms <= order::LONGEST_LATENCY_MS,
        now_ms + order::LONGEST_LATENCY_MS <= i64::MAX,
    ensures
        ({
            let t = cancel_asked(s, id, now_ms);
            &&& t.live == s.live && t.position == s.position && t.next_id == s.next_id
            &&& numbered_apart(s.queue.pending) && 0 <= i < s.queue.pending.len()
                && s.queue.pending[i].id == id ==> t.queue.pending == s.queue.pending.remove(i)
                && t.cancels == s.cancels
            &&& (forall|k: int|
                0 <= k < s.queue.pending.len() ==> (#[trigger] s.queue.pending[k]).id != id) ==> {
                &&& t.queue == s.queue
                &&& t.cancels.len() == s.cancels.len() + 1 && t.cancels.drop_last() == s.cancels
                &&& t.cancels.last().0 == id
                &&& 2 * (t.cancels.last().1 - now_ms) <= s.config.min_latency_ms
                    + s.config.max_latency_ms < 2 * (t.cancels.last().1 - now_ms) + 2
            }
        }),
{
    order::numbers_are_found(s.queue.pending, id, i);
    let t = cancel_asked(s, id, now_ms);
    if forall|k: int| 0 <= k < s.queue.pending.len() ==> (#[trigger] s.queue.pending[k]).id != id {
        assert(t.cancels.drop_last() =~= s.cancels);
    }
}

/// All live orders are called off at once, and only those.
pub proof fn all_live_orders_are_called_off(orders: Seq<Order>, at_ms: i64, c: (u64, i64))
    ensures
        cancels_of(orders, at_ms).contains(c) <==> c.1 == at_ms && exists|k: int|
            0 <= k < orders.len() && (#[trigger] orders[k]).id == c.0 && orders[k].status
                == OrderStatus::Live,
{
    broadcast use vstd::seq_lib::group_filter_ensures;

    let is_live = |o: Order| o.status == OrderStatus::Live;
    let live = orders.filter(is_live);
    assert(live == live_only(orders));
    if cancels_of(orders, at_ms).contains(c) {
        let i = cancels_of(orders, at_ms).index_of(c);
        assert(is_live(live[i]));
        order::lemma_filter_is_part(orders, is_live, i);
        let k = orders.index_of(live[i]);
        assert(orders[k].id == c.0);
    }
    if c.1 == at_ms && exists|k: int|
        0 <= k < orders.len() && (#[trigger] orders[k]).id == c.0 && orders[k].status
            == OrderStatus::Live {
        let k = choose|k: int|
            0 <= k < orders.len() && (#[trigger] orders[k]).id == c.0 && orders[k].status
                == OrderStatus::Live;
        orders.lemma_filter_contains(is_live, k);
        let i = live.index_of(orders[k]);
        assert(cancels_of(orders, at_ms)[i] == c);
    }
}

/// The orders that are live are kept, and no others.
pub proof fn live_orders_are_kept(orders: Seq<Order>, o: Order)
    ensures
        live_only(orders).contains(o) <==> orders.contains(o) && o.status == OrderStatus::Live,
{
    broadcast use vstd::seq_lib::group_filter_ensures;

    let is_live = |o: Order| o.status == OrderStatus::Live;
    let live = orders.filter(is_live);
    if live.contains(o) {
        let i = live.index_of(o);
        assert(is_live(live[i]));
        order::lemma_filter_is_part(orders, is_live, i);
    }
    if orders.contains(o) && o.status == OrderStatus::Live {
        let i = orders.index_of(o);
        assert(is_live(orders[i]));
        orders.lemma_filter_contains(is_live, i);
    }
}

/// When an event begins, what was live stays at its place, and what has become due follows it;
/// either is cancelled where a cancellation that is due names it.
pub proof fn arrivals_join_the_live_orders(s: SimView, now_ms: i64, k: int, o: Order)
    requires
        numbered_apart(s.live + order::due_orders(s.queue.pending, now_ms)),
        0 <= k < s.live.len(),
        s.queue.pending.contains(o),
        o.live_at_ms <= now_ms,
    ensures
        ({
            let t = begun(s, now_ms);
            &&& t.live[k] == (Order {
                status: if s.live[k].status == OrderStatus::Live && is_called_off(
                    s.cancels,
                    s.live[k].id,
                    now_ms,
                ) {
                    OrderStatus::Cancelled
                } else {
                    s.live[k].status
                },
                ..s.live[k]
            })
            &&& t.live.skip(s.live.len() as int).contains(
                Order {
                    status: if is_called_off(s.cancels, o.id, now_ms) {
                        OrderStatus::Cancelled
                    } else {
                        OrderStatus::Live
                    },
                    ..o
                },
            )
        }),
{
    let due = order::due_orders(s.queue.pending, now_ms);
    let all = s.live + due;
    due_cancellations_arrive(all, s.cancels, now_ms, k);
    order::due_orders_arrive_as_sent(s.queue.pending, now_ms, o);
    let i = due.index_of(Order { status: OrderStatus::Live, ..o });
    assert(all[s.live.len() + i] == due[i]);
    due_cancellations_arrive(all, s.cancels, now_ms, s.live.len() + i);
    let t = begun(s, now_ms);
    assert(t.live.skip(s.live.len() as int)[i] == t.live[s.live.len() + i]);
}

} // verus!
