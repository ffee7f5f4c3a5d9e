//! Orders in a simulation, and the time that they take to arrive.

use vstd::multiset::*;
use vstd::prelude::*;
use vstd::seq_lib::*;

use crate::sim::market_data::TokenSide;

verus! {

/// The longest time that an order may take.
pub const LONGEST_LATENCY_MS: u64 = 0x1000_0000_0000;

/// Buying or selling.
#[derive(Clone, Copy, Debug, PartialEq, Eq, Structural)]
pub enum OrderSide {
    Bid,
    Ask,
}

/// Where an order stands.
#[derive(Clone, Copy, Debug, PartialEq, Eq, Structural)]
pub enum OrderStatus {
    InTransit,
    Live,
    Filled,
    Cancelled,
}

/// An order.
#[derive(Clone, Copy, Debug, PartialEq, Eq, Structural)]
pub struct Order {
    pub id: u64,
    pub token: TokenSide,
    pub side: OrderSide,
    pub price: u64,
    pub size: u64,
    pub filled: u64,
    pub submitted_at_ms: i64,
    pub live_at_ms: i64,
    pub status: OrderStatus,
}

/// A part of an order that was carried out.
#[derive(Clone, Copy, Debug, PartialEq, Eq, Structural)]
pub struct Fill {
    pub order_id: u64,
    pub ts_ms: i64,
    pub token: TokenSide,
    pub side: OrderSide,
    pub price: u64,
    pub size: u64,
}

/// The next state of the random numbers.
pub open spec fn next_state(state: u64) -> u64 {
    ((state * 6364136223846793005 + 1442695040888963407) % 0x1_0000_0000_0000_0000) as u64
}

/// The next state of the random numbers.
pub fn next_random(state: u64) -> (next: u64)
    ensures
        next == next_state(state),
{
    let wide: u128 = state as u128 * 6364136223846793005 + 1442695040888963407;
    (wide % 0x1_0000_0000_0000_0000) as u64
}

/// The time that an order takes, given the state of the random numbers: one of those from the
/// shortest to the longest.
pub open spec fn latency_of(state: u64, min_ms: u64, max_ms: u64) -> int {
    min_ms + (state as int / 0x2_0000_0000) % (max_ms - min_ms + 1)
}

/// Orders on their way.
pub struct LatencyQueue {
    pub pending: Vec<Order>,
    pub min_ms: u64,
    pub max_ms: u64,
    pub rng_state: u64,
}

/// What the orders on their way hold.
pub struct QueueView {
    pub pending: Seq<Order>,
    pub min_ms: u64,
    pub max_ms: u64,
    pub rng_state: u64,
}

impl View for LatencyQueue {
    type V = QueueView;

    open spec fn view(&self) -> QueueView {
        QueueView {
            pending: self.pending@,
            min_ms: self.min_ms,
            max_ms: self.max_ms,
            rng_state: self.rng_state,
        }
    }
}

/// An order that is due at a time.
pub open spec fn is_due(o: Order, now_ms: i64) -> bool {
    o.live_at_ms <= now_ms
}

/// An order that has arrived.
pub open spec fn arrived(o: Order) -> Order {
    Order { status: OrderStatus::Live, ..o }
}

/// The orders among some that are due, as they arrive.
pub open spec fn due_orders(orders: Seq<Order>, now_ms: i64) -> Seq<Order> {
    orders.filter(|o: Order| is_due(o, now_ms)).map_values(|o: Order| arrived(o))
}

/// The orders among some that are not due yet.
pub open spec fn waiting_orders(orders: Seq<Order>, now_ms: i64) -> Seq<Order> {
    orders.filter(|o: Order| !is_due(o, now_ms))
}

/// The place of the first order with a number; the length where there is none.
pub open spec fn place_of(orders: Seq<Order>, id: u64) -> int
    decreases orders.len(),
{
    if orders.len() == 0 {
        0
    } else if orders[0].id == id {
        0
    } else {
        1 + place_of(orders.drop_first(), id)
    }
}

proof fn lemma_place(orders: Seq<Order>, id: u64, i: int)
    requires
        0 <= i <= orders.len(),
        forall|k: int| 0 <= k < i ==> (#[trigger] orders[k]).id != id,
        i < orders.len() ==> orders[i].id == id,
    ensures
        place_of(orders, id) == i,
    decreases orders.len(),
{
    if orders.len() > 0 && i > 0 {
        let rest = orders.drop_first();
        assert forall|k: int| 0 <= k < i - 1 implies (#[trigger] rest[k]).id != id by {
            assert(rest[k] == orders[k + 1]);
        }
        if i < orders.len() {
            assert(rest[i - 1] == orders[i]);
        }
        assert(orders[0].id != id);
        lemma_place(rest, id, i - 1);
    }
}

impl LatencyQueue {
    /// The latencies are ordered and within reach of the clock.
    pub open spec fn wf(self) -> bool {
        self.min_ms <= self.max_ms <= LONGEST_LATENCY_MS
    }

    /// No orders yet, which will take from `min_ms` to `max_ms`.
    pub fn new(min_ms: u64, max_ms: u64, seed: u64) -> (q: LatencyQueue)
        requires
            min_ms <= max_ms <= LONGEST_LATENCY_MS,
        ensures
            q@ == (QueueView { pending: seq![], min_ms, max_ms, rng_state: seed }),
            q.wf(),
    {
        let q: LatencyQueue = LatencyQueue {
            pending: Vec::new(),
            min_ms,
            max_ms,
            rng_state: seed,
        };
        assert(q@.pending =~= seq![]);
        q
    }

    /// The time that the next order takes.
    pub fn random_latency(&mut self) -> (latency: u64)
        requires
            old(self).wf(),
        ensures
            final(self)@ == (QueueView {
                rng_state: next_state(old(self)@.rng_state),
                ..old(self)@
            }),
            final(self).wf(),
            latency == latency_of(next_state(old(self)@.rng_state), old(self)@.min_ms, old(self)@.max_ms),
    {
        self.rng_state = next_random(self.rng_state);
        let range: u64 = self.max_ms - self.min_ms + 1;
        let high: u64 = self.rng_state / 0x2_0000_0000;
        self.min_ms + high % range
    }

    /// Sends an order.
    pub fn submit(&mut self, order: Order, now_ms: i64)
        requires
            old(self).wf(),
            now_ms + LONGEST_LATENCY_MS <= i64::MAX,
        ensures
            final(self).wf(),
            final(self)@ == (QueueView {
                pending: old(self)@.pending.push(
                    Order {
                        live_at_ms: (now_ms + latency_of(
                            next_state(old(self)@.rng_state),
                            old(self)@.min_ms,
                            old(self)@.max_ms,
                        )) as i64,
                        status: OrderStatus::InTransit,
                        ..order
                    },
                ),
                rng_state: next_state(old(self)@.rng_state),
                ..old(self)@
            }),
    {
        let latency: u64 = self.random_latency();
        let mut sent: Order = order;
        sent.live_at_ms = now_ms + latency as i64;
        sent.status = OrderStatus::InTransit;
        self.pending.push(sent);
    }

    /// Takes out the orders that are due, in the order in which they were sent.
    pub fn drain_ready(&mut self, now_ms: i64) -> (ready: Vec<Order>)
        ensures
            ready@ == due_orders(old(self)@.pending, now_ms),
            final(self)@ == (QueueView {
                pending: waiting_orders(old(self)@.pending, now_ms),
                ..old(self)@
            }),
            old(self).wf() ==> final(self).wf(),
    {
        let mut ready: Vec<Order> = Vec::new();
        let mut rest: Vec<Order> = Vec::new();
        let ghost all = self.pending@;
        let mut i: usize = 0;
        proof {
            reveal(Seq::filter);
            assert(all.take(0) =~= seq![]);
            assert(ready@ =~= due_orders(all.take(0), now_ms));
            assert(rest@ =~= waiting_orders(all.take(0), now_ms));
        }
        while i < self.pending.len()
            invariant
                i <= self.pending@.len(),
                all == self.pending@,
                ready@ == due_orders(all.take(i as int), now_ms),
                rest@ == waiting_orders(all.take(i as int), now_ms),
            decreases self.pending@.len() - i,
        {
            let o: Order = self.pending[i];
            let ghost before = all.take(i as int);
            let ghost upto = all.take(i + 1);
            proof {
                reveal(Seq::filter);
                assert(upto.drop_last() =~= before);
                assert(upto.last() == o);
            }
            if o.live_at_ms <= now_ms {
                let mut live: Order = o;
                live.status = OrderStatus::Live;
                ready.push(live);
                assert(ready@ =~= due_orders(upto, now_ms));
                assert(rest@ =~= waiting_orders(upto, now_ms));
            } else {
                rest.push(o);
                assert(ready@ =~= due_orders(upto, now_ms));
                assert(rest@ =~= waiting_orders(upto, now_ms));
            }
            i = i + 1;
        }
        assert(all.take(all.len() as int) =~= all);
        self.pending = rest;
        ready
    }

    /// Takes back an order that is still on its way, if there is one with the number.
    pub fn cancel_pending(&mut self, order_id: u64) -> (found: bool)
        ensures
            found == (place_of(old(self)@.pending, order_id) < old(self)@.pending.len()),
            final(self)@ == (if found {
                QueueView {
                    pending: old(self)@.pending.remove(place_of(old(self)@.pending, order_id)),
                    ..old(self)@
                }
            } else {
                old(self)@
            }),
            old(self).wf() ==> final(self).wf(),
    {
        let mut i: usize = 0;
        while i < self.pending.len()
            invariant
                i <= self.pending@.len(),
                *self == *old(self),
                forall|k: int| 0 <= k < i ==> (#[trigger] self.pending@[k]).id != order_id,
            decreases self.pending@.len() - i,
        {
            if self.pending[i].id == order_id {
                proof {
                    lemma_place(self.pending@, order_id, i as int);
                }
                let _ = self.pending.remove(i);
                return true;
            }
            i = i + 1;
        }
        proof {
            lemma_place(self.pending@, order_id, i as int);
        }
        false
    }
}

// Laws

/// Every order takes at least the shortest and at most the longest time.
pub proof fn latencies_are_bounded(state: u64, min_ms: u64, max_ms: u64)
    requires
        min_ms <= max_ms,
    ensures
        min_ms <= latency_of(state, min_ms, max_ms) <= max_ms,
{
}

/// No order is lost or made up on its way: those that arrive and those that wait are together
/// those that were sent.
pub proof fn orders_are_conserved(orders: Seq<Order>, now_ms: i64)
    ensures
        orders.to_multiset() =~= orders.filter(|o: Order| is_due(o, now_ms)).to_multiset().add(
            waiting_orders(orders, now_ms).to_multiset(),
        ),
        due_orders(orders, now_ms).len() + waiting_orders(orders, now_ms).len() == orders.len(),
    decreases orders.len(),
{
    reveal(Seq::filter);
    broadcast use group_to_multiset_ensures;

    let due = |o: Order| is_due(o, now_ms);
    if orders.len() > 0 {
        let rest = orders.drop_last();
        orders_are_conserved(rest, now_ms);
        let last = orders.last();
        assert(orders =~= rest.push(last));
        if is_due(last, now_ms) {
            assert(orders.filter(due) =~= rest.filter(due).push(last));
            assert(waiting_orders(orders, now_ms) =~= waiting_orders(rest, now_ms));
        } else {
            assert(orders.filter(due) =~= rest.filter(due));
            assert(waiting_orders(orders, now_ms) =~= waiting_orders(rest, now_ms).push(last));
        }
    } else {
        assert(orders.filter(due) =~= seq![]);
        assert(waiting_orders(orders, now_ms) =~= seq![]);
        assert(orders =~= seq![]);
    }
}

/// Every order that arrives is due and live, and none that waits is due.
pub proof fn arrivals_are_due(orders: Seq<Order>, now_ms: i64)
    ensures
        forall|i: int|
            0 <= i < due_orders(orders, now_ms).len() ==> is_due(
                #[trigger] due_orders(orders, now_ms)[i],
                now_ms,
            ) && due_orders(orders, now_ms)[i].status == OrderStatus::Live,
        forall|i: int|
            0 <= i < waiting_orders(orders, now_ms).len() ==> !is_due(
                #[trigger] waiting_orders(orders, now_ms)[i],
                now_ms,
            ),
{
    broadcast use group_filter_ensures;

}

/// What a filter leaves was there before.
pub proof fn lemma_filter_is_part<A>(s: Seq<A>, pred: spec_fn(A) -> bool, i: int)
    requires
        0 <= i < s.filter(pred).len(),
    ensures
        s.contains(s.filter(pred)[i]),
    decreases s.len(),
{
    reveal(Seq::filter);
    if s.len() > 0 {
        let fewer = s.drop_last();
        if i < fewer.filter(pred).len() {
            lemma_filter_is_part(fewer, pred, i);
            let k = fewer.index_of(fewer.filter(pred)[i]);
            assert(s[k] == fewer[k]);
        } else {
            assert(s[s.len() - 1] == s.last());
        }
    }
}

/// Orders that are not due stay on their way, and no others.
pub proof fn waiting_orders_are_late(orders: Seq<Order>, now_ms: i64, o: Order)
    ensures
        waiting_orders(orders, now_ms).contains(o) <==> orders.contains(o) && o.live_at_ms > now_ms,
{
    broadcast use group_filter_ensures;

    let late = |o: Order| !is_due(o, now_ms);
    let left = orders.filter(late);
    if left.contains(o) {
        let i = left.index_of(o);
        assert(late(left[i]));
        lemma_filter_is_part(orders, late, i);
    }
    if orders.contains(o) && o.live_at_ms > now_ms {
        let i = orders.index_of(o);
        assert(late(orders[i]));
        orders.lemma_filter_contains(late, i);
    }
}

/// An order that is due arrives as it was sent, but live.
pub proof fn due_orders_arrive_as_sent(orders: Seq<Order>, now_ms: i64, o: Order)
    requires
        orders.contains(o),
        o.live_at_ms <= now_ms,
    ensures
        due_orders(orders, now_ms).contains(Order { status: OrderStatus::Live, ..o }),
{
    broadcast use group_filter_ensures;

    let due = |o: Order| is_due(o, now_ms);
    let i = orders.index_of(o);
    orders.lemma_filter_contains(due, i);
    let k = orders.filter(due).index_of(o);
    assert(due_orders(orders, now_ms)[k] == (Order { status: OrderStatus::Live, ..o }));
}

/// The place of an order is found by its number, which no other order has.
pub proof fn numbers_are_found(orders: Seq<Order>, id: u64, i: int)
    ensures
        0 <= i < orders.len() && orders[i].id == id && (forall|j: int|
            0 <= j < orders.len() && (#[trigger] orders[j]).id == id ==> j == i) ==> place_of(
            orders,
            id,
        ) == i,
        (forall|j: int| 0 <= j < orders.len() ==> (#[trigger] orders[j]).id != id) ==> place_of(
            orders,
            id,
        ) == orders.len(),
{
    if 0 <= i < orders.len() && orders[i].id == id && (forall|j: int|
        0 <= j < orders.len() && (#[trigger] orders[j]).id == id ==> j == i) {
        lemma_place(orders, id, i);
    }
    if forall|j: int| 0 <= j < orders.len() ==> (#[trigger] orders[j]).id != id {
        lemma_place(orders, id, orders.len() as int);
    }
}

/// The random numbers follow one rule: a product and a sum, of which the lowest 64 bits are kept.
pub proof fn random_numbers_follow_a_rule(state: u64)
    ensures
        exists|q: int|
            0 <= q < 0x1_0000_0000_0000_0000 && next_state(state) + #[trigger] (q
                * 0x1_0000_0000_0000_0000) == 6364136223846793005 * state + 1442695040888963407,
{
    let n = 6364136223846793005 * state + 1442695040888963407;
    let q = n / 0x1_0000_0000_0000_0000;
    assert(n == (q * 0x1_0000_0000_0000_0000) + n % 0x1_0000_0000_0000_0000);
}

} // verus!
