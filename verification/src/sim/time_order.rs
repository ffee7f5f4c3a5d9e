//! Putting events in the order in which they happened.

use vstd::prelude::*;

use crate::sim::market_data;
use crate::sim::market_data::{copy_levels, SimEvent};

verus! {

/// One place comes before another: it is earlier, or it came first at the same time.
pub open spec fn before(times: Seq<i64>, a: int, b: int) -> bool {
    times[a] < times[b] || (times[a] == times[b] && a < b)
}

/// Every place comes before those behind it.
pub open spec fn is_ordered(times: Seq<i64>, order: Seq<usize>) -> bool {
    forall|i: int, j: int|
        0 <= i < j < order.len() ==> before(times, #[trigger] order[i] as int, #[trigger] order[j] as int)
}

/// All places lie in a range.
pub open spec fn all_within(order: Seq<usize>, lo: int, hi: int) -> bool {
    forall|i: int| 0 <= i < order.len() ==> lo <= #[trigger] order[i] < hi
}

/// The places of all times, in the order of the times.
pub open spec fn is_time_order(times: Seq<i64>, order: Seq<usize>) -> bool {
    order.len() == times.len() && all_within(order, 0, times.len() as int) && is_ordered(times, order)
}

fn merge(times: &Vec<i64>, a: &Vec<usize>, b: &Vec<usize>, lo: usize, mid: usize, hi: usize) -> (out:
    Vec<usize>)
    requires
        lo <= mid <= hi <= times@.len(),
        is_ordered(times@, a@),
        is_ordered(times@, b@),
        all_within(a@, lo as int, mid as int),
        all_within(b@, mid as int, hi as int),
        a@.len() + b@.len() <= usize::MAX,
    ensures
        is_ordered(times@, out@),
        all_within(out@, lo as int, hi as int),
        out@.len() == a@.len() + b@.len(),
{
    let mut out: Vec<usize> = Vec::new();
    let mut i: usize = 0;
    let mut j: usize = 0;
    while i < a.len() || j < b.len()
        invariant
            lo <= mid <= hi <= times@.len(),
            is_ordered(times@, a@),
            is_ordered(times@, b@),
            all_within(a@, lo as int, mid as int),
            all_within(b@, mid as int, hi as int),
            a@.len() + b@.len() <= usize::MAX,
            i <= a@.len(),
            j <= b@.len(),
            out@.len() == i + j,
            is_ordered(times@, out@),
            all_within(out@, lo as int, hi as int),
            forall|k: int, l: int|
                0 <= k < out@.len() && i <= l < a@.len() ==> before(
                    times@,
                    #[trigger] out@[k] as int,
                    #[trigger] a@[l] as int,
                ),
            forall|k: int, l: int|
                0 <= k < out@.len() && j <= l < b@.len() ==> before(
                    times@,
                    #[trigger] out@[k] as int,
                    #[trigger] b@[l] as int,
                ),
        decreases a@.len() - i + b@.len() - j,
    {
        let take_first: bool = if i < a.len() {
            if j < b.len() {
                times[a[i]] <= times[b[j]]
            } else {
                true
            }
        } else {
            false
        };
        let ghost was = out@;
        if take_first {
            out.push(a[i]);
            proof {
                let x = a@[i as int];
                assert forall|l: int| i + 1 <= l < a@.len() implies before(
                    times@,
                    x as int,
                    #[trigger] a@[l] as int,
                ) by {}
                assert forall|l: int| j <= l < b@.len() implies before(
                    times@,
                    x as int,
                    #[trigger] b@[l] as int,
                ) by {
                    if l > j {
                        assert(before(times@, b@[j as int] as int, b@[l] as int));
                    }
                }
            }
            i = i + 1;
        } else {
            out.push(b[j]);
            proof {
                let x = b@[j as int];
                assert forall|l: int| i <= l < a@.len() implies before(
                    times@,
                    x as int,
                    #[trigger] a@[l] as int,
                ) by {
                    if l > i {
                        assert(before(times@, a@[i as int] as int, a@[l] as int));
                    }
                }
            }
            j = j + 1;
        }
        assert(out@.drop_last() =~= was);
    }
    out
}

fn order_range(times: &Vec<i64>, lo: usize, hi: usize) -> (out: Vec<usize>)
    requires
        lo <= hi <= times@.len(),
    ensures
        is_ordered(times@, out@),
        all_within(out@, lo as int, hi as int),
        out@.len() == hi - lo,
    decreases hi - lo,
{
    let mut out: Vec<usize> = Vec::new();
    if hi - lo == 0 {
        return out;
    }
    if hi - lo == 1 {
        out.push(lo);
        return out;
    }
    let mid: usize = lo + (hi - lo) / 2;
    let a: Vec<usize> = order_range(times, lo, mid);
    let b: Vec<usize> = order_range(times, mid, hi);
    merge(times, &a, &b, lo, mid, hi)
}

/// The places of all times, in the order of the times; at the same time the first stays first.
pub fn time_order(times: &Vec<i64>) -> (order: Vec<usize>)
    ensures
        is_time_order(times@, order@),
{
    order_range(times, 0, times.len())
}

/// The times of events.
pub open spec fn times_of(events: Seq<market_data::SimEventView>) -> Seq<i64> {
    events.map_values(|e: market_data::SimEventView| market_data::time_of(e))
}

/// Events in an order.
pub open spec fn arranged(
    events: Seq<market_data::SimEventView>,
    order: Seq<usize>,
) -> Seq<market_data::SimEventView> {
    order.map_values(|i: usize| events[i as int])
}

/// A copy of an event.
pub fn copy_event(e: &SimEvent) -> (r: SimEvent)
    ensures
        r@ == e@,
{
    match e {
        SimEvent::PolyBookState { ts_ms, token, bids, asks, best_bid, best_ask } => SimEvent::PolyBookState {
            ts_ms: *ts_ms,
            token: *token,
            bids: copy_levels(bids),
            asks: copy_levels(asks),
            best_bid: *best_bid,
            best_ask: *best_ask,
        },
        SimEvent::PolyTrade { ts_ms, token, price, side, size } => SimEvent::PolyTrade {
            ts_ms: *ts_ms,
            token: *token,
            price: *price,
            side: *side,
            size: *size,
        },
        SimEvent::BtcTicker { ts_ms, bid, ask, mid } => SimEvent::BtcTicker {
            ts_ms: *ts_ms,
            bid: *bid,
            ask: *ask,
            mid: *mid,
        },
        SimEvent::BtcTrade { ts_ms, price, qty, is_buy } => SimEvent::BtcTrade {
            ts_ms: *ts_ms,
            price: *price,
            qty: *qty,
            is_buy: *is_buy,
        },
        SimEvent::BtcDepth { ts_ms, bids, asks } => SimEvent::BtcDepth {
            ts_ms: *ts_ms,
            bids: copy_levels(bids),
            asks: copy_levels(asks),
        },
        SimEvent::FairValue { ts_ms, sample } => SimEvent::FairValue {
            ts_ms: *ts_ms,
            sample: *sample,
        },
    }
}

/// Events in the order in which they happened; of those at the same time the first stays first.
pub fn sort_events(events: &Vec<SimEvent>) -> (sorted: Vec<SimEvent>)
    ensures
        exists|order: Seq<usize>| #[trigger]
            is_time_order(times_of(market_data::events_of(events@)), order)
                && market_data::events_of(sorted@) == arranged(
                market_data::events_of(events@),
                order,
            ),
{
    let ghost all = market_data::events_of(events@);
    let mut times: Vec<i64> = Vec::new();
    let mut i: usize = 0;
    while i < events.len()
        invariant
            i <= events@.len(),
            all == market_data::events_of(events@),
            times@ == times_of(all).take(i as int),
        decreases events@.len() - i,
    {
        times.push(events[i].ts_ms());
        i = i + 1;
        assert(times@ =~= times_of(all).take(i as int));
    }
    assert(times@ =~= times_of(all));
    let order: Vec<usize> = time_order(&times);
    let mut sorted: Vec<SimEvent> = Vec::new();
    let mut k: usize = 0;
    while k < order.len()
        invariant
            k <= order@.len(),
            all == market_data::events_of(events@),
            all.len() == events@.len(),
            is_time_order(times_of(all), order@),
            market_data::events_of(sorted@) == arranged(all, order@).take(k as int),
        decreases order@.len() - k,
    {
        let ghost was = sorted@;
        let ghost place = order@[k as int] as int;
        assert(all[place] == events@[place]@);
        sorted.push(copy_event(&events[order[k]]));
        proof {
            assert(market_data::events_of(sorted@) =~= market_data::events_of(was).push(all[place]));
            assert(arranged(all, order@)[k as int] == all[place]);
            assert(arranged(all, order@).take(k + 1) =~= arranged(all, order@).take(k as int).push(
                all[place],
            ));
        }
        k = k + 1;
    }
    assert(market_data::events_of(sorted@) =~= arranged(all, order@));
    sorted
}

// Laws

proof fn lemma_distinct(times: Seq<i64>, order: Seq<usize>)
    requires
        is_time_order(times, order),
    ensures
        order.no_duplicates(),
{
    assert forall|i: int, j: int| 0 <= i < order.len() && 0 <= j < order.len() && i != j implies order[i]
        != order[j] by {
        if i < j {
            assert(before(times, order[i] as int, order[j] as int));
        } else {
            assert(before(times, order[j] as int, order[i] as int));
        }
    }
}

/// Every event keeps its place among the others: none is lost, and none comes twice.
pub proof fn every_place_occurs_once(times: Seq<i64>, order: Seq<usize>, place: int)
    requires
        is_time_order(times, order),
        0 <= place < times.len(),
    ensures
        exists|i: int| 0 <= i < order.len() && order[i] as int == place,
        order.no_duplicates(),
{
    lemma_distinct(times, order);
    let places = order.map_values(|p: usize| p as int);
    assert(places.no_duplicates());
    places.unique_seq_to_set();
    let range = vstd::set_lib::set_int_range(0, times.len() as int);
    vstd::set_lib::lemma_int_range(0, times.len() as int);
    assert(places.to_set().subset_of(range)) by {
        assert forall|p: int| places.to_set().contains(p) implies range.contains(p) by {
            let i = choose|i: int| 0 <= i < places.len() && places[i] == p;
            assert(order[i] as int == p);
        }
    }
    vstd::set_lib::lemma_subset_equality(places.to_set(), range);
    assert(places.to_set().contains(place));
    let i = choose|i: int| 0 <= i < places.len() && places[i] == place;
    assert(order[i] as int == place);
}

/// Events never go back in time.
pub proof fn sorted_times_never_fall(times: Seq<i64>, order: Seq<usize>, i: int, j: int)
    requires
        is_time_order(times, order),
        0 <= i <= j < order.len(),
    ensures
        times[order[i] as int] <= times[order[j] as int],
{
    if i < j {
        assert(before(times, order[i] as int, order[j] as int));
    }
}

/// Events that are put in order never go back in time; of two at the same time the one that came
/// first stays first. Each one is an event that was there, and every event that was there is among
/// them.
pub proof fn events_are_put_in_order(
    events: Seq<market_data::SimEventView>,
    order: Seq<usize>,
    i: int,
    j: int,
    place: int,
)
    requires
        is_time_order(times_of(events), order),
        0 <= i < j < events.len(),
        0 <= place < events.len(),
    ensures
        ({
            let sorted = arranged(events, order);
            &&& sorted.len() == events.len()
            &&& market_data::time_of(sorted[i]) <= market_data::time_of(sorted[j])
            &&& market_data::time_of(sorted[i]) == market_data::time_of(sorted[j]) ==> order[i]
                < order[j]
            &&& sorted[i] == events[order[i] as int]
            &&& sorted.contains(events[place])
        }),
{
    let times = times_of(events);
    let sorted = arranged(events, order);
    assert(before(times, order[i] as int, order[j] as int));
    assert(times[order[i] as int] == market_data::time_of(events[order[i] as int]));
    assert(times[order[j] as int] == market_data::time_of(events[order[j] as int]));
    every_place_occurs_once(times, order, place);
    let k = choose|k: int| 0 <= k < order.len() && order[k] as int == place;
    assert(sorted[k] == events[place]);
}

} // verus!
