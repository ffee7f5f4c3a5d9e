//! When markets start, and when their workers are started, started again and forgotten.

use std::collections::{BTreeMap, BTreeSet};

use vstd::prelude::*;
use vstd::std_specs::btree::*;

use crate::config::{
    MARKET_DURATION, MARKET_INTERVAL, MAX_RESTARTS, PRE_START_SECONDS, TAIL_SECONDS,
};

verus! {

broadcast use group_btree_axioms;

/// Nanoseconds in a second.
pub const NANOS: i128 = 1_000_000_000;

/// How long a launched market is remembered, in seconds.
pub const MEMORY_SECONDS: i128 = 3600;

/// The market that comes next at the time `now`, in nanoseconds: the first market boundary
/// that leaves time to prepare.
pub open spec fn is_next_market(now: int, start: int) -> bool {
    &&& start % (MARKET_INTERVAL as int) == 0
    &&& start * NANOS >= now + PRE_START_SECONDS * NANOS
    &&& (start - MARKET_INTERVAL) * NANOS < now + PRE_START_SECONDS * NANOS
}

/// The start of the next market at the time `now_nanos`, in seconds.
pub fn next_market_start(now_nanos: u64) -> (start: i64)
    ensures
        is_next_market(now_nanos as int, start as int),
        0 <= start <= 18_446_744_444,
{
    let adjusted: i128 = now_nanos as i128 + PRE_START_SECONDS as i128 * NANOS;
    let interval: i128 = 300_000_000_000;
    assert(interval == MARKET_INTERVAL * NANOS);
    let boundary: i128 = (adjusted + interval - 1) / interval;
    assert(300_000_000_000 * boundary >= adjusted);
    assert(300_000_000_000 * (boundary - 1) < adjusted);
    (boundary * MARKET_INTERVAL as i128) as i64
}

/// There is only one next market.
pub proof fn next_market_is_unique(now: int, a: int, b: int)
    requires
        is_next_market(now, a),
        is_next_market(now, b),
    ensures
        a == b,
{
}

/// A market that is exactly as far away as its preparation takes is still the next one; a
/// moment later it is not.
pub proof fn preparation_is_never_cut_short(now: int, start: int)
    requires
        start % 300 == 0,
    ensures
        now == start * NANOS - PRE_START_SECONDS * NANOS ==> is_next_market(now, start),
        now > start * NANOS - PRE_START_SECONDS * NANOS ==> !is_next_market(now, start),
{
}

/// What to do about a worker that finished.
#[derive(Clone, Copy, Debug, PartialEq, Eq, Structural)]
pub enum Verdict {
    Finished,
    Restart { attempt: u32 },
    GivenUp,
}

/// The memory of the supervisor: the markets that were launched, and how often their
/// workers were started again.
pub struct Supervisor {
    launched: BTreeSet<i64>,
    restarts: BTreeMap<i64, u32>,
}

/// What the supervisor remembers.
pub struct SupervisorView {
    pub launched: Set<i64>,
    pub restarts: Map<i64, u32>,
}

impl View for Supervisor {
    type V = SupervisorView;

    closed spec fn view(&self) -> SupervisorView {
        SupervisorView { launched: self.launched@, restarts: self.restarts@ }
    }
}

/// How often the worker of a market was started again.
pub open spec fn restarts_of(s: SupervisorView, market: i64) -> u32 {
    if s.restarts.contains_key(market) { s.restarts[market] } else { 0 }
}

/// The collection of a market is still going on.
pub open spec fn in_window(market: i64, now: int) -> bool {
    now < (market + MARKET_DURATION + TAIL_SECONDS) * NANOS
}

/// What to do about a worker that finished. One that failed is started again while its market
/// is collected, and only so often.
pub open spec fn verdict_of(s: SupervisorView, market: i64, failed: bool, now: int) -> Verdict {
    if !failed {
        Verdict::Finished
    } else if in_window(market, now) && restarts_of(s, market) < MAX_RESTARTS {
        Verdict::Restart { attempt: (restarts_of(s, market) + 1) as u32 }
    } else {
        Verdict::GivenUp
    }
}

/// Markets up to this second are forgotten.
pub open spec fn forget_before(now: int) -> int {
    if now >= MEMORY_SECONDS * NANOS {
        (now - MEMORY_SECONDS * NANOS) / (NANOS as int)
    } else {
        -((MEMORY_SECONDS * NANOS - now) / (NANOS as int))
    }
}

impl Supervisor {
    /// A supervisor that remembers nothing.
    pub fn new() -> (s: Supervisor)
        ensures
            s@ == (SupervisorView { launched: Set::empty(), restarts: Map::empty() }),
    {
        Supervisor { launched: BTreeSet::new(), restarts: BTreeMap::new() }
    }

    /// How long to sleep at the time `now_nanos` before the worker of a market is started, in
    /// nanoseconds.
    pub fn time_to_launch(market: i64, now_nanos: u64) -> (wait: u128)
        ensures
            wait == (if market * NANOS - PRE_START_SECONDS * NANOS > now_nanos {
                market * NANOS - PRE_START_SECONDS * NANOS - now_nanos
            } else {
                0
            }),
    {
        let left: i128 = market as i128 * NANOS - PRE_START_SECONDS as i128 * NANOS
            - now_nanos as i128;
        if left > 0 { left as u128 } else { 0 }
    }

    /// Whether the worker of a market is to be started now: once, as long as the market is
    /// remembered.
    pub fn launch(&mut self, market: i64) -> (start: bool)
        ensures
            start == !old(self)@.launched.contains(market),
            final(self)@ == (SupervisorView {
                launched: old(self)@.launched.insert(market),
                ..old(self)@
            }),
    {
        self.launched.insert(market)
    }

    /// Decides about a worker that finished at the time `now_nanos`.
    pub fn finished(&mut self, market: i64, failed: bool, now_nanos: u64) -> (v: Verdict)
        ensures
            v == verdict_of(old(self)@, market, failed, now_nanos as int),
            final(self)@.launched == old(self)@.launched,
            forall|m: i64| m != market ==> restarts_of(final(self)@, m) == restarts_of(
                old(self)@,
                m,
            ),
            restarts_of(final(self)@, market) == (match v {
                Verdict::Restart { attempt } => attempt,
                _ => restarts_of(old(self)@, market),
            }),
    {
        if !failed {
            return Verdict::Finished;
        }
        let count: u32 = match self.restarts.get(&market) {
            Some(n) => *n,
            None => 0,
        };
        let stop: i128 = (market as i128 + MARKET_DURATION as i128 + TAIL_SECONDS as i128) * NANOS;
        if (now_nanos as i128) < stop && count < MAX_RESTARTS {
            self.restarts.insert(market, count + 1);
            Verdict::Restart { attempt: count + 1 }
        } else {
            self.restarts.insert(market, count);
            Verdict::GivenUp
        }
    }

    /// Forgets the markets that were launched long ago.
    pub fn prune(&mut self, now_nanos: u64)
        ensures
            final(self)@.restarts == old(self)@.restarts,
            forall|m: i64|
                final(self)@.launched.contains(m) <==> old(self)@.launched.contains(m) && m
                    > forget_before(now_nanos as int),
    {
        let now: i128 = now_nanos as i128;
        let cutoff: i128 = if now >= MEMORY_SECONDS * NANOS {
            (now - MEMORY_SECONDS * NANOS) / NANOS
        } else {
            -((MEMORY_SECONDS * NANOS - now) / NANOS)
        };
        let ghost before = self.launched@;
        let ghost all = vstd::std_specs::iter::IteratorSpec::remaining(
            &spec_btree_keys_iter(&self.launched),
        );
        let mut kept: BTreeSet<i64> = BTreeSet::new();
        for m in walk: self.launched.iter()
            invariant
                walk.seq() == all,
                forall|x: i64|
                    kept@.contains(x) <==> (exists|k: int|
                        0 <= k < walk.index() && *(#[trigger] walk.seq()[k]) == x) && x > cutoff,
        {
            if *m as i128 > cutoff {
                kept.insert(*m);
            }
            proof {
                let done = walk.index();
                assert forall|x: i64|
                    kept@.contains(x) <==> (exists|k: int|
                        0 <= k < done + 1 && *(#[trigger] walk.seq()[k]) == x) && x > cutoff by {
                    if *m == x {
                        assert(*walk.seq()[done] == x);
                    }
                }
            }
        }
        proof {
            assert(all.unref().to_set() == before);
            assert forall|x: i64|
                kept@.contains(x) <==> before.contains(x) && x > forget_before(
                    now_nanos as int,
                ) by {
                if kept@.contains(x) {
                    let k = choose|k: int| 0 <= k < all.len() && *(#[trigger] all[k]) == x;
                    assert(all.unref()[k] == x);
                }
                if before.contains(x) {
                    assert(all.unref().contains(x));
                    let k = all.unref().index_of(x);
                    assert(*all[k] == x);
                }
            }
        }
        self.launched = kept;
    }
}

/// A worker is started again at most once, and never after the collection of its market is
/// over or after it finished well.
pub proof fn restarts_are_limited(s: SupervisorView, market: i64, failed: bool, now: int)
    ensures
        verdict_of(s, market, failed, now) is Restart ==> failed && in_window(market, now)
            && restarts_of(s, market) == 0,
        restarts_of(s, market) >= MAX_RESTARTS && failed ==> verdict_of(s, market, failed, now)
            == Verdict::GivenUp,
        !failed ==> verdict_of(s, market, failed, now) == Verdict::Finished,
{
}

/// The next market starts at a multiple of five minutes, seventy seconds ahead at least and less
/// than five minutes more.
pub proof fn next_markets_leave_time(now: int, start: int)
    requires
        is_next_market(now, start),
    ensures
        start % 300 == 0,
        start * 1_000_000_000 - now >= 70_000_000_000,
        start * 1_000_000_000 - now < 370_000_000_000,
{
}

/// A worker that failed for the first time is started again, as long as its market is collected:
/// until twenty seconds after its five minutes.
pub proof fn failed_workers_are_started_again(s: SupervisorView, market: i64, now: int)
    ensures
        restarts_of(s, market) == 0 && now < (market + 320) * 1_000_000_000 ==> verdict_of(
            s,
            market,
            true,
            now,
        ) == (Verdict::Restart { attempt: 1 }),
        now >= (market + 320) * 1_000_000_000 ==> verdict_of(s, market, true, now)
            == Verdict::GivenUp,
        s.restarts.contains_key(market) ==> restarts_of(s, market) == s.restarts[market],
        !s.restarts.contains_key(market) ==> restarts_of(s, market) == 0,
{
}

/// Markets are remembered for an hour.
pub proof fn markets_are_remembered_for_an_hour(now: int)
    requires
        now >= 3600_000_000_000,
    ensures
        forget_before(now) * 1_000_000_000 <= now - 3600_000_000_000 < (forget_before(now) + 1)
            * 1_000_000_000,
{
}

} // verus!
