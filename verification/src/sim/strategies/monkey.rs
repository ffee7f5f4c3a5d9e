//! Strategies that act on a weighted sum of what they see.

use vstd::prelude::*;
use vstd::string::*;

use crate::float;
use crate::float::{absolute, less};
use crate::sim::market_data;
use crate::sim::market_data::{Span, Tau, TokenSide};
use crate::sim::order;
use crate::sim::order::{next_random, Order, OrderSide};
use crate::sim::strategy;
use crate::sim::strategy::{other_token, push_buy, too_soon, History, Quotes, StrategyAction};
use crate::text::Text;

verus! {

/// Something that a strategy can look at.
#[derive(Clone, Copy, Debug, PartialEq, Eq, Structural)]
pub enum DataSource {
    BtcPrice,
    BtcDepth,
    BtcTrades,
    FvAnalytical,
    FvLstm,
    PolyBook,
    ZScore,
    TradeImbalance,
    BookImbalance,
    Sigma,
    Tau,
}

/// The name of a source.
pub open spec fn label_of(s: DataSource) -> Text {
    match s {
        DataSource::BtcPrice => "btc_price"@,
        DataSource::BtcDepth => "btc_depth"@,
        DataSource::BtcTrades => "btc_trades"@,
        DataSource::FvAnalytical => "fv_analytical"@,
        DataSource::FvLstm => "fv_lstm"@,
        DataSource::PolyBook => "poly_book"@,
        DataSource::ZScore => "z_score"@,
        DataSource::TradeImbalance => "trade_imbalance"@,
        DataSource::BookImbalance => "book_imbalance"@,
        DataSource::Sigma => "sigma"@,
        DataSource::Tau => "tau"@,
    }
}

/// All sources.
pub open spec fn sources() -> Seq<DataSource> {
    seq![
        DataSource::BtcPrice,
        DataSource::BtcDepth,
        DataSource::BtcTrades,
        DataSource::FvAnalytical,
        DataSource::FvLstm,
        DataSource::PolyBook,
        DataSource::ZScore,
        DataSource::TradeImbalance,
        DataSource::BookImbalance,
        DataSource::Sigma,
        DataSource::Tau,
    ]
}

impl DataSource {
    /// The name of this source.
    pub fn label(&self) -> (s: &'static str)
        ensures
            s@ == label_of(*self),
    {
        match self {
            DataSource::BtcPrice => "btc_price",
            DataSource::BtcDepth => "btc_depth",
            DataSource::BtcTrades => "btc_trades",
            DataSource::FvAnalytical => "fv_analytical",
            DataSource::FvLstm => "fv_lstm",
            DataSource::PolyBook => "poly_book",
            DataSource::ZScore => "z_score",
            DataSource::TradeImbalance => "trade_imbalance",
            DataSource::BookImbalance => "book_imbalance",
            DataSource::Sigma => "sigma",
            DataSource::Tau => "tau",
        }
    }

    /// All sources.
    pub fn all() -> (v: Vec<DataSource>)
        ensures
            v@ == sources(),
    {
        let v: Vec<DataSource> = vec![
            DataSource::BtcPrice,
            DataSource::BtcDepth,
            DataSource::BtcTrades,
            DataSource::FvAnalytical,
            DataSource::FvLstm,
            DataSource::PolyBook,
            DataSource::ZScore,
            DataSource::TradeImbalance,
            DataSource::BookImbalance,
            DataSource::Sigma,
            DataSource::Tau,
        ];
        assert(v@ =~= sources());
        v
    }
}

/// The names of some sources, joined by a sign.
pub open spec fn joined(s: Seq<DataSource>) -> Text
    decreases s.len(),
{
    if s.len() == 0 {
        seq![]
    } else if s.len() == 1 {
        label_of(s[0])
    } else {
        joined(s.drop_last()) + "+"@ + label_of(s.last())
    }
}

/// The name of a strategy that looks at some sources.
pub fn monkey_name(s: &Vec<DataSource>) -> (name: String)
    ensures
        name@ == "monkey["@ + joined(s@) + "]"@,
{
    let mut name: String = "monkey[".to_owned();
    let mut i: usize = 0;
    assert(s@.take(0) =~= seq![]);
    assert(name@ =~= "monkey["@ + joined(s@.take(0)));
    while i < s.len()
        invariant
            i <= s@.len(),
            name@ == "monkey["@ + joined(s@.take(i as int)),
        decreases s@.len() - i,
    {
        proof {
            assert(s@.take(i + 1).drop_last() =~= s@.take(i as int));
            assert(s@.take(i + 1).last() == s@[i as int]);
        }
        if i > 0 {
            name.append("+");
        }
        name.append(s[i].label());
        assert(name@ =~= "monkey["@ + joined(s@.take(i + 1)));
        i = i + 1;
    }
    assert(s@.take(s@.len() as int) =~= s@);
    name.append("]");
    name
}

// What a strategy is made of

/// The fixed part of a strategy, but for its weights.
pub struct MonkeyDNA {
    pub sources: Vec<DataSource>,
    pub threshold: u64,
    pub lookback_ms: u64,
    pub tick_interval_ms: u64,
    pub order_offset_ticks: u8,
    pub order_size: u64,
    pub split_size: u64,
    pub use_split_for_exit: bool,
    pub cancel_stale_ms: u64,
    pub depth_levels: usize,
}

/// A strategy: what it is made of, when it last acted, and the prices and trades that it
/// remembers. A trade is remembered by its quantity, negative for a sale.
pub struct MonkeyStrategy {
    pub dna: MonkeyDNA,
    pub last_eval_ms: i64,
    pub prices: History,
    pub trades: History,
}

/// The cancellations of the orders that have been out for too long.
pub open spec fn stale_orders(orders: Seq<Order>, now_ms: i64, limit_ms: u64) -> Seq<StrategyAction> {
    orders.filter(|o: Order| now_ms - o.submitted_at_ms > limit_ms).map_values(
        |o: Order| StrategyAction::CancelOrder { order_id: o.id },
    )
}

/// A sale of a token above the best bid, where more than its size can be sold and the price is
/// below one.
pub open spec fn exit(q: Quotes, t: TokenSide, size: u64) -> Seq<StrategyAction> {
    match strategy::quote_of(q, t).above_bid {
        Some(p) => if float::lt(size, strategy::quote_of(q, t).sellable) && float::lt(p, float::ONE) {
            seq![strategy::sell(t, p, size)]
        } else {
            seq![]
        },
        None => seq![],
    }
}

/// The orders for a signal: where it is strong enough, buy the token that it points to and sell
/// the other.
pub open spec fn orders_for(signal: u64, threshold: u64, q: Quotes, size: u64) -> Seq<StrategyAction> {
    if float::lt(threshold, float::abs(signal)) {
        let t = if float::pos(signal) { TokenSide::Up } else { TokenSide::Down };
        strategy::buy_below(q, t, size) + exit(q, strategy::other(t), size)
    } else {
        seq![]
    }
}

impl MonkeyStrategy {
    /// A strategy that has seen nothing.
    pub fn new(dna: MonkeyDNA) -> (s: MonkeyStrategy)
        ensures
            s.dna == dna,
            s.last_eval_ms == 0,
            s.prices@ == Seq::<(i64, u64)>::empty(),
            s.trades@ == Seq::<(i64, u64)>::empty(),
    {
        MonkeyStrategy { dna, last_eval_ms: 0, prices: History::new(), trades: History::new() }
    }

    /// The name of the strategy.
    pub fn name(&self) -> (name: String)
        ensures
            name@ == "monkey["@ + joined(self.dna.sources@) + "]"@,
    {
        monkey_name(&self.dna.sources)
    }

    /// Remembers a price.
    pub fn observe_price(&mut self, ts_ms: i64, mid: u64)
        ensures
            final(self).prices@ == strategy::remembered(old(self).prices@, (ts_ms, mid), 200, 100),
            final(self).trades == old(self).trades,
            final(self).dna == old(self).dna,
            final(self).last_eval_ms == old(self).last_eval_ms,
    {
        self.prices.remember(ts_ms, mid, 200, 100);
    }

    /// Remembers a trade.
    pub fn observe_trade(&mut self, ts_ms: i64, signed_qty: u64)
        ensures
            final(self).trades@ == strategy::remembered(
                old(self).trades@,
                (ts_ms, signed_qty),
                500,
                250,
            ),
            final(self).prices == old(self).prices,
            final(self).dna == old(self).dna,
            final(self).last_eval_ms == old(self).last_eval_ms,
    {
        self.trades.remember(ts_ms, signed_qty, 500, 250);
    }

    /// The price to compare the present one with: the last that is old enough, or else the first;
    /// none where there is none.
    pub fn reference_price(&self, now_ms: i64) -> (p: Option<u64>)
        ensures
            p == (match strategy::last_before(self.prices@, now_ms - self.dna.lookback_ms) {
                Some(p) => Some(p),
                None => if self.prices@.len() > 0 { Some(self.prices@[0].1) } else { None },
            }),
    {
        match self.prices.at(now_ms, self.dna.lookback_ms) {
            Some(p) => Some(p),
            None => {
                if self.prices.entries.len() > 0 {
                    Some(self.prices.entries[0].1)
                } else {
                    None
                }
            },
        }
    }

    /// Whether it is time to act; the time is then noted.
    pub fn is_time(&mut self, now_ms: i64) -> (b: bool)
        ensures
            b == !(now_ms - old(self).last_eval_ms < old(self).dna.tick_interval_ms),
            final(self).last_eval_ms == (if b { now_ms } else { old(self).last_eval_ms }),
            final(self).dna == old(self).dna,
            final(self).prices == old(self).prices,
            final(self).trades == old(self).trades,
    {
        if too_soon(now_ms, self.last_eval_ms, self.dna.tick_interval_ms) {
            return false;
        }
        self.last_eval_ms = now_ms;
        true
    }

    /// The cancellations of orders that have been live for too long.
    pub fn cancel_stale(&self, orders: &Vec<Order>, now_ms: i64) -> (actions: Vec<StrategyAction>)
        ensures
            actions@ == stale_orders(orders@, now_ms, self.dna.cancel_stale_ms),
    {
        let limit: u64 = self.dna.cancel_stale_ms;
        let mut actions: Vec<StrategyAction> = Vec::new();
        let mut i: usize = 0;
        proof {
            reveal(Seq::filter);
            assert(orders@.take(0) =~= seq![]);
            assert(actions@ =~= stale_orders(orders@.take(0), now_ms, limit));
        }
        while i < orders.len()
            invariant
                i <= orders@.len(),
                actions@ == stale_orders(orders@.take(i as int), now_ms, limit),
            decreases orders@.len() - i,
        {
            proof {
                reveal(Seq::filter);
                assert(orders@.take(i + 1).drop_last() =~= orders@.take(i as int));
                assert(orders@.take(i + 1).last() == orders@[i as int]);
            }
            let age: i128 = now_ms as i128 - orders[i].submitted_at_ms as i128;
            if age > limit as i128 {
                actions.push(StrategyAction::CancelOrder { order_id: orders[i].id });
            }
            assert(actions@ =~= stale_orders(orders@.take(i + 1), now_ms, limit));
            i = i + 1;
        }
        assert(orders@.take(orders@.len() as int) =~= orders@);
        actions
    }

    /// The orders for a signal; none in the last five seconds.
    pub fn orders(&self, tau: Tau, signal: u64, q: &Quotes) -> (actions: Vec<StrategyAction>)
        ensures
            actions@ == (if market_data::is_below(tau, market_data::five_secs()) {
                Seq::<StrategyAction>::empty()
            } else {
                orders_for(signal, self.dna.threshold, *q, self.dna.order_size)
            }),
    {
        let mut actions: Vec<StrategyAction> = Vec::new();
        let five: Span = Span { ms: 5000, secs: 0x4014_0000_0000_0000 };
        if tau.below(five) {
            return actions;
        }
        let size: u64 = self.dna.order_size;
        if less(self.dna.threshold, absolute(signal)) {
            let t: TokenSide = if less(0, signal) { TokenSide::Up } else { TokenSide::Down };
            let _ = push_buy(&mut actions, q, t, size);
            let o: TokenSide = other_token(t);
            match q.of(o).above_bid {
                Some(price) => {
                    if less(size, q.of(o).sellable) && less(price, float::ONE) {
                        actions.push(
                            StrategyAction::PlaceOrder {
                                token: o,
                                side: OrderSide::Ask,
                                price,
                                size,
                            },
                        );
                    }
                },
                None => {},
            }
        }
        assert(actions@ =~= orders_for(signal, self.dna.threshold, *q, size));
        actions
    }
}

// Making strategies

/// The next random number, as a part of 2^53.
pub fn random_part(state: &mut u64) -> (r: u64)
    ensures
        *final(state) == order::next_state(*old(state)),
        r == order::next_state(*old(state)) / 2048,
        r < 0x20_0000_0000_0000,
{
    *state = next_random(*state);
    *state / 2048
}

/// Whether the places of a combination rise.
pub open spec fn rising(c: Seq<usize>) -> bool {
    forall|i: int, j: int| 0 <= i < j < c.len() ==> #[trigger] c[i] < #[trigger] c[j]
}

/// The next combination of places below `n`, in the order of a dictionary: the last place that can
/// be raised is raised, and those behind it follow it closely. None after the last.
pub open spec fn follows(c: Seq<usize>, d: Seq<usize>, n: int) -> bool {
    exists|p: int|
        0 <= p < c.len() && d.len() == c.len() && #[trigger] d[p] == c[p] + 1 && d[p] + (c.len() - 1 - p) < n
            && (forall|i: int| 0 <= i < p ==> #[trigger] d[i] == c[i]) && (forall|i: int|
            p < i < c.len() ==> #[trigger] d[i] == d[p] + (i - p)) && (forall|q: int|
            p < q < c.len() ==> #[trigger] c[q] + 1 + (c.len() - 1 - q) >= n)
}

/// No combination follows.
pub open spec fn is_last(c: Seq<usize>, n: int) -> bool {
    forall|q: int| 0 <= q < c.len() ==> #[trigger] c[q] + 1 + (c.len() - 1 - q) >= n
}

/// The combination that follows another one.
pub fn next_combination(c: &Vec<usize>, n: usize) -> (d: Option<Vec<usize>>)
    requires
        c@.len() <= n <= 1000,
        forall|i: int| 0 <= i < c@.len() ==> #[trigger] c@[i] < n,
    ensures
        match d {
            Some(d) => follows(c@, d@, n as int) && (forall|i: int|
                0 <= i < d@.len() ==> #[trigger] d@[i] < n),
            None => is_last(c@, n as int),
        },
{
    let k: usize = c.len();
    let mut p: usize = k;
    while p > 0
        invariant
            p <= k == c@.len(),
            k <= n <= 1000,
            forall|i: int| 0 <= i < c@.len() ==> #[trigger] c@[i] < n,
            forall|q: int| p <= q < k ==> #[trigger] c@[q] + 1 + (k - 1 - q) >= n,
        decreases p,
    {
        p = p - 1;
        if c[p] + 1 + (k - 1 - p) < n {
            let first: usize = c[p] + 1;
            let mut d: Vec<usize> = Vec::new();
            let mut i: usize = 0;
            while i < k
                invariant
                    i <= k == c@.len(),
                    p < k,
                    k <= n <= 1000,
                    first == c@[p as int] + 1,
                    first + (k - 1 - p) < n,
                    forall|j: int| 0 <= j < c@.len() ==> #[trigger] c@[j] < n,
                    d@.len() == i,
                    forall|j: int| 0 <= j < i && j < p ==> #[trigger] d@[j] == c@[j],
                    forall|j: int| p <= j < i ==> #[trigger] d@[j] == first + (j - p),
                decreases k - i,
            {
                if i < p {
                    d.push(c[i]);
                } else {
                    d.push(first + (i - p));
                }
                i = i + 1;
            }
            assert(d@[p as int] == c@[p as int] + 1);
            assert(follows(c@, d@, n as int));
            return Some(d);
        }
    }
    None
}

/// The first combination of a size.
pub fn first_combination(k: usize) -> (c: Vec<usize>)
    ensures
        c@ == Seq::new(k as nat, |i: int| i as usize),
{
    let mut c: Vec<usize> = Vec::new();
    let mut i: usize = 0;
    while i < k
        invariant
            i <= k,
            c@ == Seq::new(i as nat, |j: int| j as usize),
        decreases k - i,
    {
        c.push(i);
        i = i + 1;
        assert(c@ =~= Seq::new(i as nat, |j: int| j as usize));
    }
    c
}

/// A list of combinations holds all of one size: it begins with the first, each one follows the
/// one before it, and it ends with the last.
pub open spec fn enumerates(l: Seq<Seq<usize>>, k: nat, n: int) -> bool {
    &&& l.len() > 0
    &&& l[0] == Seq::new(k, |i: int| i as usize)
    &&& forall|i: int| 0 <= i < l.len() - 1 ==> follows(#[trigger] l[i], l[i + 1], n)
    &&& is_last(l.last(), n)
}

/// What a list of combinations holds.
pub open spec fn combos(l: Seq<Vec<usize>>) -> Seq<Seq<usize>> {
    l.map_values(|c: Vec<usize>| c@)
}

/// A place of a combination, or zero.
pub open spec fn place(c: Seq<usize>, i: int) -> int {
    if 0 <= i < c.len() { c[i] as int } else { 0 }
}

/// Every combination is of a size and lies below a number.
pub open spec fn all_below(l: Seq<Vec<usize>>, k: nat, n: int) -> bool {
    forall|i: int| 0 <= i < l.len() ==> is_below(#[trigger] l[i]@, k, n)
}

/// A combination is of a size and lies below a number.
pub open spec fn is_below(c: Seq<usize>, k: nat, n: int) -> bool {
    c.len() == k && forall|j: int| 0 <= j < c.len() ==> #[trigger] c[j] < n
}

/// All combinations of a size.
pub fn combinations(k: usize, n: usize) -> (l: Vec<Vec<usize>>)
    requires
        1 <= k <= 4,
        k <= n <= 1000,
    ensures
        enumerates(combos(l@), k as nat, n as int),
        all_below(l@, k as nat, n as int),
{
    let mut l: Vec<Vec<usize>> = Vec::new();
    let mut current: Vec<usize> = first_combination(k);
    l.push(first_combination(k));
    let mut done: bool = false;
    assert(combos(l@)[0] == current@);
    while !done
        invariant
            1 <= k <= 4,
            k <= n <= 1000,
            l@.len() > 0,
            combos(l@)[0] == Seq::new(k as nat, |i: int| i as usize),
            combos(l@).last() == current@,
            is_below(current@, k as nat, n as int),
            all_below(l@, k as nat, n as int),
            forall|i: int|
                0 <= i < l@.len() - 1 ==> follows(
                    #[trigger] combos(l@)[i],
                    combos(l@)[i + 1],
                    n as int,
                ),
            done ==> is_last(current@, n as int),
        decreases
                (if done { 0int } else { 1int }),
                n - place(current@, 0),
                n - place(current@, 1),
                n - place(current@, 2),
                n - place(current@, 3),
    {
        match next_combination(&current, n) {
            Some(d) => {
                let ghost was = l@;
                let ghost from = current@;
                let copy: Vec<usize> = copy_places(&d);
                l.push(copy);
                proof {
                    assert(combos(l@) =~= combos(was).push(d@));
                    assert forall|i: int| 0 <= i < l@.len() - 1 implies follows(
                        #[trigger] combos(l@)[i],
                        combos(l@)[i + 1],
                        n as int,
                    ) by {
                        if i < was.len() - 1 {
                            assert(combos(was)[i] == combos(l@)[i]);
                            assert(combos(was)[i + 1] == combos(l@)[i + 1]);
                        }
                    }
                    let p = choose|p: int|
                        0 <= p < from.len() && d@.len() == from.len() && #[trigger] d@[p] == from[p] + 1
                            && d@[p] + (from.len() - 1 - p) < n && (forall|i: int|
                            0 <= i < p ==> #[trigger] d@[i] == from[i]) && (forall|i: int|
                            p < i < from.len() ==> #[trigger] d@[i] == d@[p] + (i - p)) && (forall|
                            q: int,
                        |
                            p < q < from.len() ==> #[trigger] from[q] + 1 + (from.len() - 1 - q) >= n);
                    assert(place(d@, p) == place(from, p) + 1);
                    assert forall|i: int| 0 <= i < p implies place(d@, i) == place(from, i) by {
                        assert(d@[i] == from[i]);
                    }
                }
                current = d;
            },
            None => {
                done = true;
            },
        }
    }
    l
}

fn copy_places(c: &Vec<usize>) -> (d: Vec<usize>)
    ensures
        d@ == c@,
{
    let mut d: Vec<usize> = Vec::new();
    let mut i: usize = 0;
    while i < c.len()
        invariant
            i <= c@.len(),
            d@ == c@.take(i as int),
        decreases c@.len() - i,
    {
        d.push(c[i]);
        i = i + 1;
        assert(d@ =~= c@.take(i as int));
    }
    assert(c@.take(c@.len() as int) =~= c@);
    d
}

/// Every combination of a list, a number of times.
pub open spec fn repeated(l: Seq<Seq<usize>>, times: nat) -> Seq<Seq<usize>>
    decreases l.len(),
{
    if l.len() == 0 {
        seq![]
    } else {
        repeated(l.drop_last(), times) + Seq::new(times, |i: int| l.last())
    }
}

/// The sources of a combination.
pub open spec fn picked(c: Seq<usize>) -> Seq<DataSource> {
    c.map_values(|i: usize| sources()[i as int])
}

/// The sources of strategies: each source several times, each pair, each three and each four.
pub open spec fn plan_of(
    one: Seq<Seq<usize>>,
    two: Seq<Seq<usize>>,
    three: Seq<Seq<usize>>,
    four: Seq<Seq<usize>>,
) -> Seq<Seq<DataSource>> {
    (repeated(one, 5) + repeated(two, 3) + repeated(three, 1) + repeated(four, 1)).map_values(
        |c: Seq<usize>| picked(c),
    )
}

/// What a list of sources holds.
pub open spec fn picks(l: Seq<Vec<DataSource>>) -> Seq<Seq<DataSource>> {
    l.map_values(|c: Vec<DataSource>| c@)
}

fn pick(c: &Vec<usize>) -> (s: Vec<DataSource>)
    requires
        is_below(c@, c@.len(), 11),
    ensures
        s@ == picked(c@),
{
    let all: Vec<DataSource> = DataSource::all();
    let mut s: Vec<DataSource> = Vec::new();
    let mut i: usize = 0;
    while i < c.len()
        invariant
            i <= c@.len(),
            all@ == sources(),
            is_below(c@, c@.len(), 11),
            s@ == picked(c@).take(i as int),
        decreases c@.len() - i,
    {
        s.push(all[c[i]]);
        i = i + 1;
        assert(s@ =~= picked(c@).take(i as int));
    }
    assert(s@ =~= picked(c@));
    s
}

fn add_combinations(out: &mut Vec<Vec<DataSource>>, l: &Vec<Vec<usize>>, times: usize, k: usize)
    requires
        all_below(l@, k as nat, 11),
    ensures
        picks(final(out)@) == picks(old(out)@) + repeated(combos(l@), times as nat).map_values(
            |c: Seq<usize>| picked(c),
        ),
{
    let ghost start = picks(out@);
    let ghost all = combos(l@);
    let ghost f = |c: Seq<usize>| picked(c);
    let mut i: usize = 0;
    assert(all.take(0) =~= seq![]);
    assert(picks(out@) =~= start + repeated(all.take(0), times as nat).map_values(f));
    while i < l.len()
        invariant
            i <= l@.len(),
            all_below(l@, k as nat, 11),
            all == combos(l@),
            f == (|c: Seq<usize>| picked(c)),
            picks(out@) == start + repeated(all.take(i as int), times as nat).map_values(f),
        decreases l@.len() - i,
    {
        let ghost was = picks(out@);
        let ghost c = l@[i as int]@;
        let mut t: usize = 0;
        assert(was =~= was + Seq::new(0, |j: int| picked(c)));
        while t < times
            invariant
                t <= times,
                i < l@.len(),
                all_below(l@, k as nat, 11),
                c == l@[i as int]@,
                picks(out@) == was + Seq::new(t as nat, |j: int| picked(c)),
            decreases times - t,
        {
            let ghost before = out@;
            assert(is_below(l@[i as int]@, k as nat, 11));
            out.push(pick(&l[i]));
            assert(picks(out@) =~= picks(before).push(picked(c)));
            t = t + 1;
            assert(picks(out@) =~= was + Seq::new(t as nat, |j: int| picked(c)));
        }
        proof {
            assert(all.take(i + 1).drop_last() =~= all.take(i as int));
            assert(all.take(i + 1).last() == c);
            assert(picks(out@) =~= start + repeated(all.take(i + 1), times as nat).map_values(f));
        }
        i = i + 1;
    }
    assert(all.take(all.len() as int) =~= all);
}

/// How many strategies are made: as many as were asked for, but at least one, and no more than
/// there are.
pub open spec fn wanted(count: int, there: int) -> int {
    let some = if count < 1 { 1 } else { count };
    if some < there { some } else { there }
}

/// The sources of the strategies that are made.
pub fn monkey_sources(count: usize) -> (v: Vec<Vec<DataSource>>)
    ensures
        exists|one: Seq<Seq<usize>>, two: Seq<Seq<usize>>, three: Seq<Seq<usize>>, four: Seq<Seq<usize>>|
            enumerates(one, 1, 11) && enumerates(two, 2, 11) && enumerates(three, 3, 11)
                && enumerates(four, 4, 11) && picks(v@) == (#[trigger] plan_of(
                one,
                two,
                three,
                four,
            )).take(wanted(count as int, plan_of(one, two, three, four).len() as int)),
{
    let one: Vec<Vec<usize>> = combinations(1, 11);
    let two: Vec<Vec<usize>> = combinations(2, 11);
    let three: Vec<Vec<usize>> = combinations(3, 11);
    let four: Vec<Vec<usize>> = combinations(4, 11);
    let mut v: Vec<Vec<DataSource>> = Vec::new();
    add_combinations(&mut v, &one, 5, 1);
    add_combinations(&mut v, &two, 3, 2);
    add_combinations(&mut v, &three, 1, 3);
    add_combinations(&mut v, &four, 1, 4);
    let ghost plan = plan_of(combos(one@), combos(two@), combos(three@), combos(four@));
    assert(picks(v@) =~= plan);
    let some: usize = if count < 1 { 1 } else { count };
    if some < v.len() {
        v.truncate(some);
    }
    assert(picks(v@) =~= plan.take(wanted(count as int, plan.len() as int)));
    v
}

/// A combination that follows one whose places rise has rising places too, and is another one.
pub proof fn next_combination_rises(c: Seq<usize>, d: Seq<usize>, n: int)
    requires
        rising(c),
        follows(c, d, n),
    ensures
        rising(d),
        d.len() == c.len(),
        d != c,
{
    let p = choose|p: int|
        0 <= p < c.len() && d.len() == c.len() && #[trigger] d[p] == c[p] + 1 && d[p] + (c.len() - 1 - p)
            < n && (forall|i: int| 0 <= i < p ==> #[trigger] d[i] == c[i]) && (forall|i: int|
            p < i < c.len() ==> #[trigger] d[i] == d[p] + (i - p)) && (forall|q: int|
            p < q < c.len() ==> #[trigger] c[q] + 1 + (c.len() - 1 - q) >= n);
    assert forall|i: int, j: int| 0 <= i < j < d.len() implies #[trigger] d[i] < #[trigger] d[j] by {
        if i < p {
            if j < p {
                assert(c[i] < c[j]);
            } else {
                assert(c[i] < c[p]);
            }
        }
    }
    assert(d[p] != c[p]);
}

/// A signal is acted on where it is stronger than the threshold: where it is positive the first
/// token is bought and the second sold, otherwise the second is bought and the first sold, below
/// one and as far as it is there.
pub proof fn signals_are_acted_on(signal: u64, threshold: u64, q: Quotes, size: u64)
    ensures
        ({
            let strong = float::lt(threshold, float::abs(signal));
            let up = strong && float::lt(0, signal);
            let down = strong && !float::lt(0, signal);
            orders_for(signal, threshold, q, size) == strategy::order_if(
                up && q.up.below_ask is Some && float::lt(0, q.up.below_ask->0),
                TokenSide::Up,
                OrderSide::Bid,
                q.up.below_ask->0,
                size,
            ) + strategy::order_if(
                down && q.down.below_ask is Some && float::lt(0, q.down.below_ask->0),
                TokenSide::Down,
                OrderSide::Bid,
                q.down.below_ask->0,
                size,
            ) + strategy::order_if(
                up && q.down.above_bid is Some && float::lt(size, q.down.sellable) && float::lt(
                    q.down.above_bid->0,
                    0x3FF0_0000_0000_0000,
                ),
                TokenSide::Down,
                OrderSide::Ask,
                q.down.above_bid->0,
                size,
            ) + strategy::order_if(
                down && q.up.above_bid is Some && float::lt(size, q.up.sellable) && float::lt(
                    q.up.above_bid->0,
                    0x3FF0_0000_0000_0000,
                ),
                TokenSide::Up,
                OrderSide::Ask,
                q.up.above_bid->0,
                size,
            )
        }),
{
}

/// Exactly the orders that have been out for longer than the limit are called off.
pub proof fn stale_orders_are_called_off(orders: Seq<Order>, now_ms: i64, limit_ms: u64, id: u64)
    ensures
        stale_orders(orders, now_ms, limit_ms).contains(
            StrategyAction::CancelOrder { order_id: id },
        ) <==> exists|k: int|
            0 <= k < orders.len() && (#[trigger] orders[k]).id == id && now_ms
                - orders[k].submitted_at_ms > limit_ms,
        forall|i: int|
            0 <= i < stale_orders(orders, now_ms, limit_ms).len() ==> #[trigger] stale_orders(
                orders,
                now_ms,
                limit_ms,
            )[i] is CancelOrder,
{
    broadcast use vstd::seq_lib::group_filter_ensures;

    let is_old = |o: Order| now_ms - o.submitted_at_ms > limit_ms;
    let old_ones = orders.filter(is_old);
    let all = stale_orders(orders, now_ms, limit_ms);
    let a = StrategyAction::CancelOrder { order_id: id };
    if all.contains(a) {
        let i = all.index_of(a);
        assert(is_old(old_ones[i]));
        order::lemma_filter_is_part(orders, is_old, i);
        let k = orders.index_of(old_ones[i]);
        assert(orders[k].id == id);
    }
    if exists|k: int|
        0 <= k < orders.len() && (#[trigger] orders[k]).id == id && now_ms
            - orders[k].submitted_at_ms > limit_ms {
        let k = choose|k: int|
            0 <= k < orders.len() && (#[trigger] orders[k]).id == id && now_ms
                - orders[k].submitted_at_ms > limit_ms;
        orders.lemma_filter_contains(is_old, k);
        let i = old_ones.index_of(orders[k]);
        assert(all[i] == a);
    }
}

// All combinations

/// A combination comes before another one or is the same: at the first place where they differ it
/// is lower.
pub open spec fn no_later(a: Seq<usize>, b: Seq<usize>) -> bool {
    a == b || comes_before(a, b)
}

/// At the first place where two combinations differ the one is lower than the other.
pub open spec fn comes_before(a: Seq<usize>, b: Seq<usize>) -> bool {
    exists|q: int| differs_first(a, b, q)
}

/// Two combinations of the same size agree up to a place, and there the one is lower.
pub open spec fn differs_first(a: Seq<usize>, b: Seq<usize>, q: int) -> bool {
    a.len() == b.len() && 0 <= q < a.len() && a[q] < b[q] && forall|i: int|
        0 <= i < q ==> #[trigger] a[i] == b[i]
}

proof fn lemma_first_difference(a: Seq<usize>, b: Seq<usize>, from: int)
    requires
        a.len() == b.len(),
        0 <= from <= a.len(),
        forall|i: int| 0 <= i < from ==> #[trigger] a[i] == b[i],
        forall|i: int| 0 <= i < a.len() ==> #[trigger] a[i] <= b[i],
    ensures
        no_later(a, b),
    decreases a.len() - from,
{
    if from == a.len() {
        assert(a =~= b);
    } else if a[from] < b[from] {
        assert(differs_first(a, b, from));
    } else {
        lemma_first_difference(a, b, from + 1);
    }
}

proof fn lemma_rises_apart(c: Seq<usize>, i: int, j: int)
    requires
        rising(c),
        0 <= i <= j < c.len(),
    ensures
        c[j] >= c[i] + (j - i),
    decreases j - i,
{
    if i < j {
        lemma_rises_apart(c, i, j - 1);
        assert(c[j - 1] < c[j]);
    }
}

proof fn lemma_next_is_no_later(a: Seq<usize>, d: Seq<usize>, c: Seq<usize>, n: int)
    requires
        rising(c),
        is_below(c, c.len(), n),
        comes_before(a, c),
        follows(a, d, n),
    ensures
        no_later(d, c),
{
    let q = choose|q: int| differs_first(a, c, q);
    let k = c.len() as int;
    let p = choose|p: int|
        0 <= p < a.len() && d.len() == a.len() && #[trigger] d[p] == a[p] + 1 && d[p] + (a.len() - 1
            - p) < n && (forall|i: int| 0 <= i < p ==> #[trigger] d[i] == a[i]) && (forall|i: int|
            p < i < a.len() ==> #[trigger] d[i] == d[p] + (i - p)) && (forall|q: int|
            p < q < a.len() ==> #[trigger] a[q] + 1 + (a.len() - 1 - q) >= n);
    lemma_rises_apart(c, q, k - 1);
    assert(c[k - 1] < n);
    assert(a[q] + 1 + (k - 1 - q) < n);
    assert(q <= p);
    if q < p {
        assert forall|i: int| 0 <= i < q implies #[trigger] d[i] == c[i] by {
            assert(d[i] == a[i]);
        }
        assert(d[q] == a[q]);
        assert(differs_first(d, c, q));
    } else {
        assert forall|i: int| 0 <= i < d.len() implies #[trigger] d[i] <= c[i] by {
            if i < p {
                assert(d[i] == a[i]);
            } else if i > p {
                lemma_rises_apart(c, p, i);
            }
        }
        lemma_first_difference(d, c, 0);
    }
}

proof fn lemma_is_among(l: Seq<Seq<usize>>, c: Seq<usize>, k: nat, n: int, i: int)
    requires
        enumerates(l, k, n),
        rising(c),
        is_below(c, k, n),
        0 <= i < l.len(),
        no_later(l[i], c),
    ensures
        l.contains(c),
    decreases l.len() - i,
{
    if l[i] != c {
        if i == l.len() - 1 {
            let q = choose|q: int| differs_first(l[i], c, q);
            lemma_rises_apart(c, q, c.len() - 1);
            assert(c[c.len() - 1] < n);
            assert(l.last()[q] + 1 + (c.len() - 1 - q) >= n);
        } else {
            assert(follows(l[i], l[i + 1], n));
            lemma_next_is_no_later(l[i], l[i + 1], c, n);
            lemma_is_among(l, c, k, n, i + 1);
        }
    }
}

/// A list of combinations leaves none out: all rising places below the number are in it.
pub proof fn every_combination_is_listed(l: Seq<Seq<usize>>, c: Seq<usize>, k: nat, n: int)
    requires
        enumerates(l, k, n),
        k <= usize::MAX,
        c.len() == k,
        forall|i: int, j: int| 0 <= i < j < c.len() ==> #[trigger] c[i] < #[trigger] c[j],
        forall|i: int| 0 <= i < c.len() ==> #[trigger] c[i] < n,
    ensures
        l.contains(c),
{
    assert forall|i: int| 0 <= i < c.len() implies #[trigger] l[0][i] <= c[i] by {
        lemma_rises_apart(c, 0, i);
    }
    lemma_first_difference(l[0], c, 0);
    lemma_is_among(l, c, k, n, 0);
}

proof fn lemma_listed_rise(l: Seq<Seq<usize>>, k: nat, n: int, i: int)
    requires
        enumerates(l, k, n),
        k <= usize::MAX,
        0 <= i < l.len(),
    ensures
        l[i].len() == k,
        rising(l[i]),
    decreases i,
{
    if i > 0 {
        lemma_listed_rise(l, k, n, i - 1);
        assert(follows(l[i - 1], l[i - 1 + 1], n));
        next_combination_rises(l[i - 1], l[i], n);
    }
}

proof fn lemma_listed_in_order(l: Seq<Seq<usize>>, k: nat, n: int, i: int, j: int)
    requires
        enumerates(l, k, n),
        0 <= i < j < l.len(),
    ensures
        comes_before(l[i], l[j]),
    decreases j - i,
{
    assert(follows(l[j - 1], l[j - 1 + 1], n));
    let a = l[j - 1];
    let d = l[j];
    let p = choose|p: int|
        0 <= p < a.len() && d.len() == a.len() && #[trigger] d[p] == a[p] + 1 && d[p] + (a.len() - 1
            - p) < n && (forall|i: int| 0 <= i < p ==> #[trigger] d[i] == a[i]) && (forall|i: int|
            p < i < a.len() ==> #[trigger] d[i] == d[p] + (i - p)) && (forall|q: int|
            p < q < a.len() ==> #[trigger] a[q] + 1 + (a.len() - 1 - q) >= n);
    assert forall|i: int| 0 <= i < p implies #[trigger] a[i] == d[i] by {
        assert(d[i] == a[i]);
    }
    assert(differs_first(a, d, p));
    if i < j - 1 {
        lemma_listed_in_order(l, k, n, i, j - 1);
        let q = choose|q: int| differs_first(l[i], a, q);
        let r = if q < p { q } else { p };
        assert forall|x: int| 0 <= x < r implies #[trigger] l[i][x] == d[x] by {
            assert(l[i][x] == a[x]);
            assert(a[x] == d[x]);
        }
        if q < p {
            assert(a[q] == d[q]);
        } else if p < q {
            assert(l[i][p] == a[p]);
        }
        assert(differs_first(l[i], d, r));
    }
}

/// A list of combinations holds none twice, and each one has rising places.
pub proof fn no_combination_is_listed_twice(l: Seq<Seq<usize>>, k: nat, n: int, i: int, j: int)
    requires
        enumerates(l, k, n),
        k <= usize::MAX,
        0 <= i < j < l.len(),
    ensures
        l[i] != l[j],
        l[i].len() == k,
        forall|a: int, b: int| 0 <= a < b < l[i].len() ==> #[trigger] l[i][a] < #[trigger] l[i][b],
{
    lemma_listed_rise(l, k, n, i);
    lemma_listed_in_order(l, k, n, i, j);
    let q = choose|q: int| differs_first(l[i], l[j], q);
    assert(l[i][q] != l[j][q]);
}

proof fn lemma_repeated(l: Seq<Seq<usize>>, times: nat, i: int, j: int)
    requires
        0 <= i < l.len(),
        0 <= j < times,
    ensures
        repeated(l, times).len() == l.len() * times,
        0 <= i * times + j < l.len() * times,
        repeated(l, times)[i * times + j] == l[i],
    decreases l.len(),
{
    let n = l.len() - 1;
    let fewer = l.drop_last();
    assert(n * times + times == l.len() * times) by (nonlinear_arith)
        requires
            l.len() == n + 1,
    ;
    if n > 0 {
        lemma_repeated(fewer, times, 0, 0);
    } else {
        assert(fewer =~= seq![]);
        assert(n * times == 0) by (nonlinear_arith)
            requires
                n == 0,
        ;
    }
    assert(repeated(fewer, times).len() == n * times);
    if i < n {
        lemma_repeated(fewer, times, i, j);
        assert(repeated(l, times)[i * times + j] == repeated(fewer, times)[i * times + j]);
    }
}

/// The plan has every source five times, every pair three times, and every three and every four
/// once, one after another.
pub proof fn plans_repeat_combinations(
    one: Seq<Seq<usize>>,
    two: Seq<Seq<usize>>,
    three: Seq<Seq<usize>>,
    four: Seq<Seq<usize>>,
    i: int,
    j: int,
)
    requires
        one.len() > 0 && two.len() > 0 && three.len() > 0 && four.len() > 0,
        0 <= i,
    ensures
        ({
            let plan = plan_of(one, two, three, four);
            let pairs = one.len() * 5;
            let threes = pairs + two.len() * 3;
            let fours = threes + three.len();
            &&& plan.len() == fours + four.len()
            &&& i < one.len() && 0 <= j < 5 ==> plan[i * 5 + j] == picked(one[i])
            &&& i < two.len() && 0 <= j < 3 ==> plan[pairs + i * 3 + j] == picked(two[i])
            &&& i < three.len() ==> plan[threes + i] == picked(three[i])
            &&& i < four.len() ==> plan[fours + i] == picked(four[i])
        }),
{
    let all = repeated(one, 5) + repeated(two, 3) + repeated(three, 1) + repeated(four, 1);
    lemma_repeated(one, 5, 0, 0);
    lemma_repeated(two, 3, 0, 0);
    lemma_repeated(three, 1, 0, 0);
    lemma_repeated(four, 1, 0, 0);
    let pairs = one.len() * 5;
    let threes = pairs + two.len() * 3;
    let fours = threes + three.len();
    if i < one.len() && 0 <= j < 5 {
        lemma_repeated(one, 5, i, j);
        assert(all[i * 5 + j] == one[i]);
    }
    if i < two.len() && 0 <= j < 3 {
        lemma_repeated(two, 3, i, j);
        assert(all[pairs + i * 3 + j] == two[i]);
    }
    if i < three.len() {
        lemma_repeated(three, 1, i, 0);
        assert(all[threes + i] == three[i]);
    }
    if i < four.len() {
        lemma_repeated(four, 1, i, 0);
        assert(all[fours + i] == four[i]);
    }
}

} // verus!
