//! Replaying recorded markets to judge the fair value.

use vstd::prelude::*;
use vstd::std_specs::btree::*;
use vstd::string::*;

use std::collections::BTreeMap;

use crate::config::TAIL_SECONDS;
use crate::fair_value;
use crate::fair_value::{Double, FairValueSnapshot};
use crate::float;
use crate::float::{less, positive};
use crate::json;
use crate::json::{Json, JsonView};
use crate::poly_gamma;
use crate::poly_gamma::read_list;
use crate::sim::market_data;
use crate::sim::market_data::{market_end_ms, PriceLevel};
use crate::text::{same_text, Text};

verus! {

// Events

/// Something that happened on the exchange.
pub enum BinanceEvent {
    BookTicker { ts_ms: i64, bid: u64, bid_qty: u64, ask: u64, ask_qty: u64 },
    Trade { ts_ms: i64, qty: u64, is_buy: bool },
    Depth { bids: Vec<PriceLevel>, asks: Vec<PriceLevel> },
}

/// What an event holds.
pub enum BinanceEventView {
    BookTicker { ts_ms: i64, bid: u64, bid_qty: u64, ask: u64, ask_qty: u64 },
    Trade { ts_ms: i64, qty: u64, is_buy: bool },
    Depth { bids: Seq<PriceLevel>, asks: Seq<PriceLevel> },
}

impl View for BinanceEvent {
    type V = BinanceEventView;

    open spec fn view(&self) -> BinanceEventView {
        match self {
            BinanceEvent::BookTicker { ts_ms, bid, bid_qty, ask, ask_qty } => BinanceEventView::BookTicker {
                ts_ms: *ts_ms,
                bid: *bid,
                bid_qty: *bid_qty,
                ask: *ask,
                ask_qty: *ask_qty,
            },
            BinanceEvent::Trade { ts_ms, qty, is_buy } => BinanceEventView::Trade {
                ts_ms: *ts_ms,
                qty: *qty,
                is_buy: *is_buy,
            },
            BinanceEvent::Depth { bids, asks } => BinanceEventView::Depth {
                bids: bids@,
                asks: asks@,
            },
        }
    }
}

/// What a list of events holds.
pub open spec fn events_of(events: Seq<BinanceEvent>) -> Seq<BinanceEventView> {
    events.map_values(|e: BinanceEvent| e@)
}

/// The time at which a sample may be taken with an event; a book has none.
pub open spec fn sample_time_of(e: BinanceEventView) -> Option<i64> {
    match e {
        BinanceEventView::BookTicker { ts_ms, .. } => Some(ts_ms),
        BinanceEventView::Trade { ts_ms, .. } => Some(ts_ms),
        BinanceEventView::Depth { .. } => None,
    }
}

/// Samples lie this many milliseconds apart.
pub const SAMPLE_MS: i64 = 100;

/// A sample is due with an event: the market runs, and the last sample is old enough.
pub open spec fn is_due(e: BinanceEventView, start_ms: int, end_ms: int, last_ms: int) -> bool {
    sample_time_of(e) matches Some(t) && start_ms <= t <= end_ms && t - last_ms >= SAMPLE_MS
}

/// The time of the sample that is due with an event, if one is.
pub fn sample_due(e: &BinanceEvent, start_ms: i64, end_ms: i64, last_ms: i64) -> (t: Option<i64>)
    ensures
        t == (if is_due(e@, start_ms as int, end_ms as int, last_ms as int) {
            sample_time_of(e@)
        } else {
            None
        }),
{
    let t: i64 = match e {
        BinanceEvent::BookTicker { ts_ms, .. } => *ts_ms,
        BinanceEvent::Trade { ts_ms, .. } => *ts_ms,
        BinanceEvent::Depth { .. } => {
            return None;
        },
    };
    if t < start_ms || t > end_ms {
        return None;
    }
    if t as i128 - (last_ms as i128) < SAMPLE_MS as i128 {
        return None;
    }
    Some(t)
}

// Loading

/// The recording of a market: its events, the strike if it is known, and the last middle price
/// before the collection ended.
pub struct Tape {
    pub events: Vec<BinanceEvent>,
    pub strike: Option<u64>,
    pub final_btc_mid: u64,
    pub collection_end_ms: i64,
}

/// What the recording of a market holds.
pub struct TapeView {
    pub events: Seq<BinanceEventView>,
    pub strike: Option<u64>,
    pub final_btc_mid: u64,
    pub collection_end_ms: i64,
}

impl View for Tape {
    type V = TapeView;

    open spec fn view(&self) -> TapeView {
        TapeView {
            events: events_of(self.events@),
            strike: self.strike,
            final_btc_mid: self.final_btc_mid,
            collection_end_ms: self.collection_end_ms,
        }
    }
}

/// A recording with one more event.
pub open spec fn with_event(t: TapeView, e: BinanceEventView) -> TapeView {
    TapeView { events: t.events.push(e), ..t }
}

impl Tape {
    /// An empty recording.
    pub fn new(epoch: i64) -> (t: Tape)
        requires
            market_data::epoch_in_reach(epoch as int),
        ensures
            t@ == (TapeView {
                events: seq![],
                strike: None,
                final_btc_mid: 0,
                collection_end_ms: market_data::collection_end(epoch as int) as i64,
            }),
    {
        let t: Tape = Tape {
            events: Vec::new(),
            strike: None,
            final_btc_mid: 0,
            collection_end_ms: market_end_ms(epoch) + TAIL_SECONDS as i64 * 1000,
        };
        assert(t@.events =~= seq![]);
        t
    }

    fn push(&mut self, e: BinanceEvent)
        ensures
            final(self)@ == with_event(old(self)@, e@),
    {
        let ghost before = self@.events;
        self.events.push(e);
        assert(self@.events =~= before.push(e@));
    }

    /// Takes in the best prices, where they are positive. Their middle counts for the outcome
    /// until the collection ends.
    pub fn add_ticker(&mut self, ts_ms: i64, bid: u64, bid_qty: u64, ask: u64, ask_qty: u64, mid: u64)
        ensures
            final(self)@ == (if float::pos(bid) && float::pos(ask) {
                TapeView {
                    final_btc_mid: if ts_ms <= old(self)@.collection_end_ms {
                        mid
                    } else {
                        old(self)@.final_btc_mid
                    },
                    ..with_event(
                        old(self)@,
                        BinanceEventView::BookTicker { ts_ms, bid, bid_qty, ask, ask_qty },
                    )
                }
            } else {
                old(self)@
            }),
    {
        if positive(bid) && positive(ask) {
            self.push(BinanceEvent::BookTicker { ts_ms, bid, bid_qty, ask, ask_qty });
            if ts_ms <= self.collection_end_ms {
                self.final_btc_mid = mid;
            }
        }
    }

    /// Takes in a trade, where its quantity is positive.
    pub fn add_trade(&mut self, ts_ms: i64, qty: u64, is_buy: bool)
        ensures
            final(self)@ == (if float::pos(qty) {
                with_event(old(self)@, BinanceEventView::Trade { ts_ms, qty, is_buy })
            } else {
                old(self)@
            }),
    {
        if positive(qty) {
            self.push(BinanceEvent::Trade { ts_ms, qty, is_buy });
        }
    }

    /// Takes in a book, where neither side is empty.
    pub fn add_depth(&mut self, bids: Vec<PriceLevel>, asks: Vec<PriceLevel>)
        ensures
            final(self)@ == (if bids@.len() > 0 && asks@.len() > 0 {
                with_event(old(self)@, BinanceEventView::Depth { bids: bids@, asks: asks@ })
            } else {
                old(self)@
            }),
    {
        if bids.len() > 0 && asks.len() > 0 {
            self.push(BinanceEvent::Depth { bids, asks });
        }
    }

    /// Takes in the strike, where it is positive.
    pub fn add_strike(&mut self, price: u64)
        ensures
            final(self)@ == (if float::pos(price) {
                TapeView { strike: Some(price), ..old(self)@ }
            } else {
                old(self)@
            }),
    {
        if positive(price) {
            self.strike = Some(price);
        }
    }

    /// The strike, and whether the market went up; a fault where there was no strike.
    pub fn outcome(&self) -> (r: Result<(u64, bool), String>)
        ensures
            match (r, self@.strike) {
                (Ok((s, up)), Some(strike)) => s == strike && up == float::lt(
                    strike,
                    self@.final_btc_mid,
                ),
                (Err(m), None) => m@ == "No strike price"@,
                _ => false,
            },
    {
        match self.strike {
            Some(strike) => Ok((strike, less(strike, self.final_btc_mid))),
            None => Err("No strike price".to_owned()),
        }
    }
}

// Prices of the market

/// The object of a lookup: what came, or else what was read.
pub open spec fn lookup_of(v: JsonView) -> JsonView {
    if json::field(v, "raw"@) is Object {
        json::field(v, "raw"@)
    } else {
        json::field(v, "normalized"@)
    }
}

/// The first token that a lookup names, if it names one.
pub open spec fn first_token(v: JsonView) -> Option<Text> {
    match json::field(lookup_of(v), "clobTokenIds"@) {
        JsonView::Str(s) => match poly_gamma::listed_texts(s) {
            Some(l) => if l.len() > 0 { Some(l[0]) } else { None },
            None => None,
        },
        JsonView::Array(items) => if items.len() > 0 { json::str_of(items[0]) } else { None },
        _ => None,
    }
}

/// A line of the file of a market.
pub enum MidLine {
    Nothing,
    Prices { ts_ms: i64, bid: Option<String>, ask: Option<String> },
}

/// What a line of the file of a market holds.
pub enum MidLineView {
    Nothing,
    Prices { ts_ms: i64, bid: Option<Text>, ask: Option<Text> },
}

impl View for MidLine {
    type V = MidLineView;

    open spec fn view(&self) -> MidLineView {
        match self {
            MidLine::Nothing => MidLineView::Nothing,
            MidLine::Prices { ts_ms, bid, ask } => MidLineView::Prices {
                ts_ms: *ts_ms,
                bid: json::opt_string(*bid),
                ask: json::opt_string(*ask),
            },
        }
    }
}

/// What a line of the file of a market tells of its first token, and the name of that token
/// after it.
pub open spec fn mid_line(v: JsonView, up: Option<Text>) -> (Option<Text>, MidLineView) {
    let kind = market_data::text_in(v, "event_type"@);
    let n = json::field(v, "normalized"@);
    if kind == "market_lookup"@ {
        (if first_token(v) is Some { first_token(v) } else { up }, MidLineView::Nothing)
    } else if kind == "book_state"@ && up == Some(market_data::text_in(n, "asset_id"@)) {
        (
            up,
            MidLineView::Prices {
                ts_ms: market_data::whole_in(v, "ts_recv_ms"@),
                bid: json::str_of(json::field(n, "best_bid"@)),
                ask: json::str_of(json::field(n, "best_ask"@)),
            },
        )
    } else {
        (up, MidLineView::Nothing)
    }
}

fn owned(s: Option<&str>) -> (r: Option<String>)
    ensures
        json::opt_string(r) == json::opt_text(s),
{
    match s {
        Some(s) => Some(s.to_owned()),
        None => None,
    }
}

fn find_first_token(v: &Json) -> (t: Option<String>)
    ensures
        json::opt_string(t) == first_token(v@),
{
    let none: Json = Json::Null;
    let raw: &Json = match v.get("raw") {
        Some(j) => j,
        None => &none,
    };
    let normalized: &Json = match v.get("normalized") {
        Some(j) => j,
        None => &none,
    };
    let found: &Json = match raw {
        Json::Object(_) => raw,
        _ => normalized,
    };
    match found.get("clobTokenIds") {
        Some(Json::Str(s)) => match read_list(s.as_str()) {
            Some(l) => {
                let ghost listed = json::strings(l@);
                assert(listed.len() == l@.len());
                if l.len() > 0 {
                    assert(listed[0] == l@[0]@);
                    Some(l[0].clone())
                } else {
                    None
                }
            },
            None => None,
        },
        Some(Json::Array(items)) => {
            assert(json::items_view(items@).len() == items@.len());
            if items.len() > 0 {
                assert(json::items_view(items@)[0] == items@[0]@);
                owned(items[0].as_str())
            } else {
                None
            }
        },
        _ => None,
    }
}

/// Reads a line of the file of a market.
pub fn read_mid_line(v: &Json, up: &mut Option<String>) -> (line: MidLine)
    ensures
        (json::opt_string(*final(up)), line@) == mid_line(v@, json::opt_string(*old(up))),
{
    let kind: String = match v.str_field("event_type") {
        Some(s) => s.to_owned(),
        None => {
            let s: String = String::new();
            assert(s@ =~= seq![]);
            s
        },
    };
    if same_text(kind.as_str(), "market_lookup") {
        let found: Option<String> = find_first_token(v);
        if found.is_some() {
            *up = found;
        }
        return MidLine::Nothing;
    }
    if !same_text(kind.as_str(), "book_state") {
        return MidLine::Nothing;
    }
    let none: Json = Json::Null;
    let n: &Json = match v.get("normalized") {
        Some(j) => j,
        None => &none,
    };
    let name: String = match n.str_field("asset_id") {
        Some(s) => s.to_owned(),
        None => {
            let s: String = String::new();
            assert(s@ =~= seq![]);
            s
        },
    };
    let ours: bool = match &*up {
        Some(id) => same_text(name.as_str(), id.as_str()),
        None => false,
    };
    if !ours {
        return MidLine::Nothing;
    }
    let ts_ms: i64 = match v.i64_field("ts_recv_ms") {
        Some(t) => t,
        None => 0,
    };
    MidLine::Prices {
        ts_ms,
        bid: owned(n.str_field("best_bid")),
        ask: owned(n.str_field("best_ask")),
    }
}

/// Middle prices of a token, by the time.
pub struct PolyMids {
    pub mids: BTreeMap<i64, u64>,
}

impl View for PolyMids {
    type V = Map<i64, u64>;

    open spec fn view(&self) -> Map<i64, u64> {
        self.mids@
    }
}

/// Prices are compared that lie at most this many milliseconds apart.
pub const NEAR_MS: i64 = 500;

/// The distance of two times.
pub open spec fn distance(a: int, b: int) -> int {
    if a < b { b - a } else { a - b }
}

/// One time is nearer to another one than a third: by its distance, and at the same distance the
/// earlier one.
pub open spec fn nearer(a: int, b: int, to: int) -> bool {
    distance(a, to) < distance(b, to) || (distance(a, to) == distance(b, to) && a < b)
}

/// The time in a map that is nearest to a time.
pub open spec fn is_nearest(m: Map<i64, u64>, k: i64, ts: int) -> bool {
    &&& m.contains_key(k)
    &&& distance(k as int, ts) <= NEAR_MS
    &&& forall|l: i64| m.contains_key(l) && l != k ==> #[trigger] nearer(k as int, l as int, ts)
}

impl PolyMids {
    /// No prices.
    pub fn new() -> (p: PolyMids)
        ensures
            p@ == Map::<i64, u64>::empty(),
    {
        PolyMids { mids: BTreeMap::new() }
    }

    /// Remembers the middle of two best prices, where both are positive.
    pub fn add(&mut self, ts_ms: i64, bid: u64, ask: u64, mid: u64)
        ensures
            final(self)@ == (if float::pos(bid) && float::pos(ask) {
                old(self)@.insert(ts_ms, mid)
            } else {
                old(self)@
            }),
    {
        if positive(bid) && positive(ask) {
            self.mids.insert(ts_ms, mid);
        }
    }

    /// The price whose time is nearest to a time, if one is near enough.
    pub fn find_nearest_poly_mid(&self, ts_ms: i64) -> (p: Option<u64>)
        requires
            i64::MIN + NEAR_MS <= ts_ms <= i64::MAX - NEAR_MS,
        ensures
            match p {
                Some(p) => exists|k: i64| #[trigger] is_nearest(self@, k, ts_ms as int) && self@[k] == p,
                None => forall|k: i64| #[trigger]
                    self@.contains_key(k) ==> distance(k as int, ts_ms as int) > NEAR_MS,
            },
    {
        let mut d: i64 = 0;
        while d <= NEAR_MS
            invariant
                0 <= d <= NEAR_MS + 1,
                i64::MIN + NEAR_MS <= ts_ms <= i64::MAX - NEAR_MS,
                forall|k: i64| #[trigger]
                    self@.contains_key(k) ==> distance(k as int, ts_ms as int) >= d,
            decreases NEAR_MS + 1 - d,
        {
            let below: i64 = ts_ms - d;
            let above: i64 = ts_ms + d;
            match self.mids.get(&below) {
                Some(p) => {
                    proof {
                        assert forall|l: i64| self@.contains_key(l) && l != below implies #[trigger] nearer(
                            below as int,
                            l as int,
                            ts_ms as int,
                        ) by {}
                        assert(is_nearest(self@, below, ts_ms as int));
                    }
                    return Some(*p);
                },
                None => {},
            }
            match self.mids.get(&above) {
                Some(p) => {
                    proof {
                        assert forall|l: i64| self@.contains_key(l) && l != above implies #[trigger] nearer(
                            above as int,
                            l as int,
                            ts_ms as int,
                        ) by {}
                        assert(is_nearest(self@, above, ts_ms as int));
                    }
                    return Some(*p);
                },
                None => {},
            }
            d = d + 1;
        }
        None
    }
}

/// The nearest time is only one.
pub proof fn nearest_is_unique(m: Map<i64, u64>, a: i64, b: i64, ts: int)
    requires
        is_nearest(m, a, ts),
        is_nearest(m, b, ts),
    ensures
        a == b,
{
    if a != b {
        assert(nearer(a as int, b as int, ts));
        assert(nearer(b as int, a as int, ts));
    }
}

// Lines that are written

/// What is written of a sample: its fields in the order of the alphabet.
pub open spec fn sample_fields(s: FairValueSnapshot) -> Seq<(Text, JsonView)> {
    seq![
        ("blended_spot"@, fair_value::double_of(s.blended_spot)),
        ("book_imbalance"@, fair_value::double_of(s.book_imbalance)),
        ("depth_microprice"@, fair_value::double_of(s.depth_microprice)),
        ("fair_no"@, fair_value::double_of(s.fair_no)),
        ("fair_yes"@, fair_value::double_of(s.fair_yes)),
    ] + fair_value::optional_field("lstm_fair_no"@, s.lstm_fair_no) + fair_value::optional_field(
        "lstm_fair_yes"@,
        s.lstm_fair_yes,
    ) + seq![
        ("microprice"@, fair_value::double_of(s.microprice)),
        ("mu"@, fair_value::double_of(s.mu)),
        ("rv_15s"@, fair_value::double_of(s.rv_15s)),
        ("rv_1s"@, fair_value::double_of(s.rv_1s)),
        ("rv_5s"@, fair_value::double_of(s.rv_5s)),
        ("sigma_dollars"@, fair_value::double_of(s.sigma_dollars)),
        ("sigma_returns"@, fair_value::double_of(s.sigma_returns)),
        ("strike_price"@, fair_value::double_of(s.strike_price)),
        ("tau"@, fair_value::double_of(s.tau)),
        ("trade_imbalance"@, fair_value::double_of(s.trade_imbalance)),
        ("z_score"@, fair_value::double_of(s.z_score)),
    ]
}

fn double_json(d: &Double) -> (j: Json)
    ensures
        j@ == fair_value::double_of(*d),
{
    Json::double(d.bits, d.text.as_str())
}

fn push_field(fields: Json, key: &str, d: &Double) -> (r: Json)
    requires
        fields@ is Object,
    ensures
        r@ == JsonView::Object(fields@->Object_0.push((key@, fair_value::double_of(*d)))),
{
    fields.with_field(key, double_json(d))
}

fn push_optional(fields: Json, key: &str, d: &Option<Double>) -> (r: Json)
    requires
        fields@ is Object,
    ensures
        r@ == JsonView::Object(fields@->Object_0 + fair_value::optional_field(key@, *d)),
{
    match d {
        Some(d) => {
            let r: Json = push_field(fields, key, d);
            assert(r@->Object_0 =~= fields@->Object_0 + fair_value::optional_field(key@, Some(*d)));
            r
        },
        None => {
            assert(fields@->Object_0 + fair_value::optional_field(key@, None) =~= fields@->Object_0);
            fields
        },
    }
}

fn sample_json(s: &FairValueSnapshot) -> (j: Json)
    ensures
        j@ == JsonView::Object(sample_fields(*s)),
{
    let j: Json = Json::object3(
        "blended_spot",
        double_json(&s.blended_spot),
        "book_imbalance",
        double_json(&s.book_imbalance),
        "depth_microprice",
        double_json(&s.depth_microprice),
    );
    let j: Json = push_field(j, "fair_no", &s.fair_no);
    let j: Json = push_field(j, "fair_yes", &s.fair_yes);
    let j: Json = push_optional(j, "lstm_fair_no", &s.lstm_fair_no);
    let j: Json = push_optional(j, "lstm_fair_yes", &s.lstm_fair_yes);
    let j: Json = push_field(j, "microprice", &s.microprice);
    let j: Json = push_field(j, "mu", &s.mu);
    let j: Json = push_field(j, "rv_15s", &s.rv_15s);
    let j: Json = push_field(j, "rv_1s", &s.rv_1s);
    let j: Json = push_field(j, "rv_5s", &s.rv_5s);
    let j: Json = push_field(j, "sigma_dollars", &s.sigma_dollars);
    let j: Json = push_field(j, "sigma_returns", &s.sigma_returns);
    let j: Json = push_field(j, "strike_price", &s.strike_price);
    let j: Json = push_field(j, "tau", &s.tau);
    let j: Json = push_field(j, "trade_imbalance", &s.trade_imbalance);
    let j: Json = push_field(j, "z_score", &s.z_score);
    assert(j@->Object_0 =~= sample_fields(*s));
    j
}

/// The line of a sample that was computed later. `unix` is its time in seconds.
pub fn fv_line(epoch: i64, ts_ms: i64, unix: &Double, seq: u64, s: &FairValueSnapshot) -> (j: Json)
    ensures
        j@ == JsonView::Object(
            seq![
                ("event_type"@, JsonView::Str("fv_sample"@)),
                ("market_start"@, json::num(epoch as int)),
                ("normalized"@, JsonView::Object(sample_fields(*s))),
                ("seq"@, json::num(seq as int)),
                ("source"@, JsonView::Str("fair_value"@)),
                ("ts_recv_ms"@, json::num(ts_ms as int)),
                ("ts_recv_unix"@, fair_value::double_of(*unix)),
            ],
        ),
{
    let j: Json = Json::object3(
        "event_type",
        Json::text("fv_sample"),
        "market_start",
        Json::whole(epoch),
        "normalized",
        sample_json(s),
    ).with_field("seq", Json::count(seq)).with_field("source", Json::text("fair_value")).with_field(
        "ts_recv_ms",
        Json::whole(ts_ms),
    ).with_field("ts_recv_unix", double_json(unix));
    assert(j@->Object_0 =~= seq![
        ("event_type"@, JsonView::Str("fv_sample"@)),
        ("market_start"@, json::num(epoch as int)),
        ("normalized"@, JsonView::Object(sample_fields(*s))),
        ("seq"@, json::num(seq as int)),
        ("source"@, JsonView::Str("fair_value"@)),
        ("ts_recv_ms"@, json::num(ts_ms as int)),
        ("ts_recv_unix"@, fair_value::double_of(*unix)),
    ]);
    j
}

// Laws

/// A sample is due with every trade and every change of the best prices while the market runs, a
/// tenth of a second after the last one at the earliest; with a book none is.
pub proof fn samples_are_due_in_time(e: BinanceEventView, start_ms: int, end_ms: int, last_ms: int)
    ensures
        match e {
            BinanceEventView::BookTicker { ts_ms, .. } => sample_time_of(e) == Some(ts_ms) && (is_due(
                e,
                start_ms,
                end_ms,
                last_ms,
            ) <==> start_ms <= ts_ms <= end_ms && ts_ms - last_ms >= 100),
            BinanceEventView::Trade { ts_ms, .. } => sample_time_of(e) == Some(ts_ms) && (is_due(
                e,
                start_ms,
                end_ms,
                last_ms,
            ) <==> start_ms <= ts_ms <= end_ms && ts_ms - last_ms >= 100),
            BinanceEventView::Depth { .. } => !is_due(e, start_ms, end_ms, last_ms),
        },
{
}

/// The nearest price is half a second away at most, and none is nearer.
pub proof fn nearest_prices_are_near(m: Map<i64, u64>, k: i64, l: i64, ts: int)
    requires
        is_nearest(m, k, ts),
        m.contains_key(l),
    ensures
        m.contains_key(k),
        -500 <= k - ts <= 500,
        k < ts && l < ts ==> l <= k,
        k > ts && l > ts ==> l >= k,
        k < ts && l > ts ==> l - ts >= ts - k,
        k > ts && l < ts ==> ts - l > k - ts,
        l == ts ==> k == ts,
{
    if l != k {
        assert(nearer(k as int, l as int, ts));
    }
}

/// The first token of a lookup is that of its list, and the prices of its books are read; those of
/// other tokens are not.
pub proof fn prices_are_of_the_first_token(v: JsonView, up: Text, id: Text)
    requires
        json::field(v, "event_type"@) == JsonView::Str("book_state"@),
        json::field(json::field(v, "normalized"@), "asset_id"@) == JsonView::Str(id),
    ensures
        mid_line(v, None) == (None::<Text>, MidLineView::Nothing),
        id != up ==> mid_line(v, Some(up)) == (Some(up), MidLineView::Nothing),
        id == up ==> {
            let n = json::field(v, "normalized"@);
            let (after, line) = mid_line(v, Some(up));
            &&& after == Some(up)
            &&& line is Prices
            &&& line->bid == json::str_of(json::field(n, "best_bid"@))
            &&& line->ask == json::str_of(json::field(n, "best_ask"@))
            &&& json::i64_of(json::field(v, "ts_recv_ms"@)) matches Some(t) ==> line->ts_ms == t
        },
{
    reveal_strlit("book_state");
    reveal_strlit("market_lookup");
    assert("book_state"@.len() != "market_lookup"@.len());
}

/// A lookup names the first token of its list, and one that names none leaves the name as it was.
pub proof fn lookups_name_the_first_token(v: JsonView, up: Option<Text>, first: Text, rest: Seq<JsonView>)
    requires
        json::field(v, "event_type"@) == JsonView::Str("market_lookup"@),
        json::field(v, "raw"@) is Object,
        json::field(json::field(v, "raw"@), "clobTokenIds"@) == JsonView::Array(
            seq![JsonView::Str(first)] + rest,
        ),
    ensures
        mid_line(v, up) == (Some(first), MidLineView::Nothing),
{
    let items = seq![JsonView::Str(first)] + rest;
    assert(items[0] == JsonView::Str(first));
}

} // verus!
