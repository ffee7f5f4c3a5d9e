//! When the fair value of a market is sampled, what the estimate takes in, and what is
//! recorded of it.

use vstd::prelude::*;
use vstd::string::*;

use crate::config::MARKET_DURATION;
use crate::float;
use crate::float::{at_most, less, positive, same};
use crate::json;
use crate::json::{Json, JsonView};
use crate::text::Text;
use crate::types;
use crate::types::{emit, Event, EventView, RawJson, RawView};

verus! {

/// The span over which the volatility is estimated.
#[derive(Clone, Copy, Debug, PartialEq, Eq, Structural)]
pub enum VolTimescale {
    Rv1s,
    Rv5s,
    Rv15s,
}

/// The name of a span.
pub open spec fn timescale_name(v: VolTimescale) -> Text {
    match v {
        VolTimescale::Rv1s => "rv1s"@,
        VolTimescale::Rv5s => "rv5s"@,
        VolTimescale::Rv15s => "rv15s"@,
    }
}

/// The name of a span.
pub fn vol_label(v: VolTimescale) -> (s: &'static str)
    ensures
        s@ == timescale_name(v),
{
    match v {
        VolTimescale::Rv1s => "rv1s",
        VolTimescale::Rv5s => "rv5s",
        VolTimescale::Rv15s => "rv15s",
    }
}

// What the estimate takes in

/// The book is out of step with the best prices: one of these lies on the wrong side of its
/// own. A book that is not known yet stays what it was.
pub open spec fn is_stale(bid: u64, ask: u64, book_bid: u64, book_ask: u64, was: bool) -> bool {
    if float::pos(book_bid) && float::pos(book_ask) {
        float::lt(bid, book_bid) || float::lt(book_ask, ask) || float::lt(book_ask, bid)
            || float::lt(ask, book_bid)
    } else {
        was
    }
}

/// Whether the book is out of step with the best prices.
pub fn depth_stale(bid: u64, ask: u64, book_bid: u64, book_ask: u64, was: bool) -> (b: bool)
    ensures
        b == is_stale(bid, ask, book_bid, book_ask, was),
{
    if positive(book_bid) && positive(book_ask) {
        less(bid, book_bid) || less(book_ask, ask) || less(book_ask, bid) || less(ask, book_bid)
    } else {
        was
    }
}

/// Whether a move of the middle price counts for the volatility: there was one before, and it
/// is less than five seconds old.
pub fn move_counts(prev_mid: u64, prev_ts: i64, ts_ms: i64) -> (b: bool)
    ensures
        b == (float::pos(prev_mid) && prev_ts > 0 && 0 < ts_ms - prev_ts < 5000),
{
    let gap: i128 = ts_ms as i128 - prev_ts as i128;
    positive(prev_mid) && prev_ts > 0 && 0 < gap && gap < 5000
}

/// Whether the price of the book has a part in the estimate: it is known and not out of step.
pub fn blends_depth(stale: bool, depth_microprice: u64) -> (b: bool)
    ensures
        b == (!stale && !float::eq(depth_microprice, 0)),
{
    !stale && !same(depth_microprice, 0)
}

/// Whether a fair value can be given: there are prices, and the market is not over.
pub fn can_sample(ready: bool, microprice: u64, ts_ms: i64, expiry_ms: i64) -> (b: bool)
    ensures
        b == (ready && !float::le(microprice, 0) && ts_ms < expiry_ms),
{
    ready && !at_most(microprice, 0) && ts_ms < expiry_ms
}

// Sampling

/// The state of the sampling of one market: when it starts and ends, how recent the data is that
/// was taken in, and whether its beginning was recorded.
pub struct FairValueRun {
    pub market_start: i64,
    pub last_bba_ts: i64,
    pub last_depth_ts: i64,
    pub last_trade_ts: i64,
    pub active_logged: bool,
}

/// The latest data: when the best prices, the book and a trade arrived, and the strike with its
/// text.
pub struct Latest {
    pub bba_ts: Option<i64>,
    pub depth_ts: Option<i64>,
    pub trade_ts: Option<i64>,
    pub strike: Option<(u64, String)>,
}

/// What to do at a tick: stop, take in what is new, take a sample, and record events.
pub struct FvStep {
    pub stop: bool,
    pub take_bba: bool,
    pub take_depth: bool,
    pub take_trade: bool,
    pub sample: bool,
    pub events: Vec<Event>,
}

/// What a tick leads to.
pub struct FvStepView {
    pub stop: bool,
    pub take_bba: bool,
    pub take_depth: bool,
    pub take_trade: bool,
    pub sample: bool,
    pub events: Seq<EventView>,
}

impl View for FvStep {
    type V = FvStepView;

    open spec fn view(&self) -> FvStepView {
        FvStepView {
            stop: self.stop,
            take_bba: self.take_bba,
            take_depth: self.take_depth,
            take_trade: self.take_trade,
            sample: self.sample,
            events: types::events_view(self.events@),
        }
    }
}

/// When a market starts, in milliseconds.
pub open spec fn start_ms(market_start: int) -> int {
    market_start * 1000
}

/// When a market ends, in milliseconds.
pub open spec fn end_ms(market_start: int) -> int {
    start_ms(market_start) + MARKET_DURATION * 1000
}

/// Data is newer than what was taken in.
pub open spec fn is_newer(ts: Option<i64>, last: i64) -> bool {
    ts matches Some(t) && t > last
}

/// The time of what was taken in.
pub open spec fn taken(ts: Option<i64>, last: i64) -> i64 {
    if is_newer(ts, last) { ts->0 } else { last }
}

/// The event that the fair value of a market begins to be sampled.
pub open spec fn active(strike: (u64, String)) -> EventView {
    types::system_event(
        "fv_active"@,
        RawView::Value(
            JsonView::Object(seq![("strike_price"@, json::double(strike.0, strike.1@))]),
        ),
    )
}

/// The event that the sampling of a market is over.
pub open spec fn expired() -> EventView {
    types::system_event(
        "fv_stopped"@,
        RawView::Value(JsonView::Object(seq![("reason"@, JsonView::Str("market_expired"@))])),
    )
}

/// A tick: the sampling ends with the market; until then new data is taken in, and from the start
/// of the market on a sample is taken once the strike is known.
pub open spec fn tick_step(r: FairValueRun, now_ms: i64, l: Latest) -> (FairValueRun, FvStepView) {
    if now_ms > end_ms(r.market_start as int) {
        (
            r,
            FvStepView {
                stop: true,
                take_bba: false,
                take_depth: false,
                take_trade: false,
                sample: false,
                events: seq![expired()],
            },
        )
    } else {
        let sample = now_ms >= start_ms(r.market_start as int) && l.strike is Some;
        (
            FairValueRun {
                last_bba_ts: taken(l.bba_ts, r.last_bba_ts),
                last_depth_ts: taken(l.depth_ts, r.last_depth_ts),
                last_trade_ts: taken(l.trade_ts, r.last_trade_ts),
                active_logged: r.active_logged || sample,
                ..r
            },
            FvStepView {
                stop: false,
                take_bba: is_newer(l.bba_ts, r.last_bba_ts),
                take_depth: is_newer(l.depth_ts, r.last_depth_ts),
                take_trade: is_newer(l.trade_ts, r.last_trade_ts),
                sample,
                events: if sample && !r.active_logged {
                    seq![active(l.strike->0)]
                } else {
                    seq![]
                },
            },
        )
    }
}

fn newer(ts: Option<i64>, last: &mut i64) -> (b: bool)
    ensures
        b == is_newer(ts, *old(last)),
        *final(last) == taken(ts, *old(last)),
{
    match ts {
        Some(t) => {
            if t > *last {
                *last = t;
                true
            } else {
                false
            }
        },
        None => false,
    }
}

impl FairValueRun {
    /// The sampling of a market whose end is within reach of the clock.
    pub fn new(market_start: i64) -> (r: FairValueRun)
        ensures
            r == (FairValueRun {
                market_start,
                last_bba_ts: 0,
                last_depth_ts: 0,
                last_trade_ts: 0,
                active_logged: false,
            }),
    {
        FairValueRun {
            market_start,
            last_bba_ts: 0,
            last_depth_ts: 0,
            last_trade_ts: 0,
            active_logged: false,
        }
    }

    /// When the market ends, in milliseconds.
    pub fn market_end_ms(&self) -> (t: i64)
        requires
            i64::MIN <= start_ms(self.market_start as int),
            end_ms(self.market_start as int) <= i64::MAX,
        ensures
            t == end_ms(self.market_start as int),
    {
        self.market_start * 1000 + MARKET_DURATION as i64 * 1000
    }

    /// The event with which the sampling begins.
    pub fn warmup_event(&self) -> (e: Event)
        requires
            i64::MIN <= start_ms(self.market_start as int),
            end_ms(self.market_start as int) <= i64::MAX,
        ensures
            e@ == types::system_event(
                "fv_warmup_started"@,
                RawView::Value(
                    JsonView::Object(
                        seq![
                            ("market_end_ms"@, json::num(end_ms(self.market_start as int))),
                            ("market_start"@, json::num(self.market_start as int)),
                        ],
                    ),
                ),
            ),
    {
        let j: Json = Json::object2(
            "market_end_ms",
            Json::whole(self.market_end_ms()),
            "market_start",
            Json::whole(self.market_start),
        );
        Event::system("fv_warmup_started", RawJson::of(j))
    }

    /// What to do at a tick.
    pub fn tick(&mut self, now_ms: i64, l: &Latest) -> (step: FvStep)
        ensures
            (*final(self), step@) == tick_step(*old(self), now_ms, *l),
    {
        let start: i128 = self.market_start as i128 * 1000;
        let end: i128 = start + MARKET_DURATION as i128 * 1000;
        let mut events: Vec<Event> = Vec::new();
        assert(types::events_view(events@) =~= seq![]);
        if now_ms as i128 > end {
            let j: Json = Json::object1("reason", Json::text("market_expired"));
            emit(&mut events, Event::system("fv_stopped", RawJson::of(j)));
            assert(types::events_view(events@) =~= seq![expired()]);
            return FvStep {
                stop: true,
                take_bba: false,
                take_depth: false,
                take_trade: false,
                sample: false,
                events,
            };
        }
        let take_bba: bool = newer(l.bba_ts, &mut self.last_bba_ts);
        let take_depth: bool = newer(l.depth_ts, &mut self.last_depth_ts);
        let take_trade: bool = newer(l.trade_ts, &mut self.last_trade_ts);
        let mut sample: bool = false;
        if now_ms as i128 >= start {
            match &l.strike {
                Some(strike) => {
                    sample = true;
                    if !self.active_logged {
                        let j: Json = Json::object1(
                            "strike_price",
                            Json::double(strike.0, strike.1.as_str()),
                        );
                        emit(&mut events, Event::system("fv_active", RawJson::of(j)));
                        self.active_logged = true;
                        assert(types::events_view(events@) =~= seq![active(*strike)]);
                    }
                },
                None => {},
            }
        }
        FvStep { stop: false, take_bba, take_depth, take_trade, sample, events }
    }
}

// Samples

/// A floating-point number with its text in JSON.
pub struct Double {
    pub bits: u64,
    pub text: String,
}

/// The JSON value of a floating-point number.
pub open spec fn double_of(d: Double) -> JsonView {
    json::double(d.bits, d.text@)
}

/// One sample of the fair value.
pub struct FairValueSnapshot {
    pub tau: Double,
    pub microprice: Double,
    pub depth_microprice: Double,
    pub blended_spot: Double,
    pub strike_price: Double,
    pub rv_1s: Double,
    pub rv_5s: Double,
    pub rv_15s: Double,
    pub sigma_returns: Double,
    pub sigma_dollars: Double,
    pub trade_imbalance: Double,
    pub book_imbalance: Double,
    pub mu: Double,
    pub z_score: Double,
    pub fair_yes: Double,
    pub fair_no: Double,
    pub lstm_fair_yes: Option<Double>,
    pub lstm_fair_no: Option<Double>,
}

/// A field that is there only where it is known.
pub open spec fn optional_field(key: Text, d: Option<Double>) -> Seq<(Text, JsonView)> {
    match d {
        Some(d) => seq![(key, double_of(d))],
        None => seq![],
    }
}

/// What is recorded of a sample.
pub open spec fn snapshot_json(s: FairValueSnapshot) -> JsonView {
    JsonView::Object(
        seq![
            ("tau"@, double_of(s.tau)),
            ("microprice"@, double_of(s.microprice)),
            ("depth_microprice"@, double_of(s.depth_microprice)),
            ("blended_spot"@, double_of(s.blended_spot)),
            ("strike_price"@, double_of(s.strike_price)),
            ("rv_1s"@, double_of(s.rv_1s)),
            ("rv_5s"@, double_of(s.rv_5s)),
            ("rv_15s"@, double_of(s.rv_15s)),
            ("sigma_returns"@, double_of(s.sigma_returns)),
            ("sigma_dollars"@, double_of(s.sigma_dollars)),
            ("trade_imbalance"@, double_of(s.trade_imbalance)),
            ("book_imbalance"@, double_of(s.book_imbalance)),
            ("mu"@, double_of(s.mu)),
            ("z_score"@, double_of(s.z_score)),
            ("fair_yes"@, double_of(s.fair_yes)),
            ("fair_no"@, double_of(s.fair_no)),
        ] + optional_field("lstm_fair_yes"@, s.lstm_fair_yes) + optional_field(
            "lstm_fair_no"@,
            s.lstm_fair_no,
        ),
    )
}

fn json_double(d: &Double) -> (j: Json)
    ensures
        j@ == double_of(*d),
{
    Json::double(d.bits, d.text.as_str())
}

fn with_optional(j: Json, key: &str, d: &Option<Double>) -> (r: Json)
    requires
        j@ is Object,
    ensures
        r@ == JsonView::Object(j@->Object_0 + optional_field(key@, *d)),
{
    match d {
        Some(d) => {
            let r: Json = j.with_field(key, json_double(d));
            assert(r@->Object_0 =~= j@->Object_0 + optional_field(key@, Some(*d)));
            r
        },
        None => {
            assert(j@->Object_0 + optional_field(key@, None) =~= j@->Object_0);
            j
        },
    }
}

impl FairValueSnapshot {
    /// What is recorded of this sample.
    pub fn to_json(&self) -> (j: Json)
        ensures
            j@ == snapshot_json(*self),
    {
        let j: Json = Json::object3(
            "tau",
            json_double(&self.tau),
            "microprice",
            json_double(&self.microprice),
            "depth_microprice",
            json_double(&self.depth_microprice),
        ).with_field("blended_spot", json_double(&self.blended_spot)).with_field(
            "strike_price",
            json_double(&self.strike_price),
        ).with_field("rv_1s", json_double(&self.rv_1s)).with_field(
            "rv_5s",
            json_double(&self.rv_5s),
        ).with_field("rv_15s", json_double(&self.rv_15s)).with_field(
            "sigma_returns",
            json_double(&self.sigma_returns),
        ).with_field("sigma_dollars", json_double(&self.sigma_dollars)).with_field(
            "trade_imbalance",
            json_double(&self.trade_imbalance),
        ).with_field("book_imbalance", json_double(&self.book_imbalance)).with_field(
            "mu",
            json_double(&self.mu),
        ).with_field("z_score", json_double(&self.z_score)).with_field(
            "fair_yes",
            json_double(&self.fair_yes),
        ).with_field("fair_no", json_double(&self.fair_no));
        let j: Json = with_optional(j, "lstm_fair_yes", &self.lstm_fair_yes);
        let j: Json = with_optional(j, "lstm_fair_no", &self.lstm_fair_no);
        assert(j@->Object_0 =~= snapshot_json(*self)->Object_0);
        j
    }

    /// The event of this sample.
    pub fn event(&self) -> (e: Event)
        ensures
            e@ == types::data_event(
                "fv_sample"@,
                RawView::Null,
                RawView::Raw(json::json_text(snapshot_json(*self))),
            ),
    {
        let j: Json = self.to_json();
        Event::data("fv_sample", RawJson::Null, RawJson::from_json(&j))
    }
}

// Laws

/// Samples are taken only while the market runs, and the beginning is recorded once and before
/// the first of them.
pub proof fn samples_lie_in_the_market(r: FairValueRun, now_ms: i64, l: Latest)
    ensures
        ({
            let (after, step) = tick_step(r, now_ms, l);
            &&& step.sample ==> start_ms(r.market_start as int) <= now_ms <= end_ms(
                r.market_start as int,
            ) && l.strike is Some && after.active_logged
            &&& r.active_logged && !step.stop ==> step.events.len() == 0
            &&& r.active_logged ==> after.active_logged
        }),
{
}

/// Data is taken in once, and never data that is older than what was taken in before.
pub proof fn old_data_is_not_taken_in(r: FairValueRun, now_ms: i64, l: Latest)
    ensures
        ({
            let (after, step) = tick_step(r, now_ms, l);
            &&& after.last_bba_ts >= r.last_bba_ts
            &&& after.last_depth_ts >= r.last_depth_ts
            &&& after.last_trade_ts >= r.last_trade_ts
            &&& !tick_step(after, now_ms, l).1.take_bba
            &&& !tick_step(after, now_ms, l).1.take_depth
            &&& !tick_step(after, now_ms, l).1.take_trade
        }),
{
}

/// A sample is taken at every tick from the start of the market to its end, five minutes later,
/// once the strike is known; the first one is announced with the strike. After the end the sampling
/// stops.
pub proof fn samples_are_taken_while_the_market_runs(r: FairValueRun, now_ms: i64, l: Latest)
    ensures
        ({
            let (after, step) = tick_step(r, now_ms, l);
            let start = r.market_start * 1000;
            &&& step.stop <==> now_ms > start + 300_000
            &&& step.sample <==> start <= now_ms <= start + 300_000 && l.strike is Some
            &&& step.sample && !r.active_logged ==> step.events.len() == 1
                && step.events[0].system_type == Some("fv_active"@) && step.events[0].normalized
                == RawView::Value(
                JsonView::Object(
                    seq![("strike_price"@, json::double(l.strike->Some_0.0, l.strike->Some_0.1@))],
                ),
            )
            &&& step.stop ==> step.events.len() == 1 && step.events[0].system_type == Some(
                "fv_stopped"@,
            )
            &&& after.market_start == r.market_start
        }),
{
}

/// Data that is newer than what was taken in is taken in, each kind by its own time, and that time
/// is kept.
pub proof fn new_data_is_taken_in(r: FairValueRun, now_ms: i64, l: Latest)
    requires
        now_ms <= r.market_start * 1000 + 300_000,
    ensures
        ({
            let (after, step) = tick_step(r, now_ms, l);
            &&& step.take_bba <==> l.bba_ts is Some && l.bba_ts->0 > r.last_bba_ts
            &&& step.take_depth <==> l.depth_ts is Some && l.depth_ts->0 > r.last_depth_ts
            &&& step.take_trade <==> l.trade_ts is Some && l.trade_ts->0 > r.last_trade_ts
            &&& after.last_bba_ts == (if step.take_bba { l.bba_ts->0 } else { r.last_bba_ts })
            &&& after.last_depth_ts == (if step.take_depth {
                l.depth_ts->0
            } else {
                r.last_depth_ts
            })
            &&& after.last_trade_ts == (if step.take_trade {
                l.trade_ts->0
            } else {
                r.last_trade_ts
            })
        }),
{
}

/// A book is in step exactly where its best bid is no higher than the best prices, and its best ask
/// no lower.
pub proof fn books_in_step_hold_the_prices(bid: u64, ask: u64, book_bid: u64, book_ask: u64, was: bool)
    requires
        float::is_number(bid) && float::is_number(ask),
    ensures
        float::lt(0, book_bid) && float::lt(0, book_ask) ==> (!is_stale(
            bid,
            ask,
            book_bid,
            book_ask,
            was,
        ) <==> float::le(book_bid, bid) && float::le(book_bid, ask) && float::le(bid, book_ask)
            && float::le(ask, book_ask)),
        !float::lt(0, book_bid) || !float::lt(0, book_ask) ==> is_stale(
            bid,
            ask,
            book_bid,
            book_ask,
            was,
        ) == was,
{
}

/// The spans are named after their seconds.
pub proof fn spans_are_named(v: VolTimescale)
    ensures
        timescale_name(v) == "rv"@ + (match v {
            VolTimescale::Rv1s => "1s"@,
            VolTimescale::Rv5s => "5s"@,
            VolTimescale::Rv15s => "15s"@,
        }),
{
    reveal_strlit("rv");
    reveal_strlit("1s");
    reveal_strlit("5s");
    reveal_strlit("15s");
    reveal_strlit("rv1s");
    reveal_strlit("rv5s");
    reveal_strlit("rv15s");
    assert("rv1s"@ =~= "rv"@ + "1s"@);
    assert("rv5s"@ =~= "rv"@ + "5s"@);
    assert("rv15s"@ =~= "rv"@ + "15s"@);
}

} // verus!
