//! Keeping the Binance book in step with the exchange: changes are buffered until a
//! snapshot bridges them, then applied one by one; a gap starts over.

use vstd::arithmetic::power::*;
use vstd::prelude::*;
use vstd::string::*;

use crate::binance;
use crate::binance::{
    BinanceBook, BookTickerMsg, BookView, DepthUpdateMsg, DepthView, Msg, MsgView, TickerView,
    TradeMsg, TradeView,
};
use crate::config;
use crate::config::{
    after_connection,
    delay_value,
    double_delay,
    Next,
    BINANCE_WS_URL,
    MARKET_DURATION,
    WS_RECONNECT_BASE_SECS,
    WS_RECONNECT_MAX_SECS,
};
use crate::decimal;
use crate::decimal::{add_dec, div_dec, parse_dec, Dec};
use crate::json;
use crate::json::{Json, JsonView};
use crate::json_struct;
use crate::levels;
use crate::levels::{BookLevel, LevelView};
use crate::text::{same_text, Text};
use crate::types;
use crate::types::{emit, emit_all, Event, EventView, RawJson, RawView};

verus! {

/// Levels of each side that the fair value model gets.
pub const FEED_LEVELS: usize = 20;

/// A trade, as it is recorded.
pub struct TradeNormalized {
    pub price: String,
    pub qty: String,
    pub side: String,
    pub trade_id: i64,
    pub trade_time: i64,
    pub event_time: i64,
}

/// The best prices, as they are recorded. The last three fields compare them with the
/// local book.
pub struct BookTickerNormalized {
    pub bid_price: String,
    pub bid_qty: String,
    pub ask_price: String,
    pub ask_qty: String,
    pub update_id: i64,
    pub local_best_bid: Option<String>,
    pub local_best_ask: Option<String>,
    pub consistent: Option<bool>,
}

/// The price at the start of a market, as it is recorded.
pub struct StrikePrice {
    pub strike_price: String,
    pub strike_bid: String,
    pub strike_ask: String,
    pub market_start: i64,
}

/// The side that started a trade: the seller, where the buyer is the market maker.
pub open spec fn aggressor(buyer_is_maker: bool) -> Text {
    if buyer_is_maker { "SELL"@ } else { "BUY"@ }
}

/// A trade as JSON.
pub open spec fn trade_json(t: TradeView) -> JsonView {
    JsonView::Object(
        seq![
            ("price"@, JsonView::Str(t.p)),
            ("qty"@, JsonView::Str(t.q)),
            ("side"@, JsonView::Str(aggressor(t.m))),
            ("trade_id"@, json::num(t.t as int)),
            ("trade_time"@, json::num(t.trade_time as int)),
            ("event_time"@, json::num(t.event_time as int)),
        ],
    )
}

impl TradeNormalized {
    /// A trade as it is recorded.
    pub fn of(trade: &TradeMsg) -> (t: TradeNormalized)
        ensures
            t.price@ == trade.p@,
            t.qty@ == trade.q@,
            t.side@ == aggressor(trade.m),
            t.trade_id == trade.t,
            t.trade_time == trade.trade_time,
            t.event_time == trade.event_time,
    {
        TradeNormalized {
            price: trade.p.clone(),
            qty: trade.q.clone(),
            side: if trade.m { "SELL".to_owned() } else { "BUY".to_owned() },
            trade_id: trade.t,
            trade_time: trade.trade_time,
            event_time: trade.event_time,
        }
    }

    /// This trade as JSON.
    pub fn to_json(&self) -> (j: Json)
        ensures
            j@ == JsonView::Object(
                seq![
                    ("price"@, JsonView::Str(self.price@)),
                    ("qty"@, JsonView::Str(self.qty@)),
                    ("side"@, JsonView::Str(self.side@)),
                    ("trade_id"@, json::num(self.trade_id as int)),
                    ("trade_time"@, json::num(self.trade_time as int)),
                    ("event_time"@, json::num(self.event_time as int)),
                ],
            ),
    {
        let j: Json = Json::object3(
            "price",
            Json::text(self.price.as_str()),
            "qty",
            Json::text(self.qty.as_str()),
            "side",
            Json::text(self.side.as_str()),
        ).with_field("trade_id", Json::whole(self.trade_id)).with_field(
            "trade_time",
            Json::whole(self.trade_time),
        ).with_field("event_time", Json::whole(self.event_time));
        assert(j@->Object_0 =~= seq![
            ("price"@, JsonView::Str(self.price@)),
            ("qty"@, JsonView::Str(self.qty@)),
            ("side"@, JsonView::Str(self.side@)),
            ("trade_id"@, json::num(self.trade_id as int)),
            ("trade_time"@, json::num(self.trade_time as int)),
            ("event_time"@, json::num(self.event_time as int)),
        ]);
        j
    }
}

/// How the best prices compare with the local book, once that holds an update.
pub struct LocalBest {
    pub bid: Option<Text>,
    pub ask: Option<Text>,
    pub consistent: bool,
}

/// A field, where there is something to put into it.
pub open spec fn opt_field(key: Text, value: Option<JsonView>) -> Seq<(Text, JsonView)> {
    match value {
        Some(v) => seq![(key, v)],
        None => seq![],
    }
}

/// Optional text as an optional JSON value.
pub open spec fn opt_str(s: Option<Text>) -> Option<JsonView> {
    match s {
        Some(s) => Some(JsonView::Str(s)),
        None => None,
    }
}

/// The best prices as JSON. Fields of the local book that are not known are left out.
pub open spec fn ticker_json(t: TickerView, local: Option<LocalBest>) -> JsonView {
    let plain = seq![
        ("bid_price"@, JsonView::Str(t.b)),
        ("bid_qty"@, JsonView::Str(t.bid_qty)),
        ("ask_price"@, JsonView::Str(t.a)),
        ("ask_qty"@, JsonView::Str(t.ask_qty)),
        ("update_id"@, json::num(t.u as int)),
    ];
    match local {
        Some(l) => JsonView::Object(
            plain + opt_field("local_best_bid"@, opt_str(l.bid)) + opt_field(
                "local_best_ask"@,
                opt_str(l.ask),
            ) + seq![("consistent"@, JsonView::Bool(l.consistent))],
        ),
        None => JsonView::Object(plain),
    }
}

impl BookTickerNormalized {
    /// These prices as JSON.
    pub fn to_json(&self) -> (j: Json)
        requires
            self.consistent is None ==> self.local_best_bid is None && self.local_best_ask is None,
        ensures
            j@ == ticker_json(
                TickerView {
                    b: self.bid_price@,
                    bid_qty: self.bid_qty@,
                    a: self.ask_price@,
                    ask_qty: self.ask_qty@,
                    u: self.update_id,
                },
                match self.consistent {
                    Some(consistent) => Some(
                        LocalBest {
                            bid: json::opt_string(self.local_best_bid),
                            ask: json::opt_string(self.local_best_ask),
                            consistent,
                        },
                    ),
                    None => None,
                },
            ),
    {
        let mut j: Json = Json::object3(
            "bid_price",
            Json::text(self.bid_price.as_str()),
            "bid_qty",
            Json::text(self.bid_qty.as_str()),
            "ask_price",
            Json::text(self.ask_price.as_str()),
        ).with_field("ask_qty", Json::text(self.ask_qty.as_str())).with_field(
            "update_id",
            Json::whole(self.update_id),
        );
        let ghost plain = j@->Object_0;
        assert(plain =~= seq![
            ("bid_price"@, JsonView::Str(self.bid_price@)),
            ("bid_qty"@, JsonView::Str(self.bid_qty@)),
            ("ask_price"@, JsonView::Str(self.ask_price@)),
            ("ask_qty"@, JsonView::Str(self.ask_qty@)),
            ("update_id"@, json::num(self.update_id as int)),
        ]);
        match &self.local_best_bid {
            Some(s) => {
                j = j.with_field("local_best_bid", Json::text(s.as_str()));
            },
            None => {},
        }
        let ghost with_bid = j@->Object_0;
        assert(with_bid =~= plain + opt_field(
            "local_best_bid"@,
            opt_str(json::opt_string(self.local_best_bid)),
        ));
        match &self.local_best_ask {
            Some(s) => {
                j = j.with_field("local_best_ask", Json::text(s.as_str()));
            },
            None => {},
        }
        let ghost with_ask = j@->Object_0;
        assert(with_ask =~= with_bid + opt_field(
            "local_best_ask"@,
            opt_str(json::opt_string(self.local_best_ask)),
        ));
        match self.consistent {
            Some(b) => {
                j = j.with_field("consistent", Json::Bool(b));
                assert(j@->Object_0 =~= with_ask + seq![("consistent"@, JsonView::Bool(b))]);
            },
            None => {},
        }
        j
    }
}

/// A strike price as JSON.
pub open spec fn strike_json(price: Text, bid: Text, ask: Text, market_start: i64) -> JsonView {
    JsonView::Object(
        seq![
            ("strike_price"@, JsonView::Str(price)),
            ("strike_bid"@, JsonView::Str(bid)),
            ("strike_ask"@, JsonView::Str(ask)),
            ("market_start"@, json::num(market_start as int)),
        ],
    )
}

impl StrikePrice {
    /// This price as JSON.
    pub fn to_json(&self) -> (j: Json)
        ensures
            j@ == strike_json(
                self.strike_price@,
                self.strike_bid@,
                self.strike_ask@,
                self.market_start,
            ),
    {
        let j: Json = Json::object3(
            "strike_price",
            Json::text(self.strike_price.as_str()),
            "strike_bid",
            Json::text(self.strike_bid.as_str()),
            "strike_ask",
            Json::text(self.strike_ask.as_str()),
        ).with_field("market_start", Json::whole(self.market_start));
        assert(j@->Object_0 =~= strike_json(
            self.strike_price@,
            self.strike_bid@,
            self.strike_ask@,
            self.market_start,
        )->Object_0);
        j
    }
}

// What the fair value model gets

/// A value for the fair value model. Numbers are handed over as they were written.
pub enum Feed {
    Trade { qty: String, is_buy: bool },
    Bba { bid_price: String, bid_qty: String, ask_price: String, ask_qty: String },
    Depth { bids: Vec<BookLevel>, asks: Vec<BookLevel> },
    Strike { price: String, market_start_ms: i64, market_end_ms: i64 },
}

/// What a value for the fair value model holds.
pub enum FeedView {
    Trade { qty: Text, is_buy: bool },
    Bba { bid_price: Text, bid_qty: Text, ask_price: Text, ask_qty: Text },
    Depth { bids: Seq<LevelView>, asks: Seq<LevelView> },
    Strike { price: Text, market_start_ms: int, market_end_ms: int },
}

impl View for Feed {
    type V = FeedView;

    open spec fn view(&self) -> FeedView {
        match self {
            Feed::Trade { qty, is_buy } => FeedView::Trade { qty: qty@, is_buy: *is_buy },
            Feed::Bba { bid_price, bid_qty, ask_price, ask_qty } => FeedView::Bba {
                bid_price: bid_price@,
                bid_qty: bid_qty@,
                ask_price: ask_price@,
                ask_qty: ask_qty@,
            },
            Feed::Depth { bids, asks } => FeedView::Depth {
                bids: levels::levels_view(bids@),
                asks: levels::levels_view(asks@),
            },
            Feed::Strike { price, market_start_ms, market_end_ms } => FeedView::Strike {
                price: price@,
                market_start_ms: *market_start_ms as int,
                market_end_ms: *market_end_ms as int,
            },
        }
    }
}

/// What a list of values for the fair value model holds.
pub open spec fn feeds_view(feeds: Seq<Feed>) -> Seq<FeedView> {
    feeds.map_values(|f: Feed| f@)
}

/// The best prices, for the fair value model.
pub open spec fn bba_feed(t: TickerView) -> FeedView {
    FeedView::Bba {
        bid_price: t.b,
        bid_qty: t.bid_qty,
        ask_price: t.a,
        ask_qty: t.ask_qty,
    }
}

/// The best levels of the book, for the fair value model.
pub open spec fn depth_feed(book: BookView) -> FeedView {
    FeedView::Depth {
        bids: binance::top_of(levels::descending(book.bids), FEED_LEVELS as int),
        asks: binance::top_of(levels::ascending(book.asks), FEED_LEVELS as int),
    }
}

// The session

/// A snapshot that is to be fetched, and why.
pub struct FetchRequest {
    pub reason: String,
    pub attempt: u32,
}

/// What follows from a message: events to record, values for the fair value model, and
/// a snapshot to fetch. `overflow` says that the strike price is too large to compute.
pub struct Step {
    pub events: Vec<Event>,
    pub feeds: Vec<Feed>,
    pub fetch: Option<FetchRequest>,
    pub overflow: bool,
}

/// What a step holds.
pub struct StepView {
    pub events: Seq<EventView>,
    pub feeds: Seq<FeedView>,
    pub fetch: Option<(Text, u32)>,
    pub overflow: bool,
}

impl View for Step {
    type V = StepView;

    open spec fn view(&self) -> StepView {
        StepView {
            events: types::events_view(self.events@),
            feeds: feeds_view(self.feeds@),
            fetch: match self.fetch {
                Some(f) => Some((f.reason@, f.attempt)),
                None => None,
            },
            overflow: self.overflow,
        }
    }
}

/// The state of the collector on one market. Until `synced`, changes are kept in
/// `buffer`; `snapshot_attempt` counts the snapshots of this cycle.
pub struct BinanceSession {
    pub market_start: i64,
    pub strike_recorded: bool,
    pub sync_cycle: u32,
    pub synced: bool,
    pub book: BinanceBook,
    pub buffer: Vec<DepthUpdateMsg>,
    pub snapshot_attempt: u32,
}

/// What a session holds.
pub struct SessionView {
    pub market_start: i64,
    pub strike_recorded: bool,
    pub sync_cycle: u32,
    pub synced: bool,
    pub book: BookView,
    pub buffer: Seq<DepthView>,
    pub snapshot_attempt: u32,
}

/// What a list of changes holds.
pub open spec fn depths_view(list: Seq<DepthUpdateMsg>) -> Seq<DepthView> {
    list.map_values(|d: DepthUpdateMsg| d@)
}

impl View for BinanceSession {
    type V = SessionView;

    open spec fn view(&self) -> SessionView {
        SessionView {
            market_start: self.market_start,
            strike_recorded: self.strike_recorded,
            sync_cycle: self.sync_cycle,
            synced: self.synced,
            book: self.book@,
            buffer: depths_view(self.buffer@),
            snapshot_attempt: self.snapshot_attempt,
        }
    }
}

/// Market starts whose time in milliseconds fits.
pub const START_LIMIT: i64 = 9_000_000_000_000_000;

impl SessionView {
    /// The counters have room, and the market start fits in milliseconds.
    pub open spec fn in_range(self) -> bool {
        &&& -START_LIMIT <= self.market_start <= START_LIMIT
        &&& self.sync_cycle < u32::MAX
        &&& self.snapshot_attempt < u32::MAX
        &&& self.buffer.len() < u32::MAX
    }
}

/// The session at the start of the cycle `cycle`.
pub open spec fn fresh_cycle(market_start: i64, strike_recorded: bool, cycle: u32) -> SessionView {
    SessionView {
        market_start,
        strike_recorded,
        sync_cycle: cycle,
        synced: false,
        book: binance::empty_book(),
        buffer: seq![],
        snapshot_attempt: 0,
    }
}

/// A step in which nothing happens.
pub open spec fn quiet() -> StepView {
    StepView { events: seq![], feeds: seq![], fetch: None, overflow: false }
}

/// What follows from a trade.
pub open spec fn trade_step(raw: RawView, t: TradeView) -> StepView {
    StepView {
        events: seq![
            types::data_event("trade_raw"@, raw, RawView::Null),
            types::data_event(
                "trade_normalized"@,
                RawView::Null,
                RawView::Raw(json::json_text(trade_json(t))),
            ),
        ],
        feeds: seq![FeedView::Trade { qty: t.q, is_buy: !t.m }],
        fetch: None,
        overflow: false,
    }
}

/// How the best prices compare with the local book. Before the first update of a
/// synchronised book there is nothing to compare.
pub open spec fn local_best(s: SessionView, t: TickerView) -> Option<LocalBest> {
    if s.synced && s.book.update_id > 0 {
        let bid = binance::price_of(binance::best_bid(s.book));
        let ask = binance::price_of(binance::best_ask(s.book));
        Some(LocalBest { bid, ask, consistent: bid == Some(t.b) && ask == Some(t.a) })
    } else {
        None
    }
}

/// A price that is read as zero where it is no number.
pub open spec fn price_or_zero(s: Text) -> (i128, u32) {
    match decimal::decimal_of_text(s) {
        Some(p) => p,
        None => (0i128, 0u32),
    }
}

/// The middle between two prices, where it can be computed.
pub open spec fn midpoint(bid: Text, ask: Text) -> Option<Dec> {
    match decimal::decimal_sum(price_or_zero(bid), price_or_zero(ask)) {
        Some(sum) => decimal::opt_dec(decimal::decimal_quotient(sum, (2i128, 0u32))),
        None => None,
    }
}

/// A price as a number.
pub open spec fn price(s: Text) -> Dec {
    Dec { mantissa: price_or_zero(s).0, scale: price_or_zero(s).1 }
}

/// The sum of two numbers, in units of the wider scale.
pub open spec fn units_together(a: Dec, b: Dec) -> int {
    let w = decimal::wider(a.scale, b.scale);
    decimal::rescaled(a, w) + decimal::rescaled(b, w)
}

/// Numbers whose middle has no digit behind the last one that a number can have: as all
/// prices of the exchange, they are narrow or zero, and so is their sum.
pub open spec fn have_a_middle(a: Dec, b: Dec) -> bool {
    &&& a.mantissa == 0 || b.mantissa == 0 || decimal::narrow(a, b)
    &&& -0x1_0000_0000_0000_0000 < units_together(a, b) < 0x1_0000_0000_0000_0000
    &&& decimal::wider(a.scale, b.scale) < decimal::SCALE_LIMIT
}

/// `mid` lies as far above `a` as below `b`, or the other way round.
pub open spec fn is_middle(mid: Dec, a: Dec, b: Dec) -> bool {
    2 * mid.mantissa * pow(10, decimal::wider(a.scale, b.scale) as nat) == units_together(a, b)
        * pow(10, mid.scale as nat)
}

proof fn lemma_half_is_middle(a: Dec, b: Dec, sum: Dec, mid: Dec)
    requires
        decimal::is_half(mid, sum),
        sum.scale <= decimal::wider(a.scale, b.scale),
        decimal::rescaled(sum, decimal::wider(a.scale, b.scale)) == units_together(a, b),
    ensures
        is_middle(mid, a, b),
{
    let w = decimal::wider(a.scale, b.scale);
    let d = (w - sum.scale) as nat;
    lemma_pow_adds(10, sum.scale as nat, d);
    let low = pow(10, sum.scale as nat);
    let rest = pow(10, d);
    let own = pow(10, mid.scale as nat);
    let m = mid.mantissa as int;
    let n = sum.mantissa as int;
    assert(2 * m * (low * rest) == (n * rest) * own) by (nonlinear_arith)
        requires
            2 * m * low == n * own,
    ;
}

proof fn lemma_sum_is_small(n: int, e: nat, limit: int)
    requires
        -limit < n * pow(10, e) < limit,
    ensures
        -limit < n < limit,
{
    lemma_pow_positive(10, e);
    let p = pow(10, e);
    assert(-limit < n < limit) by (nonlinear_arith)
        requires
            -limit < n * p < limit,
            p >= 1,
    ;
}

/// Whether this is the moment to record the strike price: once, at the first prices
/// that arrive at or after the start of the market.
pub open spec fn strike_due(s: SessionView, now: int) -> bool {
    !s.strike_recorded && now >= s.market_start
}

/// What follows from the best prices.
pub open spec fn ticker_step(s: SessionView, raw: RawView, t: TickerView, now: int) -> (
    SessionView,
    StepView,
) {
    let recorded = seq![
        types::data_event("book_ticker_raw"@, raw, RawView::Null),
        types::data_event(
            "book_ticker_normalized"@,
            RawView::Null,
            RawView::Raw(json::json_text(ticker_json(t, local_best(s, t)))),
        ),
    ];
    if !strike_due(s, now) {
        (s, StepView { events: recorded, feeds: seq![bba_feed(t)], fetch: None, overflow: false })
    } else {
        match midpoint(t.b, t.a) {
            None => (
                s,
                StepView {
                    events: recorded,
                    feeds: seq![bba_feed(t)],
                    fetch: None,
                    overflow: true,
                },
            ),
            Some(mid) => (
                SessionView { strike_recorded: true, ..s },
                StepView {
                    events: recorded.push(
                        types::system_event(
                            "strike_price"@,
                            RawView::Raw(
                                json::json_text(
                                    strike_json(decimal::dec_text(mid), t.b, t.a, s.market_start),
                                ),
                            ),
                        ),
                    ),
                    feeds: seq![
                        FeedView::Strike {
                            price: decimal::dec_text(mid),
                            market_start_ms: s.market_start * 1000,
                            market_end_ms: s.market_start * 1000 + MARKET_DURATION * 1000,
                        },
                        bba_feed(t),
                    ],
                    fetch: None,
                    overflow: false,
                },
            ),
        }
    }
}

/// Why the snapshots of a cycle are fetched.
pub open spec fn fetch_reason(cycle: u32) -> Text {
    if cycle == 1 { "startup"@ } else { "resync_after_gap"@ }
}

/// What follows from a change while changes are buffered: a snapshot is fetched on the
/// first one, and on each one after an attempt.
pub open spec fn buffered_step(s: SessionView, raw: RawView, d: DepthView) -> (
    SessionView,
    StepView,
) {
    let buffer = s.buffer.push(d);
    let events = seq![
        types::data_event(
            "depth_raw_buffered"@,
            raw,
            RawView::Value(
                JsonView::Object(
                    seq![
                        ("U"@, json::num(d.first as int)),
                        ("buffer_size"@, json::num(buffer.len() as int)),
                        ("u"@, json::num(d.last as int)),
                    ],
                ),
            ),
        ),
    ];
    if buffer.len() == 1 || s.snapshot_attempt > 0 {
        let attempt = (s.snapshot_attempt + 1) as u32;
        (
            SessionView { buffer, snapshot_attempt: attempt, ..s },
            StepView {
                events,
                feeds: seq![],
                fetch: Some((fetch_reason(s.sync_cycle), attempt)),
                overflow: false,
            },
        )
    } else {
        (
            SessionView { buffer, ..s },
            StepView { events, feeds: seq![], fetch: None, overflow: false },
        )
    }
}

/// A change that does not follow on the book: updates between them are missing.
pub open spec fn is_gap(book: BookView, d: DepthView) -> bool {
    d.first > book.update_id + 1
}

/// A change that the book already includes.
pub open spec fn is_stale(book: BookView, d: DepthView) -> bool {
    d.last <= book.update_id
}

/// The identifiers of a change, and the update of the local book.
pub open spec fn applied_json(d: DepthView, local: i64) -> JsonView {
    JsonView::Object(
        seq![
            ("U"@, json::num(d.first as int)),
            ("local_update_id"@, json::num(local as int)),
            ("u"@, json::num(d.last as int)),
        ],
    )
}

/// The events that tell that updates are missing between the update `last_good` and a change.
pub open spec fn gap_events(last_good: i64, d: DepthView) -> Seq<EventView> {
    seq![
        types::system_event(
            "gap_detected"@,
            RawView::Value(
                JsonView::Object(
                    seq![
                        ("incoming_U"@, json::num(d.first as int)),
                        ("incoming_u"@, json::num(d.last as int)),
                        ("last_good_update_id"@, json::num(last_good as int)),
                    ],
                ),
            ),
        ),
        types::system_event(
            "resync_started"@,
            RawView::Value(
                JsonView::Object(seq![("reason"@, JsonView::Str("gap_in_update_ids"@))]),
            ),
        ),
    ]
}

/// What follows from a change once the book is synchronised: it is applied, skipped
/// where it is stale, and starts a new cycle where updates are missing.
pub open spec fn steady_step(s: SessionView, raw: RawView, d: DepthView) -> (
    SessionView,
    StepView,
) {
    let seen = types::data_event(
        "depth_raw"@,
        raw,
        RawView::Value(applied_json(d, s.book.update_id)),
    );
    if is_gap(s.book, d) {
        (
            fresh_cycle(s.market_start, s.strike_recorded, (s.sync_cycle + 1) as u32),
            StepView {
                events: seq![seen] + gap_events(s.book.update_id, d),
                feeds: seq![],
                fetch: None,
                overflow: false,
            },
        )
    } else if is_stale(s.book, d) {
        (s, StepView { events: seq![seen], feeds: seq![], fetch: None, overflow: false })
    } else {
        let book = binance::book_after(s.book, d);
        (
            SessionView { book, ..s },
            StepView {
                events: seq![
                    seen,
                    types::data_event(
                        "depth_applied"@,
                        RawView::Null,
                        RawView::Value(applied_json(d, book.update_id)),
                    ),
                    types::data_event(
                        "book_state"@,
                        RawView::Null,
                        binance::state_raw(book, d.first, d.last),
                    ),
                ],
                feeds: seq![depth_feed(book)],
                fetch: None,
                overflow: false,
            },
        )
    }
}

/// What follows from a message at the time `now`, in seconds.
pub open spec fn message_step(s: SessionView, raw: RawView, m: MsgView, now: int) -> (
    SessionView,
    StepView,
) {
    match m {
        MsgView::Trade(t) => (s, trade_step(raw, t)),
        MsgView::BookTicker(t) => ticker_step(s, raw, t, now),
        MsgView::Depth(d) => if s.synced {
            steady_step(s, raw, d)
        } else {
            buffered_step(s, raw, d)
        },
    }
}

/// The update that a snapshot includes.
pub open spec fn snapshot_id(snap: JsonView) -> i64 {
    match json::i64_of(json::field(snap, "lastUpdateId"@)) {
        Some(id) => id,
        None => 0,
    }
}

/// The buffered changes that a snapshot does not include.
pub open spec fn not_included(buffer: Seq<DepthView>, id: i64) -> Seq<DepthView> {
    buffer.filter(|d: DepthView| d.last > id)
}

/// A change that bridges the update `id` and what comes after it.
pub open spec fn spans(d: DepthView, id: i64) -> bool {
    d.first <= id + 1 <= d.last
}

/// The events that tell that the book is synchronised.
pub open spec fn ready_events(cycle: u32, id: i64) -> Seq<EventView> {
    let ready = types::system_event(
        "sync_ready"@,
        RawView::Value(JsonView::Object(seq![("lastUpdateId"@, json::num(id as int))])),
    );
    if cycle > 1 {
        seq![
            ready,
            types::system_event(
                "resync_completed"@,
                RawView::Value(
                    JsonView::Object(
                        seq![
                            ("lastUpdateId"@, json::num(id as int)),
                            ("sync_cycle"@, json::num(cycle as int)),
                        ],
                    ),
                ),
            ),
        ]
    } else {
        seq![ready]
    }
}

/// The events that tell that a snapshot was loaded.
pub open spec fn loaded_events(book: BookView, id: i64, remaining: int) -> Seq<EventView> {
    seq![
        types::data_event(
            "snapshot_loaded"@,
            RawView::Null,
            RawView::Value(
                JsonView::Object(
                    seq![
                        ("buffered_remaining"@, json::num(remaining)),
                        ("lastUpdateId"@, json::num(id as int)),
                    ],
                ),
            ),
        ),
        types::data_event("book_state"@, RawView::Null, binance::state_raw(book, 0, id)),
    ]
}

/// A change of the book as JSON.
pub open spec fn depth_json(d: DepthView) -> JsonView {
    JsonView::Object(
        seq![
            ("U"@, json::num(d.first as int)),
            ("u"@, json::num(d.last as int)),
            ("b"@, pairs_json(d.b)),
            ("a"@, pairs_json(d.a)),
        ],
    )
}

/// Pairs of texts as JSON.
pub open spec fn pairs_json(pairs: Seq<(Text, Text)>) -> JsonView {
    JsonView::Array(
        pairs.map_values(
            |p: (Text, Text)| JsonView::Array(seq![JsonView::Str(p.0), JsonView::Str(p.1)]),
        ),
    )
}

/// The book after changes were applied in their order.
pub open spec fn replayed(book: BookView, changes: Seq<DepthView>) -> BookView
    decreases changes.len(),
{
    if changes.len() == 0 {
        book
    } else {
        binance::book_after(replayed(book, changes.drop_last()), changes.last())
    }
}

/// The events that tell of the changes that were applied.
pub open spec fn replay_events(book: BookView, changes: Seq<DepthView>) -> Seq<EventView>
    decreases changes.len(),
{
    if changes.len() == 0 {
        seq![]
    } else {
        let after = replayed(book, changes);
        let d = changes.last();
        replay_events(book, changes.drop_last()) + seq![
            types::data_event(
                "depth_applied"@,
                RawView::Raw(json::json_text(depth_json(d))),
                RawView::Value(applied_json(d, after.update_id)),
            ),
            types::data_event(
                "book_state"@,
                RawView::Null,
                binance::state_raw(after, d.first, d.last),
            ),
        ]
    }
}

/// What becomes of changes behind a snapshot: those that are applied, and the first one between
/// which and the book updates are missing.
pub struct Chain {
    pub applied: Seq<DepthView>,
    pub gap: Option<DepthView>,
}

/// The update that a book at the update `id` reaches with changes.
pub open spec fn reached(id: i64, applied: Seq<DepthView>) -> i64 {
    if applied.len() == 0 {
        id
    } else {
        applied.last().last
    }
}

/// The changes that are applied, one after another, to a book at the update `id`: each that
/// covers the update that is needed next. One that the book already includes is passed over; at
/// one that leaves a gap it ends.
pub open spec fn chain(id: i64, changes: Seq<DepthView>) -> Chain
    decreases changes.len(),
{
    if changes.len() == 0 {
        Chain { applied: seq![], gap: None }
    } else {
        let c = chain(id, changes.drop_last());
        let d = changes.last();
        if c.gap is Some {
            c
        } else if d.first > reached(id, c.applied) + 1 {
            Chain { gap: Some(d), ..c }
        } else if d.last <= reached(id, c.applied) {
            c
        } else {
            Chain { applied: c.applied.push(d), ..c }
        }
    }
}

/// What follows from a snapshot. One that is older than all buffered changes is left
/// alone; one that no change bridges costs the buffer. To any other one the changes that it does
/// not include are applied, as far as they follow on each other: all of them synchronise the
/// book, and a gap starts a new cycle.
pub open spec fn snapshot_step(s: SessionView, snap: JsonView) -> (SessionView, StepView) {
    let id = snapshot_id(snap);
    let kept = not_included(s.buffer, id);
    if id < s.buffer[0].first {
        (s, quiet())
    } else if kept.len() == 0 {
        let book = binance::book_loaded(s.book, snap);
        (
            SessionView { book, buffer: seq![], synced: true, ..s },
            StepView {
                events: loaded_events(book, id, 0) + ready_events(s.sync_cycle, id),
                feeds: seq![],
                fetch: None,
                overflow: false,
            },
        )
    } else if !spans(kept[0], id) {
        (
            SessionView { buffer: seq![], ..s },
            StepView {
                events: seq![
                    types::data_event(
                        "error"@,
                        RawView::Value(
                            JsonView::Object(
                                seq![
                                    ("first_U"@, json::num(kept[0].first as int)),
                                    ("first_u"@, json::num(kept[0].last as int)),
                                    ("lastUpdateId"@, json::num(id as int)),
                                ],
                            ),
                        ),
                        RawView::Value(
                            JsonView::Object(
                                seq![
                                    (
                                        "reason"@,
                                        JsonView::Str("first_event_does_not_span_snapshot"@),
                                    ),
                                ],
                            ),
                        ),
                    ),
                ],
                feeds: seq![],
                fetch: None,
                overflow: false,
            },
        )
    } else {
        let loaded = binance::book_loaded(s.book, snap);
        let c = chain(id, kept);
        let book = replayed(loaded, c.applied);
        let begun = loaded_events(loaded, id, kept.len() as int) + replay_events(
            loaded,
            c.applied,
        );
        match c.gap {
            None => (
                SessionView { book, buffer: seq![], synced: true, ..s },
                StepView {
                    events: begun + ready_events(s.sync_cycle, book.update_id),
                    feeds: seq![depth_feed(book)],
                    fetch: None,
                    overflow: false,
                },
            ),
            Some(d) => (
                fresh_cycle(s.market_start, s.strike_recorded, (s.sync_cycle + 1) as u32),
                StepView {
                    events: begun + gap_events(reached(id, c.applied), d),
                    feeds: seq![],
                    fetch: None,
                    overflow: false,
                },
            ),
        }
    }
}


// Doing it

fn feed(feeds: &mut Vec<Feed>, f: Feed)
    ensures
        feeds_view(final(feeds)@) == feeds_view(old(feeds)@).push(f@),
{
    feeds.push(f);
    assert(feeds_view(feeds@) =~= feeds_view(old(feeds)@).push(f@));
}

fn quiet_step() -> (step: Step)
    ensures
        step@ == quiet(),
{
    let step: Step = Step {
        events: Vec::new(),
        feeds: Vec::new(),
        fetch: None,
        overflow: false,
    };
    assert(types::events_view(step.events@) =~= seq![]);
    assert(feeds_view(step.feeds@) =~= seq![]);
    step
}

fn on_trade(raw: RawJson, trade: &TradeMsg) -> (step: Step)
    ensures
        step@ == trade_step(raw@, trade@),
{
    let mut step: Step = quiet_step();
    emit(&mut step.events, Event::data("trade_raw", raw, RawJson::Null));
    let normalized: Json = TradeNormalized::of(trade).to_json();
    assert(normalized@ == trade_json(trade@));
    emit(
        &mut step.events,
        Event::data("trade_normalized", RawJson::Null, RawJson::from_json(&normalized)),
    );
    feed(&mut step.feeds, Feed::Trade { qty: trade.q.clone(), is_buy: !trade.m });
    assert(step@.events =~= trade_step(raw@, trade@).events);
    assert(step@.feeds =~= trade_step(raw@, trade@).feeds);
    step
}

fn is_text(s: &Option<String>, t: &str) -> (same: bool)
    ensures
        same == (json::opt_string(*s) == Some(t@)),
{
    match s {
        Some(s) => same_text(s.as_str(), t),
        None => false,
    }
}

fn read_price(s: &str) -> (d: Dec)
    ensures
        d.parts() == price_or_zero(s@),
        d.wf(),
{
    match parse_dec(s) {
        Some(d) => d,
        None => Dec { mantissa: 0, scale: 0 },
    }
}

/// The text of the middle between two prices, exactly, where they have one. A price that is
/// no number counts as zero; `None` means that the middle is too large to compute.
pub fn strike_text(bid: &str, ask: &str) -> (s: Option<String>)
    ensures
        json::opt_string(s) == match midpoint(bid@, ask@) {
            Some(mid) => Some(decimal::dec_text(mid)),
            None => None,
        },
        have_a_middle(price(bid@), price(ask@)) ==> {
            &&& midpoint(bid@, ask@) matches Some(mid)
            &&& is_middle(mid, price(bid@), price(ask@))
            &&& json::opt_string(s) == Some(decimal::dec_text(mid))
        },
{
    let a: Dec = read_price(bid);
    let b: Dec = read_price(ask);
    match add_dec(a, b) {
        Some(sum) => {
            proof {
                if have_a_middle(a, b) {
                    lemma_sum_of_prices(a, b, sum);
                }
            }
            match div_dec(sum, Dec { mantissa: 2, scale: 0 }) {
                Some(mid) => {
                    proof {
                        if have_a_middle(a, b) {
                            lemma_half_is_middle(a, b, sum, mid);
                        }
                    }
                    Some(mid.to_text())
                },
                None => None,
            }
        },
        None => None,
    }
}

proof fn lemma_sum_of_prices(a: Dec, b: Dec, sum: Dec)
    requires
        have_a_middle(a, b),
        a.mantissa == 0 ==> sum == b,
        a.mantissa != 0 && b.mantissa == 0 ==> sum == a,
        decimal::narrow(a, b) ==> sum == (Dec {
            mantissa: units_together(a, b) as i128,
            scale: decimal::wider(a.scale, b.scale),
        }),
    ensures
        sum.scale <= decimal::wider(a.scale, b.scale),
        decimal::rescaled(sum, decimal::wider(a.scale, b.scale)) == units_together(a, b),
        decimal::halves(sum),
{
    let w = decimal::wider(a.scale, b.scale);
    let limit = 0x1_0000_0000_0000_0000int;
    assert(0 * pow(10, (w - a.scale) as nat) == 0) by (nonlinear_arith);
    assert(0 * pow(10, (w - b.scale) as nat) == 0) by (nonlinear_arith);
    if a.mantissa == 0 || b.mantissa == 0 {
        lemma_sum_is_small(sum.mantissa as int, (w - sum.scale) as nat, limit);
    } else {
        lemma_pow0(10);
    }
}

fn pairs_to_json(pairs: &Vec<(String, String)>) -> (j: Json)
    ensures
        j@ == pairs_json(json_struct::pairs_view(pairs@)),
{
    let mut items: Vec<Json> = Vec::new();
    let ghost wanted = json_struct::pairs_view(pairs@).map_values(
        |p: (Text, Text)| JsonView::Array(seq![JsonView::Str(p.0), JsonView::Str(p.1)]),
    );
    let mut i: usize = 0;
    while i < pairs.len()
        invariant
            i <= pairs.len(),
            items@.len() == i,
            wanted == json_struct::pairs_view(pairs@).map_values(
                |p: (Text, Text)| JsonView::Array(seq![JsonView::Str(p.0), JsonView::Str(p.1)]),
            ),
            forall|k: int| 0 <= k < i ==> #[trigger] items@[k]@ == wanted[k],
        decreases pairs.len() - i,
    {
        let mut pair: Vec<Json> = Vec::new();
        pair.push(Json::text(pairs[i].0.as_str()));
        pair.push(Json::text(pairs[i].1.as_str()));
        assert(json::items_view(pair@) =~= seq![
            JsonView::Str(pairs@[i as int].0@),
            JsonView::Str(pairs@[i as int].1@),
        ]);
        items.push(Json::Array(pair));
        i = i + 1;
    }
    assert(json::items_view(items@) =~= wanted) by {
        assert forall|k: int| 0 <= k < items@.len() implies json::items_view(items@)[k]
            == wanted[k] by {
            assert(items@[k]@ == wanted[k]);
        }
    }
    Json::Array(items)
}

impl DepthUpdateMsg {
    /// This change as JSON.
    pub fn to_json(&self) -> (j: Json)
        ensures
            j@ == depth_json(self@),
    {
        let j: Json = Json::object3(
            "U",
            Json::whole(self.first_update_id),
            "u",
            Json::whole(self.last_update_id),
            "b",
            pairs_to_json(&self.b),
        ).with_field("a", pairs_to_json(&self.a));
        assert(j@->Object_0 =~= depth_json(self@)->Object_0);
        j
    }
}

fn applied_value(d: &DepthUpdateMsg, local: i64) -> (r: RawJson)
    ensures
        r@ == RawView::Value(applied_json(d@, local)),
{
    RawJson::of(
        Json::object3(
            "U",
            Json::whole(d.first_update_id),
            "local_update_id",
            Json::whole(local),
            "u",
            Json::whole(d.last_update_id),
        ),
    )
}

fn depth_feed_of(book: &BinanceBook) -> (f: Feed)
    ensures
        f@ == depth_feed(book@),
{
    let (bids, asks): (Vec<BookLevel>, Vec<BookLevel>) = book.top_levels(FEED_LEVELS);
    Feed::Depth { bids, asks }
}

fn ready(cycle: u32, id: i64) -> (events: Vec<Event>)
    ensures
        types::events_view(events@) == ready_events(cycle, id),
{
    let mut events: Vec<Event> = Vec::new();
    emit(
        &mut events,
        Event::system("sync_ready", RawJson::of(Json::object1("lastUpdateId", Json::whole(id)))),
    );
    if cycle > 1 {
        emit(
            &mut events,
            Event::system(
                "resync_completed",
                RawJson::of(
                    Json::object2(
                        "lastUpdateId",
                        Json::whole(id),
                        "sync_cycle",
                        Json::count(cycle as u64),
                    ),
                ),
            ),
        );
    }
    assert(types::events_view(events@) =~= ready_events(cycle, id));
    events
}

fn loaded(book: &BinanceBook, id: i64, remaining: usize) -> (events: Vec<Event>)
    ensures
        types::events_view(events@) == loaded_events(book@, id, remaining as int),
{
    let mut events: Vec<Event> = Vec::new();
    emit(
        &mut events,
        Event::data(
            "snapshot_loaded",
            RawJson::Null,
            RawJson::of(
                Json::object2(
                    "buffered_remaining",
                    Json::count(remaining as u64),
                    "lastUpdateId",
                    Json::whole(id),
                ),
            ),
        ),
    );
    emit(&mut events, Event::data("book_state", RawJson::Null, book.snapshot(0, id)));
    assert(types::events_view(events@) =~= loaded_events(book@, id, remaining as int));
    events
}

fn tell_gap(events: &mut Vec<Event>, last_good: i64, d: &DepthUpdateMsg)
    ensures
        types::events_view(final(events)@) == types::events_view(old(events)@) + gap_events(
            last_good,
            d@,
        ),
{
    emit(
        events,
        Event::system(
            "gap_detected",
            RawJson::of(
                Json::object3(
                    "incoming_U",
                    Json::whole(d.first_update_id),
                    "incoming_u",
                    Json::whole(d.last_update_id),
                    "last_good_update_id",
                    Json::whole(last_good),
                ),
            ),
        ),
    );
    emit(
        events,
        Event::system(
            "resync_started",
            RawJson::of(Json::object1("reason", Json::text("gap_in_update_ids"))),
        ),
    );
    assert(types::events_view(events@) =~= types::events_view(old(events)@) + gap_events(
        last_good,
        d@,
    ));
}

proof fn lemma_chain_ends(id: i64, changes: Seq<DepthView>, n: int)
    requires
        0 <= n <= changes.len(),
        chain(id, changes.take(n)).gap is Some,
    ensures
        chain(id, changes) == chain(id, changes.take(n)),
    decreases changes.len(),
{
    if n < changes.len() {
        assert(changes.drop_last().take(n) =~= changes.take(n));
        lemma_chain_ends(id, changes.drop_last(), n);
    } else {
        assert(changes.take(n) =~= changes);
    }
}

/// Applies changes to a book at the update `id`. What comes back besides the events: whether a
/// gap ended it.
fn replay(book: &mut BinanceBook, id: i64, changes: &Vec<DepthUpdateMsg>) -> (r: (
    Vec<Event>,
    bool,
))
    ensures
        ({
            let c = chain(id, depths_view(changes@));
            let told = replay_events(old(book)@, c.applied);
            &&& final(book)@ == replayed(old(book)@, c.applied)
            &&& r.1 == c.gap is Some
            &&& types::events_view(r.0@) == match c.gap {
                Some(d) => told + gap_events(reached(id, c.applied), d),
                None => told,
            }
        }),
{
    let ghost all = depths_view(changes@);
    let ghost mut applied: Seq<DepthView> = seq![];
    let mut events: Vec<Event> = Vec::new();
    let mut at: i64 = id;
    let mut i: usize = 0;
    assert(all.take(0) =~= seq![]);
    assert(types::events_view(events@) =~= seq![]);
    while i < changes.len()
        invariant
            i <= changes.len(),
            all == depths_view(changes@),
            chain(id, all.take(i as int)) == (Chain { applied, gap: None }),
            at == reached(id, applied),
            book@ == replayed(old(book)@, applied),
            types::events_view(events@) == replay_events(old(book)@, applied),
        decreases changes.len() - i,
    {
        proof {
            assert(all.take(i + 1).drop_last() =~= all.take(i as int));
            assert(all.take(i + 1).last() == changes@[i as int]@);
        }
        let d: &DepthUpdateMsg = &changes[i];
        if d.first_update_id as i128 > at as i128 + 1 {
            tell_gap(&mut events, at, d);
            proof {
                lemma_chain_ends(id, all, i + 1);
            }
            return (events, true);
        }
        if d.last_update_id > at {
            proof {
                assert(applied.push(d@).drop_last() =~= applied);
                applied = applied.push(d@);
            }
            book.apply_diff(d);
            at = d.last_update_id;
            emit(
                &mut events,
                Event::data(
                    "depth_applied",
                    RawJson::from_json(&d.to_json()),
                    applied_value(d, book.update_id),
                ),
            );
            emit(
                &mut events,
                Event::data(
                    "book_state",
                    RawJson::Null,
                    book.snapshot(d.first_update_id, d.last_update_id),
                ),
            );
            assert(types::events_view(events@) =~= replay_events(old(book)@, applied));
        }
        i = i + 1;
    }
    assert(all.take(all.len() as int) =~= all);
    (events, false)
}

proof fn lemma_filter_grows(buffer: Seq<DepthView>, id: i64, i: int)
    requires
        0 <= i < buffer.len(),
    ensures
        buffer[i].last > id ==> not_included(buffer.take(i + 1), id) == not_included(
            buffer.take(i),
            id,
        ).push(buffer[i]),
        buffer[i].last <= id ==> not_included(buffer.take(i + 1), id) == not_included(
            buffer.take(i),
            id,
        ),
{
    reveal(Seq::filter);
    assert(buffer.take(i + 1).drop_last() =~= buffer.take(i));
    assert(buffer.take(i + 1).last() == buffer[i]);
}

fn keep_later(buffer: Vec<DepthUpdateMsg>, id: i64) -> (kept: Vec<DepthUpdateMsg>)
    ensures
        depths_view(kept@) == not_included(depths_view(buffer@), id),
        kept@.len() <= buffer@.len(),
{
    let ghost all = depths_view(buffer@);
    let ghost source = buffer@;
    let mut rest: Vec<DepthUpdateMsg> = buffer;
    let mut kept: Vec<DepthUpdateMsg> = Vec::new();
    let ghost mut i: int = 0;
    proof {
        reveal(Seq::filter);
        assert(all.take(0) =~= seq![]);
        assert(depths_view(kept@) =~= not_included(all.take(0), id));
    }
    while rest.len() > 0
        invariant
            0 <= i <= source.len(),
            rest@ == source.skip(i),
            all == depths_view(source),
            depths_view(kept@) == not_included(all.take(i), id),
            kept@.len() <= i,
        decreases rest@.len(),
    {
        let d: DepthUpdateMsg = rest.remove(0);
        assert(d == source[i]);
        assert(all[i] == d@);
        proof {
            lemma_filter_grows(all, id, i);
        }
        if d.last_update_id > id {
            kept.push(d);
            assert(depths_view(kept@) =~= not_included(all.take(i + 1), id));
        }
        proof {
            i = i + 1;
            assert(rest@ =~= source.skip(i));
        }
    }
    assert(all.take(i) =~= all);
    kept
}

impl BinanceSession {
    /// A session that has seen nothing.
    pub fn new(market_start: i64) -> (s: BinanceSession)
        ensures
            s@ == fresh_cycle(market_start, false, 1),
    {
        BinanceSession::cycle(market_start, false, 1)
    }

    fn cycle(market_start: i64, strike_recorded: bool, sync_cycle: u32) -> (s: BinanceSession)
        ensures
            s@ == fresh_cycle(market_start, strike_recorded, sync_cycle),
    {
        let s: BinanceSession = BinanceSession {
            market_start,
            strike_recorded,
            sync_cycle,
            synced: false,
            book: BinanceBook::new(),
            buffer: Vec::new(),
            snapshot_attempt: 0,
        };
        assert(depths_view(s.buffer@) =~= seq![]);
        s
    }

    /// Starts over on a new connection: only the strike price stays recorded.
    pub fn reconnected(&mut self)
        ensures
            final(self)@ == fresh_cycle(old(self).market_start, old(self).strike_recorded, 1),
    {
        *self = BinanceSession::cycle(self.market_start, self.strike_recorded, 1);
    }

    fn on_ticker(&mut self, raw: RawJson, ticker: &BookTickerMsg, now: i64) -> (step: Step)
        requires
            -START_LIMIT <= old(self).market_start <= START_LIMIT,
        ensures
            (final(self)@, step@) == ticker_step(old(self)@, raw@, ticker@, now as int),
    {
        let ghost before = self@;
        let mut step: Step = quiet_step();
        emit(&mut step.events, Event::data("book_ticker_raw", raw, RawJson::Null));
        let (local_best_bid, local_best_ask, consistent): (
            Option<String>,
            Option<String>,
            Option<bool>,
        ) = if self.synced && self.book.update_id > 0 {
            let bid: Option<String> = self.book.best_bid_price();
            let ask: Option<String> = self.book.best_ask_price();
            let same: bool = is_text(&bid, ticker.b.as_str()) && is_text(&ask, ticker.a.as_str());
            (bid, ask, Some(same))
        } else {
            (None, None, None)
        };
        let normalized: BookTickerNormalized = BookTickerNormalized {
            bid_price: ticker.b.clone(),
            bid_qty: ticker.bid_qty.clone(),
            ask_price: ticker.a.clone(),
            ask_qty: ticker.ask_qty.clone(),
            update_id: ticker.u,
            local_best_bid,
            local_best_ask,
            consistent,
        };
        let j: Json = normalized.to_json();
        assert(j@ == ticker_json(ticker@, local_best(before, ticker@)));
        emit(
            &mut step.events,
            Event::data("book_ticker_normalized", RawJson::Null, RawJson::from_json(&j)),
        );
        if !self.strike_recorded && now >= self.market_start {
            match strike_text(ticker.b.as_str(), ticker.a.as_str()) {
                Some(price) => {
                    let strike: StrikePrice = StrikePrice {
                        strike_price: price.clone(),
                        strike_bid: ticker.b.clone(),
                        strike_ask: ticker.a.clone(),
                        market_start: self.market_start,
                    };
                    emit(
                        &mut step.events,
                        Event::system("strike_price", RawJson::from_json(&strike.to_json())),
                    );
                    let start_ms: i64 = self.market_start * 1000;
                    feed(
                        &mut step.feeds,
                        Feed::Strike {
                            price,
                            market_start_ms: start_ms,
                            market_end_ms: start_ms + (MARKET_DURATION as i64) * 1000,
                        },
                    );
                    self.strike_recorded = true;
                },
                None => {
                    step.overflow = true;
                },
            }
        }
        feed(
            &mut step.feeds,
            Feed::Bba {
                bid_price: ticker.b.clone(),
                bid_qty: ticker.bid_qty.clone(),
                ask_price: ticker.a.clone(),
                ask_qty: ticker.ask_qty.clone(),
            },
        );
        proof {
            let wanted = ticker_step(before, raw@, ticker@, now as int);
            assert(step@.events =~= wanted.1.events);
            assert(step@.feeds =~= wanted.1.feeds);
        }
        step
    }

    fn on_buffered(&mut self, raw: RawJson, update: DepthUpdateMsg) -> (step: Step)
        requires
            !old(self)@.synced,
            old(self)@.in_range(),
        ensures
            (final(self)@, step@) == buffered_step(old(self)@, raw@, update@),
    {
        let ghost before = self@;
        let mut step: Step = quiet_step();
        emit(
            &mut step.events,
            Event::data(
                "depth_raw_buffered",
                raw,
                RawJson::of(
                    Json::object3(
                        "U",
                        Json::whole(update.first_update_id),
                        "buffer_size",
                        Json::count(self.buffer.len() as u64 + 1),
                        "u",
                        Json::whole(update.last_update_id),
                    ),
                ),
            ),
        );
        self.buffer.push(update);
        assert(depths_view(self.buffer@) =~= before.buffer.push(update@));
        if self.buffer.len() == 1 || self.snapshot_attempt > 0 {
            self.snapshot_attempt = self.snapshot_attempt + 1;
            step.fetch =
            Some(
                FetchRequest {
                    reason: if self.sync_cycle == 1 {
                        "startup".to_owned()
                    } else {
                        "resync_after_gap".to_owned()
                    },
                    attempt: self.snapshot_attempt,
                },
            );
        }
        assert(step@.events =~= buffered_step(before, raw@, update@).1.events);
        step
    }

    fn on_steady(&mut self, raw: RawJson, update: DepthUpdateMsg) -> (step: Step)
        requires
            old(self)@.synced,
            old(self)@.in_range(),
        ensures
            (final(self)@, step@) == steady_step(old(self)@, raw@, update@),
    {
        let ghost before = self@;
        let mut step: Step = quiet_step();
        emit(
            &mut step.events,
            Event::data("depth_raw", raw, applied_value(&update, self.book.update_id)),
        );
        if update.first_update_id as i128 > self.book.update_id as i128 + 1 {
            tell_gap(&mut step.events, self.book.update_id, &update);
            *self = BinanceSession::cycle(
                self.market_start,
                self.strike_recorded,
                self.sync_cycle + 1,
            );
        } else if update.last_update_id > self.book.update_id {
            self.book.apply_diff(&update);
            emit(
                &mut step.events,
                Event::data(
                    "depth_applied",
                    RawJson::Null,
                    applied_value(&update, self.book.update_id),
                ),
            );
            emit(
                &mut step.events,
                Event::data(
                    "book_state",
                    RawJson::Null,
                    self.book.snapshot(update.first_update_id, update.last_update_id),
                ),
            );
            feed(&mut step.feeds, depth_feed_of(&self.book));
        }
        proof {
            let wanted = steady_step(before, raw@, update@);
            assert(step@.events =~= wanted.1.events);
            assert(step@.feeds =~= wanted.1.feeds);
        }
        step
    }

    /// Takes a message that arrived at the time `now`, in seconds.
    pub fn on_message(&mut self, raw: RawJson, msg: Msg, now: i64) -> (step: Step)
        requires
            old(self)@.in_range(),
        ensures
            (final(self)@, step@) == message_step(old(self)@, raw@, msg@, now as int),
    {
        match msg {
            Msg::Trade(t) => on_trade(raw, &t),
            Msg::BookTicker(t) => self.on_ticker(raw, &t, now),
            Msg::Depth(d) => if self.synced {
                self.on_steady(raw, d)
            } else {
                self.on_buffered(raw, d)
            },
        }
    }

    /// Takes a snapshot that was fetched.
    pub fn on_snapshot(&mut self, snap: &Json) -> (step: Step)
        requires
            !old(self)@.synced,
            old(self)@.buffer.len() > 0,
            old(self)@.sync_cycle < u32::MAX,
        ensures
            (final(self)@, step@) == snapshot_step(old(self)@, snap@),
    {
        let ghost before = self@;
        let id: i64 = match snap.i64_field("lastUpdateId") {
            Some(id) => id,
            None => 0,
        };
        assert(id == snapshot_id(snap@));
        assert(before.buffer[0] == self.buffer@[0]@);
        if id < self.buffer[0].first_update_id {
            return quiet_step();
        }
        let mut buffer: Vec<DepthUpdateMsg> = Vec::new();
        std::mem::swap(&mut buffer, &mut self.buffer);
        assert(depths_view(self.buffer@) =~= seq![]);
        let kept: Vec<DepthUpdateMsg> = keep_later(buffer, id);
        let mut step: Step = quiet_step();
        if kept.len() == 0 {
            self.book.load_snapshot(snap);
            let mut events: Vec<Event> = loaded(&self.book, id, 0);
            emit_all(&mut events, ready(self.sync_cycle, id));
            step.events = events;
            self.synced = true;
        } else {
            assert(depths_view(kept@)[0] == kept@[0]@);
            let first: i64 = kept[0].first_update_id;
            let last: i64 = kept[0].last_update_id;
            if !(first as i128 <= id as i128 + 1 && id as i128 + 1 <= last as i128) {
                emit(
                    &mut step.events,
                    Event::data(
                        "error",
                        RawJson::of(
                            Json::object3(
                                "first_U",
                                Json::whole(first),
                                "first_u",
                                Json::whole(last),
                                "lastUpdateId",
                                Json::whole(id),
                            ),
                        ),
                        RawJson::of(
                            Json::object1(
                                "reason",
                                Json::text("first_event_does_not_span_snapshot"),
                            ),
                        ),
                    ),
                );
            } else {
                self.book.load_snapshot(snap);
                let mut events: Vec<Event> = loaded(&self.book, id, kept.len());
                let (told, gap): (Vec<Event>, bool) = replay(&mut self.book, id, &kept);
                emit_all(&mut events, told);
                if gap {
                    *self = BinanceSession::cycle(
                        self.market_start,
                        self.strike_recorded,
                        self.sync_cycle + 1,
                    );
                } else {
                    emit_all(&mut events, ready(self.sync_cycle, self.book.update_id));
                    feed(&mut step.feeds, depth_feed_of(&self.book));
                    self.synced = true;
                }
                step.events = events;
            }
        }
        proof {
            let wanted = snapshot_step(before, snap@);
            assert(step@.events =~= wanted.1.events);
            assert(step@.feeds =~= wanted.1.feeds);
        }
        step
    }
}


// Fetching snapshots

/// How the fetch of a snapshot went.
pub enum SnapshotOutcome {
    Loaded(Json),
    Status { status: u16, body: String },
    BadJson(String),
    Failed(String),
}

/// What the outcome of a fetch holds.
pub enum OutcomeView {
    Loaded(JsonView),
    Status { status: u16, body: Text },
    BadJson(Text),
    Failed(Text),
}

impl View for SnapshotOutcome {
    type V = OutcomeView;

    open spec fn view(&self) -> OutcomeView {
        match self {
            SnapshotOutcome::Loaded(j) => OutcomeView::Loaded(j@),
            SnapshotOutcome::Status { status, body } => OutcomeView::Status {
                status: *status,
                body: body@,
            },
            SnapshotOutcome::BadJson(e) => OutcomeView::BadJson(e@),
            SnapshotOutcome::Failed(e) => OutcomeView::Failed(e@),
        }
    }
}

/// How many levels a snapshot has on one side.
pub open spec fn level_count(snap: JsonView, key: Text) -> int {
    match json::items_of(json::field(snap, key)) {
        Some(items) => items.len() as int,
        None => 0,
    }
}

/// Why a fetch failed, and which attempt it was.
pub open spec fn failure_json(attempt: u32, reason: Text) -> RawView {
    RawView::Value(
        JsonView::Object(
            seq![("attempt"@, json::num(attempt as int)), ("reason"@, JsonView::Str(reason))],
        ),
    )
}

/// An error and what kind of error it is.
pub open spec fn error_json(error: Text, kind: Text) -> RawView {
    RawView::Value(
        JsonView::Object(seq![("error"@, JsonView::Str(error)), ("type"@, JsonView::Str(kind))]),
    )
}

/// The event that records the outcome of a fetch.
pub open spec fn fetch_event(outcome: OutcomeView, reason: Text, attempt: u32) -> EventView {
    match outcome {
        OutcomeView::Loaded(snap) => types::data_event(
            "snapshot_raw"@,
            RawView::Raw(json::json_text(snap)),
            RawView::Value(
                JsonView::Object(
                    seq![
                        ("ask_levels"@, json::num(level_count(snap, "asks"@))),
                        ("attempt"@, json::num(attempt as int)),
                        ("bid_levels"@, json::num(level_count(snap, "bids"@))),
                        ("lastUpdateId"@, json::field(snap, "lastUpdateId"@)),
                        ("reason"@, JsonView::Str(reason)),
                    ],
                ),
            ),
        ),
        OutcomeView::Status { status, body } => types::data_event(
            "error"@,
            RawView::Value(
                JsonView::Object(
                    seq![("body"@, JsonView::Str(body)), ("status"@, json::num(status as int))],
                ),
            ),
            failure_json(attempt, "snapshot_fetch_failed"@),
        ),
        OutcomeView::BadJson(error) => types::data_event(
            "error"@,
            error_json(error, "JsonParseError"@),
            failure_json(attempt, "snapshot_fetch_error"@),
        ),
        OutcomeView::Failed(error) => types::data_event(
            "error"@,
            error_json(error, "RequestError"@),
            failure_json(attempt, "snapshot_fetch_error"@),
        ),
    }
}

/// A copy of the field `key`, or null.
pub fn field_or_null(j: &Json, key: &str) -> (v: Json)
    ensures
        v@ == json::field(j@, key@),
{
    match j.get(key) {
        Some(v) => v.duplicate(),
        None => Json::Null,
    }
}

fn count_levels(snap: &Json, key: &str) -> (n: u64)
    ensures
        n == level_count(snap@, key@),
{
    match snap.array_field(key) {
        Some(items) => {
            assert(json::items_view(items@).len() == items@.len());
            items.len() as u64
        },
        None => 0,
    }
}

fn failure(attempt: u32, reason: &str) -> (r: RawJson)
    ensures
        r@ == failure_json(attempt, reason@),
{
    RawJson::of(
        Json::object2("attempt", Json::count(attempt as u64), "reason", Json::text(reason)),
    )
}

/// An error and what kind of error it is.
pub fn error_value(error: &str, kind: &str) -> (r: RawJson)
    ensures
        r@ == error_json(error@, kind@),
{
    RawJson::of(Json::object2("error", Json::text(error), "type", Json::text(kind)))
}

/// The event that records the outcome of a fetch.
pub fn snapshot_event(outcome: &SnapshotOutcome, reason: &str, attempt: u32) -> (e: Event)
    ensures
        e@ == fetch_event(outcome@, reason@, attempt),
{
    match outcome {
        SnapshotOutcome::Loaded(snap) => {
            let j: Json = Json::object3(
                "ask_levels",
                Json::count(count_levels(snap, "asks")),
                "attempt",
                Json::count(attempt as u64),
                "bid_levels",
                Json::count(count_levels(snap, "bids")),
            ).with_field("lastUpdateId", field_or_null(snap, "lastUpdateId")).with_field(
                "reason",
                Json::text(reason),
            );
            assert(j@->Object_0 =~= seq![
                ("ask_levels"@, json::num(level_count(snap@, "asks"@))),
                ("attempt"@, json::num(attempt as int)),
                ("bid_levels"@, json::num(level_count(snap@, "bids"@))),
                ("lastUpdateId"@, json::field(snap@, "lastUpdateId"@)),
                ("reason"@, JsonView::Str(reason@)),
            ]);
            Event::data("snapshot_raw", RawJson::from_json(snap), RawJson::of(j))
        },
        SnapshotOutcome::Status { status, body } => Event::data(
            "error",
            RawJson::of(
                Json::object2(
                    "body",
                    Json::text(body.as_str()),
                    "status",
                    Json::count(*status as u64),
                ),
            ),
            failure(attempt, "snapshot_fetch_failed"),
        ),
        SnapshotOutcome::BadJson(error) => Event::data(
            "error",
            error_value(error.as_str(), "JsonParseError"),
            failure(attempt, "snapshot_fetch_error"),
        ),
        SnapshotOutcome::Failed(error) => Event::data(
            "error",
            error_value(error.as_str(), "RequestError"),
            failure(attempt, "snapshot_fetch_error"),
        ),
    }
}

// Connecting

/// The connection to the exchange: how long to wait before the next attempt.
pub struct BinanceLink {
    pub backoff: u64,
}

/// How long the next attempt is delayed.
pub open spec fn backoff_json(backoff: u64) -> RawView {
    RawView::Value(JsonView::Object(seq![("backoff"@, config::delay_json(backoff))]))
}

/// The event that tells that a connection is being made.
pub open spec fn connecting_event() -> EventView {
    types::system_event(
        "ws_connecting"@,
        RawView::Value(JsonView::Object(seq![("url"@, JsonView::Str(BINANCE_WS_URL@))])),
    )
}

/// The events that follow a failed connection: the error and, unless the collector
/// stops, the delay.
pub open spec fn failed_events(error: Text, stopping: bool, backoff: u64) -> Seq<EventView> {
    let failed = types::data_event(
        "error"@,
        error_json(error, "WsConnectionError"@),
        RawView::Value(
            JsonView::Object(seq![("reason"@, JsonView::Str("ws_connection_error"@))]),
        ),
    );
    if stopping {
        seq![failed]
    } else {
        seq![failed, types::system_event("ws_reconnecting"@, backoff_json(backoff))]
    }
}

/// The events that follow the end of a connection: none where the collector stops.
pub open spec fn closed_events(stopping: bool, backoff: u64) -> Seq<EventView> {
    if stopping {
        seq![]
    } else {
        seq![
            types::system_event("ws_disconnected"@, RawView::Null),
            types::system_event("ws_reconnecting"@, backoff_json(backoff)),
        ]
    }
}

fn backoff_value(backoff: u64) -> (r: RawJson)
    requires
        config::is_reconnect_delay(backoff),
    ensures
        r@ == backoff_json(backoff),
{
    RawJson::of(Json::object1("backoff", delay_value(backoff)))
}

impl BinanceLink {
    /// The next attempt waits for one of the delays.
    pub open spec fn wf(self) -> bool {
        config::is_reconnect_delay(self.backoff)
    }

    /// A link that has not failed yet.
    pub fn new() -> (l: BinanceLink)
        ensures
            l.backoff == WS_RECONNECT_BASE_SECS,
            l.wf(),
    {
        BinanceLink { backoff: WS_RECONNECT_BASE_SECS }
    }

    /// A connection is being made.
    pub fn connecting(&self) -> (e: Event)
        ensures
            e@ == connecting_event(),
    {
        Event::system(
            "ws_connecting",
            RawJson::of(Json::object1("url", Json::text(BINANCE_WS_URL))),
        )
    }

    /// The connection was made: the next delay is the shortest one again.
    pub fn connected(&mut self) -> (e: Event)
        ensures
            e@ == types::system_event("ws_connected"@, RawView::Null),
            final(self).backoff == WS_RECONNECT_BASE_SECS,
            final(self).wf(),
    {
        self.backoff = WS_RECONNECT_BASE_SECS;
        Event::system("ws_connected", RawJson::Null)
    }

    /// The connection could not be made. Unless the collector stops, the next attempt
    /// waits, and the one after it twice as long.
    pub fn failed(&mut self, error: &str, stopping: bool) -> (r: (Vec<Event>, Next))
        requires
            old(self).wf(),
        ensures
            final(self).wf(),
            types::events_view(r.0@) == failed_events(error@, stopping, old(self).backoff),
            r.1 == config::next_connection(stopping, old(self).backoff),
            final(self).backoff == (if stopping {
                old(self).backoff as int
            } else {
                config::next_delay(old(self).backoff as int, WS_RECONNECT_MAX_SECS as int)
            }),
    {
        let mut events: Vec<Event> = Vec::new();
        emit(
            &mut events,
            Event::data(
                "error",
                error_value(error, "WsConnectionError"),
                RawJson::of(Json::object1("reason", Json::text("ws_connection_error"))),
            ),
        );
        if stopping {
            assert(types::events_view(events@) =~= failed_events(error@, stopping, self.backoff));
            return (events, Next::Stop);
        }
        let wait: u64 = self.backoff;
        emit(&mut events, Event::system("ws_reconnecting", backoff_value(wait)));
        assert(types::events_view(events@) =~= failed_events(error@, stopping, self.backoff));
        self.backoff = double_delay(wait, WS_RECONNECT_MAX_SECS);
        (events, after_connection(stopping, wait))
    }

    /// The connection ended. Unless the collector stops, another one is made at once.
    pub fn closed(&self, stopping: bool) -> (r: (Vec<Event>, Next))
        requires
            self.wf(),
        ensures
            types::events_view(r.0@) == closed_events(stopping, self.backoff),
            r.1 == config::next_connection(stopping, 0),
    {
        let mut events: Vec<Event> = Vec::new();
        if !stopping {
            emit(&mut events, Event::system("ws_disconnected", RawJson::Null));
            emit(&mut events, Event::system("ws_reconnecting", backoff_value(self.backoff)));
        }
        assert(types::events_view(events@) =~= closed_events(stopping, self.backoff));
        (events, after_connection(stopping, 0))
    }
}

// Laws

/// Once the book is synchronised, its update identifier never goes back, and a change is
/// only applied where it covers the update that the book needs next.
pub proof fn applied_changes_are_continuous(s: SessionView, raw: RawView, d: DepthView)
    requires
        s.synced,
    ensures
        ({
            let after = message_step(s, raw, MsgView::Depth(d), 0).0;
            &&& after.synced ==> after.book.update_id >= s.book.update_id
            &&& after.synced && after.book != s.book ==> spans(d, s.book.update_id)
            &&& after.synced <==> d.first <= s.book.update_id + 1
        }),
{
}

/// Where updates are missing, the next cycle starts with nothing of the earlier one but
/// the strike price.
pub proof fn gap_starts_over(s: SessionView, raw: RawView, d: DepthView)
    requires
        s.synced,
        s.sync_cycle < u32::MAX,
        is_gap(s.book, d),
    ensures
        message_step(s, raw, MsgView::Depth(d), 0).0 == fresh_cycle(
            s.market_start,
            s.strike_recorded,
            (s.sync_cycle + 1) as u32,
        ),
{
}

/// The strike price is recorded at most once: after it was, no message records it again.
pub proof fn strike_is_recorded_once(s: SessionView, raw: RawView, m: MsgView, now: int)
    requires
        s.strike_recorded,
    ensures
        message_step(s, raw, m, now).0.strike_recorded,
        forall|i: int|
            0 <= i < message_step(s, raw, m, now).1.events.len() ==> (
            #[trigger] message_step(s, raw, m, now).1.events[i]).system_type != Some(
                "strike_price"@,
            ),
{
    reveal_strlit("strike_price");
    reveal_strlit("gap_detected");
    reveal_strlit("resync_started");
    assert("gap_detected"@[0] == 'g');
    assert("strike_price"@[0] == 's');
    assert("resync_started"@[0] == 'r');
}

/// The strike price is recorded by the first prices at or after the start of the market,
/// unless it cannot be computed; before the start it never is.
pub proof fn strike_is_recorded_at_the_start(
    s: SessionView,
    raw: RawView,
    t: TickerView,
    now: int,
)
    requires
        !s.strike_recorded,
    ensures
        message_step(s, raw, MsgView::BookTicker(t), now).0.strike_recorded <==> now
            >= s.market_start && midpoint(t.b, t.a) is Some,
{
}

proof fn lemma_chain(id: i64, changes: Seq<DepthView>)
    ensures
        ({
            let c = chain(id, changes);
            &&& forall|i: int|
                0 <= i < c.applied.len() ==> spans(
                    #[trigger] c.applied[i],
                    reached(id, c.applied.take(i)),
                )
            &&& c.gap is None ==> forall|i: int|
                0 <= i < changes.len() ==> (#[trigger] changes[i]).last <= reached(id, c.applied)
            &&& id <= reached(id, c.applied)
        }),
    decreases changes.len(),
{
    if changes.len() > 0 {
        let before = chain(id, changes.drop_last());
        let c = chain(id, changes);
        lemma_chain(id, changes.drop_last());
        assert(changes.drop_last().len() == changes.len() - 1);
        assert forall|i: int| 0 <= i < c.applied.len() implies spans(
            #[trigger] c.applied[i],
            reached(id, c.applied.take(i)),
        ) by {
            if i < before.applied.len() {
                assert(c.applied[i] == before.applied[i]);
                assert(c.applied.take(i) =~= before.applied.take(i));
            } else {
                assert(c.applied.take(i) =~= before.applied);
            }
        }
        if c.gap is None {
            assert forall|i: int| 0 <= i < changes.len() implies (#[trigger] changes[i]).last
                <= reached(id, c.applied) by {
                if i < changes.len() - 1 {
                    assert(changes.drop_last()[i] == changes[i]);
                }
            }
        }
    }
}

/// The changes that are applied behind a snapshot at the update `id` follow on it and on each
/// other: each covers the update that comes next.
pub proof fn replayed_changes_are_continuous(id: i64, changes: Seq<DepthView>)
    ensures
        ({
            let applied = chain(id, changes).applied;
            forall|i: int|
                0 <= i < applied.len() ==> spans(
                    #[trigger] applied[i],
                    if i == 0 {
                        id
                    } else {
                        applied[i - 1].last
                    },
                )
        }),
{
    lemma_chain(id, changes);
    let applied = chain(id, changes).applied;
    assert forall|i: int| 0 <= i < applied.len() implies spans(
        #[trigger] applied[i],
        if i == 0 {
            id
        } else {
            applied[i - 1].last
        },
    ) by {
        assert(spans(applied[i], reached(id, applied.take(i))));
        if i > 0 {
            assert(applied.take(i).last() == applied[i - 1]);
        }
    }
}

/// A snapshot that synchronises the book leaves no update out: what was applied to it follows on
/// it without a gap, and the book includes every buffered change.
pub proof fn snapshot_leaves_no_loss(s: SessionView, snap: JsonView)
    requires
        !s.synced,
        s.buffer.len() > 0,
        json::i64_of(json::field(snap, "lastUpdateId"@)) is Some,
        snapshot_step(s, snap).0.synced,
    ensures
        ({
            let id = snapshot_id(snap);
            let c = chain(id, not_included(s.buffer, id));
            let after = snapshot_step(s, snap).0;
            &&& s.buffer[0].first <= id
            &&& c.gap is None
            &&& after.book == replayed(binance::book_loaded(s.book, snap), c.applied)
            &&& after.book.update_id == reached(id, c.applied)
            &&& after.buffer.len() == 0
            &&& forall|i: int|
                0 <= i < s.buffer.len() ==> (#[trigger] s.buffer[i]).last <= after.book.update_id
        }),
{
    let id = snapshot_id(snap);
    let kept = not_included(s.buffer, id);
    let after = snapshot_step(s, snap).0;
    lemma_chain(id, kept);
    assert forall|i: int| 0 <= i < s.buffer.len() implies (#[trigger] s.buffer[i]).last
        <= after.book.update_id by {
        if s.buffer[i].last > id {
            s.buffer.lemma_filter_contains(|d: DepthView| d.last > id, i);
            let k = choose|k: int| 0 <= k < kept.len() && kept[k] == s.buffer[i];
            assert(kept[k].last <= reached(id, chain(id, kept).applied));
        }
    }
}

/// Where a buffered change leaves a gap behind a snapshot, the book is given up: a new cycle
/// starts, with nothing of the earlier one but the strike price.
pub proof fn gap_behind_a_snapshot_starts_over(s: SessionView, snap: JsonView)
    requires
        !s.synced,
        s.buffer.len() > 0,
        s.sync_cycle < u32::MAX,
        s.buffer[0].first <= snapshot_id(snap),
        not_included(s.buffer, snapshot_id(snap)).len() > 0,
        spans(not_included(s.buffer, snapshot_id(snap))[0], snapshot_id(snap)),
        chain(snapshot_id(snap), not_included(s.buffer, snapshot_id(snap))).gap is Some,
    ensures
        snapshot_step(s, snap).0 == fresh_cycle(
            s.market_start,
            s.strike_recorded,
            (s.sync_cycle + 1) as u32,
        ),
{
}

/// Loading a snapshot forgets all levels that were there before.
pub proof fn snapshot_replaces_the_book(before: BookView, other: BookView, snap: JsonView)
    ensures
        binance::book_loaded(before, snap).bids == binance::book_loaded(other, snap).bids,
        binance::book_loaded(before, snap).asks == binance::book_loaded(other, snap).asks,
{
}

/// A change that the book already includes changes nothing and records only that it came.
pub proof fn stale_changes_are_skipped(s: SessionView, raw: RawView, d: DepthView)
    requires
        s.synced,
        is_stale(s.book, d),
        !is_gap(s.book, d),
    ensures
        message_step(s, raw, MsgView::Depth(d), 0).0 == s,
        message_step(s, raw, MsgView::Depth(d), 0).1.events.len() == 1,
{
}

/// A snapshot that is older than all buffered changes changes nothing, and the next
/// change asks for another one.
pub proof fn old_snapshots_are_fetched_again(
    s: SessionView,
    snap: JsonView,
    raw: RawView,
    d: DepthView,
)
    requires
        !s.synced,
        s.buffer.len() > 0,
        0 < s.snapshot_attempt < u32::MAX,
        snapshot_id(snap) < s.buffer[0].first,
    ensures
        snapshot_step(s, snap) == (s, quiet()),
        buffered_step(s, raw, d).1.fetch == Some(
            (fetch_reason(s.sync_cycle), (s.snapshot_attempt + 1) as u32),
        ),
{
}

/// A change that follows on the book is applied to it, level by level, and recorded; the best
/// levels of the new book go to the fair value model. Nothing else of the session changes.
pub proof fn following_changes_reach_the_book(
    s: SessionView,
    raw: RawView,
    d: DepthView,
    now: int,
    key: i64,
)
    requires
        s.synced,
        d.first <= s.book.update_id + 1 <= d.last,
    ensures
        ({
            let (after, step) = message_step(s, raw, MsgView::Depth(d), now);
            &&& levels::shows_changes(s.book.bids, after.book.bids, d.b, 100_000_000, key)
            &&& levels::shows_changes(s.book.asks, after.book.asks, d.a, 100_000_000, key)
            &&& after.book.update_id == d.last
            &&& after == (SessionView { book: after.book, ..s })
            &&& step.events.len() == 3
            &&& step.events[0].event_type == "depth_raw"@ && step.events[0].raw == raw
            &&& step.events[1].event_type == "depth_applied"@
            &&& step.events[2].event_type == "book_state"@
            &&& step.events[2].normalized == RawView::Raw(
                json::json_text(
                    binance::state_json(binance::state_of(after.book, d.first, d.last)),
                ),
            )
            &&& step.feeds.len() == 1 && feeds_best_levels(step.feeds[0], after.book)
            &&& step.fetch is None && !step.overflow
        }),
{
    binance::changes_set_every_level(s.book, d, key);
    let book = binance::book_after(s.book, d);
    let bids = levels::descending(book.bids);
    let asks = levels::ascending(book.asks);
    assert(bids.take(bids.len() as int) =~= bids);
    assert(asks.take(asks.len() as int) =~= asks);
    assert(feeds_best_levels(depth_feed(book), book));
}

/// A feed holds the first twenty levels of both sides, the best ones first, or all where there
/// are fewer.
pub open spec fn feeds_best_levels(f: FeedView, book: BookView) -> bool {
    f matches FeedView::Depth { bids, asks } && bids == levels::descending(book.bids).take(
        if levels::descending(book.bids).len() < 20 {
            levels::descending(book.bids).len() as int
        } else {
            20
        },
    ) && asks == levels::ascending(book.asks).take(
        if levels::ascending(book.asks).len() < 20 {
            levels::ascending(book.asks).len() as int
        } else {
            20
        },
    )
}

/// Where the first update of a change lies beyond the next one of the book, the gap is told, the
/// book is emptied, and a new cycle begins with nothing buffered; no level is changed by it.
pub proof fn gaps_are_told(s: SessionView, raw: RawView, d: DepthView, now: int)
    requires
        s.synced,
        s.sync_cycle < u32::MAX,
        d.first > s.book.update_id + 1,
    ensures
        ({
            let (after, step) = message_step(s, raw, MsgView::Depth(d), now);
            &&& !after.synced && after.buffer.len() == 0 && after.snapshot_attempt == 0
            &&& after.sync_cycle == s.sync_cycle + 1
            &&& after.market_start == s.market_start && after.strike_recorded == s.strike_recorded
            &&& forall|k: i64| !after.book.bids.contains_key(k) && !after.book.asks.contains_key(k)
            &&& step.events.len() == 3
            &&& step.events[0].event_type == "depth_raw"@ && step.events[0].raw == raw
            &&& step.events[1].system_type == Some("gap_detected"@)
            &&& step.events[1].normalized == RawView::Value(
                JsonView::Object(
                    seq![
                        ("incoming_U"@, json::num(d.first as int)),
                        ("incoming_u"@, json::num(d.last as int)),
                        ("last_good_update_id"@, json::num(s.book.update_id as int)),
                    ],
                ),
            )
            &&& step.events[2].system_type == Some("resync_started"@)
            &&& step.feeds.len() == 0
        }),
{
}

/// Changes that come before the book is synchronised are kept in the order in which they came. A
/// snapshot is asked for by the first of them, and by each that follows an attempt.
pub proof fn early_changes_are_kept(s: SessionView, raw: RawView, d: DepthView, now: int)
    requires
        !s.synced,
        s.snapshot_attempt < u32::MAX,
    ensures
        ({
            let (after, step) = message_step(s, raw, MsgView::Depth(d), now);
            let asked = s.buffer.len() == 0 || s.snapshot_attempt > 0;
            &&& after.buffer == s.buffer.push(d)
            &&& after.book == s.book && !after.synced && after.sync_cycle == s.sync_cycle
            &&& after.market_start == s.market_start && after.strike_recorded == s.strike_recorded
            &&& step.fetch is Some <==> asked
            &&& after.snapshot_attempt == s.snapshot_attempt + if asked { 1int } else { 0int }
            &&& asked ==> step.fetch == Some(
                (
                    if s.sync_cycle == 1 {
                        "startup"@
                    } else {
                        "resync_after_gap"@
                    },
                    after.snapshot_attempt,
                ),
            )
            &&& step.events.len() == 1 && step.events[0].event_type == "depth_raw_buffered"@
                && step.events[0].raw == raw
            &&& step.feeds.len() == 0
        }),
{
}

/// A trade changes nothing of the session. It is recorded as it came and as it was read, and
/// counts as a purchase where the buyer is not the market maker.
pub proof fn trades_are_passed_on(s: SessionView, raw: RawView, t: TradeView, now: int)
    ensures
        ({
            let (after, step) = message_step(s, raw, MsgView::Trade(t), now);
            &&& after == s
            &&& step.events.len() == 2
            &&& step.events[0].event_type == "trade_raw"@ && step.events[0].raw == raw
            &&& step.events[1].event_type == "trade_normalized"@ && step.events[1].normalized
                == RawView::Raw(json::json_text(trade_json(t)))
            &&& step.feeds == seq![FeedView::Trade { qty: t.q, is_buy: !t.m }]
            &&& step.fetch is None && !step.overflow
        }),
{
}

/// The best prices always go to the fair value model, and are recorded as they came and as they
/// compare with the local book.
pub proof fn prices_are_passed_on(s: SessionView, raw: RawView, t: TickerView, now: int)
    ensures
        ({
            let (after, step) = message_step(s, raw, MsgView::BookTicker(t), now);
            &&& step.events.len() >= 2
            &&& step.events[0].event_type == "book_ticker_raw"@ && step.events[0].raw == raw
            &&& step.events[1].event_type == "book_ticker_normalized"@
                && step.events[1].normalized == RawView::Raw(
                json::json_text(ticker_json(t, local_best(s, t))),
            )
            &&& step.feeds.len() >= 1 && step.feeds.last() == (FeedView::Bba {
                bid_price: t.b,
                bid_qty: t.bid_qty,
                ask_price: t.a,
                ask_qty: t.ask_qty,
            })
            &&& after == (SessionView { strike_recorded: after.strike_recorded, ..s })
            &&& step.fetch is None
        }),
{
}

/// Prices are compared with the local book once that is synchronised and holds an update: they
/// agree where both are the best prices of the book.
pub proof fn comparisons_are_with_the_best_levels(s: SessionView, t: TickerView)
    requires
        s.book.bids.dom().finite(),
        s.book.asks.dom().finite(),
    ensures
        local_best(s, t) is Some <==> s.synced && s.book.update_id > 0,
        local_best(s, t) matches Some(l) ==> {
            &&& l.consistent == (is_price_of(l.bid, t.b) && is_price_of(l.ask, t.a))
            &&& l.bid is None <==> s.book.bids.dom().len() == 0
            &&& l.ask is None <==> s.book.asks.dom().len() == 0
            &&& l.bid is Some ==> levels::is_highest_price(s.book.bids, l.bid->0)
            &&& l.ask is Some ==> levels::is_lowest_price(s.book.asks, l.ask->0)
        },
{
    levels::first_levels_are_best(s.book.bids);
    levels::first_levels_are_best(s.book.asks);
    levels::listing_is_sorted(s.book.bids);
    levels::listing_is_sorted(s.book.asks);
    levels::best_prices_are_those_of_best_levels(s.book.bids);
    levels::best_prices_are_those_of_best_levels(s.book.asks);
}

/// A price is there, and it is this one.
pub open spec fn is_price_of(p: Option<Text>, price: Text) -> bool {
    p is Some && p->0 == price
}

/// The strike price that is recorded, and that goes to the fair value model, is the middle of the
/// prices; with it go the start of the market and its end, five minutes later.
pub proof fn strikes_are_the_middle(s: SessionView, raw: RawView, t: TickerView, now: int, mid: Dec)
    requires
        !s.strike_recorded,
        now >= s.market_start,
        midpoint(t.b, t.a) == Some(mid),
    ensures
        ({
            let (after, step) = message_step(s, raw, MsgView::BookTicker(t), now);
            &&& after == (SessionView { strike_recorded: true, ..s })
            &&& step.events.len() == 3 && step.events[2].system_type == Some("strike_price"@)
            &&& step.events[2].normalized == RawView::Raw(
                json::json_text(strike_json(decimal::dec_text(mid), t.b, t.a, s.market_start)),
            )
            &&& step.feeds.len() == 2 && step.feeds[0] == (FeedView::Strike {
                price: decimal::dec_text(mid),
                market_start_ms: s.market_start * 1000,
                market_end_ms: s.market_start * 1000 + 300_000,
            })
            &&& !step.overflow
        }),
{
}

/// All entries of changes for a side, in their order.
pub open spec fn bids_of(changes: Seq<DepthView>) -> Seq<(Text, Text)>
    decreases changes.len(),
{
    if changes.len() == 0 {
        seq![]
    } else {
        bids_of(changes.drop_last()) + changes.last().b
    }
}

/// All entries of changes for the other side, in their order.
pub open spec fn asks_of(changes: Seq<DepthView>) -> Seq<(Text, Text)>
    decreases changes.len(),
{
    if changes.len() == 0 {
        seq![]
    } else {
        asks_of(changes.drop_last()) + changes.last().a
    }
}

proof fn lemma_sides_add_up(
    side: Map<i64, LevelView>,
    a: Seq<(Text, Text)>,
    b: Seq<(Text, Text)>,
)
    ensures
        binance::side_after(side, a + b) == binance::side_after(binance::side_after(side, a), b),
    decreases b.len(),
{
    if b.len() == 0 {
        assert(a + b =~= a);
    } else {
        lemma_sides_add_up(side, a, b.drop_last());
        assert((a + b).drop_last() =~= a + b.drop_last());
        assert((a + b).last() == b.last());
    }
}

proof fn lemma_replayed_sides(book: BookView, changes: Seq<DepthView>)
    ensures
        replayed(book, changes).bids == binance::side_after(book.bids, bids_of(changes)),
        replayed(book, changes).asks == binance::side_after(book.asks, asks_of(changes)),
    decreases changes.len(),
{
    if changes.len() > 0 {
        lemma_replayed_sides(book, changes.drop_last());
        lemma_sides_add_up(book.bids, bids_of(changes.drop_last()), changes.last().b);
        lemma_sides_add_up(book.asks, asks_of(changes.drop_last()), changes.last().a);
    }
}

/// Changes that are replayed set or remove every level that any of them lists: the last entry with
/// a key, in whichever change, decides.
pub proof fn replays_set_every_level(book: BookView, changes: Seq<DepthView>, key: i64)
    ensures
        levels::shows_changes(
            book.bids,
            replayed(book, changes).bids,
            bids_of(changes),
            100_000_000,
            key,
        ),
        levels::shows_changes(
            book.asks,
            replayed(book, changes).asks,
            asks_of(changes),
            100_000_000,
            key,
        ),
        replayed(book, changes).update_id == (if changes.len() == 0 {
            book.update_id
        } else {
            changes.last().last
        }),
{
    lemma_replayed_sides(book, changes);
    let all = DepthView { first: 0, last: 0, b: bids_of(changes), a: asks_of(changes) };
    binance::changes_set_every_level(book, all, key);
}

/// Changes of which each begins where the one before it ended.
pub open spec fn consecutive(changes: Seq<DepthView>) -> bool {
    &&& forall|i: int| 0 <= i < changes.len() ==> (#[trigger] changes[i]).first <= changes[i].last
    &&& forall|i: int|
        0 < i < changes.len() ==> (#[trigger] changes[i]).first == changes[i - 1].last + 1
}

proof fn lemma_consecutive_chain(buffer: Seq<DepthView>, id: i64, n: int)
    requires
        consecutive(buffer),
        0 <= n <= buffer.len(),
        buffer.len() > 0,
        buffer[0].first <= id,
    ensures
        ({
            let kept = not_included(buffer.take(n), id);
            let c = chain(id, kept);
            &&& c.gap is None
            &&& reached(id, c.applied) == (if n > 0 && buffer[n - 1].last > id {
                buffer[n - 1].last
            } else {
                id
            })
            &&& c.applied == kept
            &&& kept.len() > 0 ==> spans(kept[0], id) && buffer[n - 1].last > id
            &&& kept.len() == 0 ==> n == 0 || buffer[n - 1].last <= id
        }),
    decreases n,
{
    reveal(Seq::filter);
    let upto = buffer.take(n);
    if n == 0 {
        assert(upto =~= seq![]);
    } else {
        lemma_consecutive_chain(buffer, id, n - 1);
        assert(upto.drop_last() =~= buffer.take(n - 1));
        assert(upto.last() == buffer[n - 1]);
        let before = not_included(buffer.take(n - 1), id);
        let kept = not_included(upto, id);
        let d = buffer[n - 1];
        if n > 1 {
            assert(d.first == buffer[n - 2].last + 1);
        }
        if d.last > id {
            assert(kept =~= before.push(d));
            assert(kept.drop_last() =~= before);
            assert(kept.last() == d);
            let c = chain(id, before);
            assert(d.first <= reached(id, c.applied) + 1);
            assert(d.last > reached(id, c.applied));
            assert(chain(id, kept).applied =~= kept);
        } else {
            assert(kept =~= before);
        }
    }
}

/// Where the buffered changes follow on each other and the snapshot lies among them, the snapshot
/// synchronises the book. It then includes the last of them, or the snapshot where that is later,
/// and shows what the snapshot and the changes behind it say; nothing is buffered any more.
pub proof fn snapshots_synchronise_the_book(s: SessionView, snap: JsonView, id: i64)
    requires
        !s.synced,
        s.buffer.len() > 0,
        consecutive(s.buffer),
        json::field(snap, "lastUpdateId"@) == json::num(id as int),
        s.buffer[0].first <= id,
    ensures
        ({
            let (after, step) = snapshot_step(s, snap);
            let behind = s.buffer.filter(|d: DepthView| d.last > id);
            &&& after.synced && after.buffer.len() == 0
            &&& after.sync_cycle == s.sync_cycle && after.market_start == s.market_start
            &&& after.strike_recorded == s.strike_recorded
            &&& after.book.update_id == (if s.buffer.last().last > id {
                s.buffer.last().last
            } else {
                id
            })
            &&& after.book == replayed(binance::book_loaded(s.book, snap), behind)
            &&& exists|i: int|
                0 <= i < step.events.len() && #[trigger] step.events[i].system_type == Some(
                    "sync_ready"@,
                )
        }),
{
    let n = s.buffer.len() as int;
    assert(s.buffer.take(n) =~= s.buffer);
    lemma_consecutive_chain(s.buffer, id, n);
    assert(snapshot_id(snap) == id);
    let kept = not_included(s.buffer, id);
    assert(s.buffer.filter(|d: DepthView| d.last > id) == kept);
    if kept.len() == 0 {
        lemma_loaded_alone(s, snap, id);
    } else {
        lemma_loaded_and_replayed(s, snap, id);
    }
}

/// Somewhere among events it is told that the book is synchronised.
spec fn tells_ready(events: Seq<EventView>) -> bool {
    exists|i: int|
        0 <= i < events.len() && #[trigger] events[i].system_type == Some("sync_ready"@)
}

proof fn lemma_tells_ready(begun: Seq<EventView>, cycle: u32, id: i64)
    ensures
        tells_ready(begun + ready_events(cycle, id)),
{
    let all = begun + ready_events(cycle, id);
    assert(all[begun.len() as int] == ready_events(cycle, id)[0]);
    assert(all[begun.len() as int].system_type == Some("sync_ready"@));
}

proof fn lemma_loaded_alone(s: SessionView, snap: JsonView, id: i64)
    requires
        s.buffer.len() > 0,
        json::field(snap, "lastUpdateId"@) == json::num(id as int),
        s.buffer[0].first <= id,
        not_included(s.buffer, id).len() == 0,
    ensures
        ({
            let (after, step) = snapshot_step(s, snap);
            let loaded = binance::book_loaded(s.book, snap);
            &&& after == (SessionView { book: loaded, buffer: seq![], synced: true, ..s })
            &&& loaded.update_id == id
            &&& loaded == replayed(loaded, not_included(s.buffer, id))
            &&& tells_ready(step.events)
        }),
{
    lemma_tells_ready(
        loaded_events(binance::book_loaded(s.book, snap), id, 0),
        s.sync_cycle,
        id,
    );
}

proof fn lemma_loaded_and_replayed(s: SessionView, snap: JsonView, id: i64)
    requires
        s.buffer.len() > 0,
        json::field(snap, "lastUpdateId"@) == json::num(id as int),
        s.buffer[0].first <= id,
        not_included(s.buffer, id).len() > 0,
        spans(not_included(s.buffer, id)[0], id),
        chain(id, not_included(s.buffer, id)).gap is None,
        chain(id, not_included(s.buffer, id)).applied == not_included(s.buffer, id),
    ensures
        ({
            let (after, step) = snapshot_step(s, snap);
            let kept = not_included(s.buffer, id);
            let book = replayed(binance::book_loaded(s.book, snap), kept);
            &&& after == (SessionView { book, buffer: seq![], synced: true, ..s })
            &&& book.update_id == reached(id, kept)
            &&& tells_ready(step.events)
        }),
{
    let kept = not_included(s.buffer, id);
    let loaded = binance::book_loaded(s.book, snap);
    replays_set_every_level(loaded, kept, 0);
    lemma_tells_ready(
        loaded_events(loaded, id, kept.len() as int) + replay_events(loaded, kept),
        s.sync_cycle,
        replayed(loaded, kept).update_id,
    );
}

/// A change that is recorded reads as it was.
pub proof fn recorded_changes_read_as_they_were(d: DepthView)
    ensures
        ({
            let j = depth_json(d);
            binance::depth_of(
                seq![
                    json::field(j, "U"@),
                    json::field(j, "u"@),
                    json::field(j, "b"@),
                    json::field(j, "a"@),
                ],
            ) == Some(d)
        }),
{
    reveal_strlit("U");
    reveal_strlit("u");
    reveal_strlit("b");
    reveal_strlit("a");
    assert("U"@[0] == 'U' && "u"@[0] == 'u' && "b"@[0] == 'b' && "a"@[0] == 'a');
    let fields = depth_json(d)->Object_0;
    json::first_fields_are_found(fields, 0);
    json::first_fields_are_found(fields, 1);
    json::first_fields_are_found(fields, 2);
    json::first_fields_are_found(fields, 3);
    binance::pairs_are_read_in_order(pairs_json(d.b), d.b);
    binance::pairs_are_read_in_order(pairs_json(d.a), d.a);
}

/// A connection that failed is told with its error, and another one is announced with its delay
/// unless the collector stops; one that ended is told only where it does not stop.
pub proof fn connections_are_told(error: Text, backoff: u64)
    ensures
        ({
            let going = failed_events(error, false, backoff);
            let stopping = failed_events(error, true, backoff);
            let closed = closed_events(false, backoff);
            &&& stopping.len() == 1 && going.len() == 2 && going[0] == stopping[0]
            &&& going[0].event_type == "error"@ && going[0].raw == error_json(
                error,
                "WsConnectionError"@,
            )
            &&& going[1].system_type == Some("ws_reconnecting"@)
            &&& going[1].normalized == RawView::Value(
                JsonView::Object(seq![("backoff"@, config::delay_json(backoff))]),
            )
            &&& closed_events(true, backoff).len() == 0
            &&& closed.len() == 2 && closed[0].system_type == Some("ws_disconnected"@) && closed[1]
                == going[1]
        }),
{
}

/// The outcome of a fetch is recorded: a snapshot with its update and how many levels each side
/// has, a failure with what came back.
pub proof fn fetches_are_recorded(
    snap: JsonView,
    bids: Seq<JsonView>,
    asks: Seq<JsonView>,
    reason: Text,
    attempt: u32,
    words: Text,
)
    requires
        json::field(snap, "bids"@) == JsonView::Array(bids),
        json::field(snap, "asks"@) == JsonView::Array(asks),
    ensures
        ({
            let e = fetch_event(OutcomeView::Loaded(snap), reason, attempt);
            let j = e.normalized->Value_0;
            &&& e.event_type == "snapshot_raw"@ && e.raw == RawView::Raw(json::json_text(snap))
            &&& json::field(j, "bid_levels"@) == json::num(bids.len() as int)
            &&& json::field(j, "ask_levels"@) == json::num(asks.len() as int)
            &&& json::field(j, "lastUpdateId"@) == json::field(snap, "lastUpdateId"@)
            &&& json::field(j, "attempt"@) == json::num(attempt as int)
            &&& json::field(j, "reason"@) == JsonView::Str(reason)
        }),
        fetch_event(OutcomeView::BadJson(words), reason, attempt).raw == error_json(
            words,
            "JsonParseError"@,
        ),
        fetch_event(OutcomeView::Failed(words), reason, attempt).raw == error_json(
            words,
            "RequestError"@,
        ),
        fetch_event(OutcomeView::BadJson(words), reason, attempt).event_type == "error"@,
        fetch_event(OutcomeView::Failed(words), reason, attempt).event_type == "error"@,
{
    reveal_strlit("ask_levels");
    reveal_strlit("attempt");
    reveal_strlit("bid_levels");
    reveal_strlit("lastUpdateId");
    reveal_strlit("reason");
    assert("ask_levels"@[0] == 'a' && "bid_levels"@[0] == 'b' && "attempt"@.len() == 7
        && "lastUpdateId"@.len() == 12 && "reason"@.len() == 6 && "ask_levels"@.len() == 10
        && "bid_levels"@.len() == 10);
    let fields = fetch_event(OutcomeView::Loaded(snap), reason, attempt).normalized->Value_0->Object_0;
    json::first_fields_are_found(fields, 0);
    json::first_fields_are_found(fields, 1);
    json::first_fields_are_found(fields, 2);
    json::first_fields_are_found(fields, 3);
    json::first_fields_are_found(fields, 4);
}

/// Changes that are replayed are recorded one after another, each with its own updates and the book
/// after it. A snapshot that was loaded is recorded with its update and its book.
pub proof fn replays_are_recorded_in_order(
    book: BookView,
    changes: Seq<DepthView>,
    d: DepthView,
    id: i64,
    remaining: int,
)
    ensures
        ({
            let after = binance::book_after(replayed(book, changes), d);
            let events = replay_events(book, changes.push(d));
            let n = replay_events(book, changes).len() as int;
            &&& events.len() == n + 2 && events.take(n) == replay_events(book, changes)
            &&& events[n].event_type == "depth_applied"@ && events[n].raw == RawView::Raw(
                json::json_text(depth_json(d)),
            ) && events[n].normalized == RawView::Value(applied_json(d, d.last))
            &&& events[n + 1].event_type == "book_state"@ && events[n + 1].normalized
                == binance::state_raw(after, d.first, d.last)
        }),
        replay_events(book, Seq::empty()) == Seq::<EventView>::empty(),
        loaded_events(book, id, remaining).len() == 2,
        loaded_events(book, id, remaining)[1].event_type == "book_state"@,
        loaded_events(book, id, remaining)[1].normalized == binance::state_raw(book, 0, id),
{
    let all = changes.push(d);
    assert(all.drop_last() =~= changes);
    assert(all.last() == d);
    let events = replay_events(book, all);
    let n = replay_events(book, changes).len() as int;
    assert(events.take(n) =~= replay_events(book, changes));
}

} // verus!
