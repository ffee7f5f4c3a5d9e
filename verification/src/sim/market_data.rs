//! Recorded markets: the events in their files, and the state that these lead to.

use vstd::prelude::*;
use vstd::string::*;

use crate::config::{MARKET_DURATION, TAIL_SECONDS};
use crate::float;
use crate::float::{at_most, less, positive, same};
use crate::json;
use crate::json::{Json, JsonNumber, JsonView, NumberView};
use crate::number;
use crate::number::parse_i64;
use crate::poly_gamma;
use crate::poly_gamma::{collect_texts, read_list};
use crate::text::{same_text, Text};

verus! {

/// One of the two tokens of a market.
#[derive(Clone, Copy, Debug, PartialEq, Eq, Structural)]
pub enum TokenSide {
    Up,
    Down,
}

/// Who began a trade.
#[derive(Clone, Copy, Debug, PartialEq, Eq, Structural)]
pub enum TradeSide {
    Buy,
    Sell,
}

/// A price and what is offered at it.
#[derive(Clone, Copy, Debug, PartialEq, Eq, Structural)]
pub struct PriceLevel {
    pub price: u64,
    pub size: u64,
}

/// The fair value at a time.
#[derive(Clone, Copy, Debug, PartialEq, Eq, Structural)]
pub struct FairSample {
    pub fair_yes: u64,
    pub fair_no: u64,
    pub lstm_fair_yes: Option<u64>,
    pub lstm_fair_no: Option<u64>,
    pub tau: u64,
    pub z_score: u64,
    pub trade_imbalance: u64,
    pub book_imbalance: u64,
    pub sigma_returns: u64,
}

/// Something that happened in a recorded market.
pub enum SimEvent {
    PolyBookState {
        ts_ms: i64,
        token: TokenSide,
        bids: Vec<PriceLevel>,
        asks: Vec<PriceLevel>,
        best_bid: u64,
        best_ask: u64,
    },
    PolyTrade { ts_ms: i64, token: TokenSide, price: u64, side: TradeSide, size: u64 },
    BtcTicker { ts_ms: i64, bid: u64, ask: u64, mid: u64 },
    BtcTrade { ts_ms: i64, price: u64, qty: u64, is_buy: bool },
    BtcDepth { ts_ms: i64, bids: Vec<PriceLevel>, asks: Vec<PriceLevel> },
    FairValue { ts_ms: i64, sample: FairSample },
}

/// What an event holds.
pub enum SimEventView {
    PolyBookState {
        ts_ms: i64,
        token: TokenSide,
        bids: Seq<PriceLevel>,
        asks: Seq<PriceLevel>,
        best_bid: u64,
        best_ask: u64,
    },
    PolyTrade { ts_ms: i64, token: TokenSide, price: u64, side: TradeSide, size: u64 },
    BtcTicker { ts_ms: i64, bid: u64, ask: u64, mid: u64 },
    BtcTrade { ts_ms: i64, price: u64, qty: u64, is_buy: bool },
    BtcDepth { ts_ms: i64, bids: Seq<PriceLevel>, asks: Seq<PriceLevel> },
    FairValue { ts_ms: i64, sample: FairSample },
}

impl View for SimEvent {
    type V = SimEventView;

    open spec fn view(&self) -> SimEventView {
        match self {
            SimEvent::PolyBookState { ts_ms, token, bids, asks, best_bid, best_ask } => SimEventView::PolyBookState {
                ts_ms: *ts_ms,
                token: *token,
                bids: bids@,
                asks: asks@,
                best_bid: *best_bid,
                best_ask: *best_ask,
            },
            SimEvent::PolyTrade { ts_ms, token, price, side, size } => SimEventView::PolyTrade {
                ts_ms: *ts_ms,
                token: *token,
                price: *price,
                side: *side,
                size: *size,
            },
            SimEvent::BtcTicker { ts_ms, bid, ask, mid } => SimEventView::BtcTicker {
                ts_ms: *ts_ms,
                bid: *bid,
                ask: *ask,
                mid: *mid,
            },
            SimEvent::BtcTrade { ts_ms, price, qty, is_buy } => SimEventView::BtcTrade {
                ts_ms: *ts_ms,
                price: *price,
                qty: *qty,
                is_buy: *is_buy,
            },
            SimEvent::BtcDepth { ts_ms, bids, asks } => SimEventView::BtcDepth {
                ts_ms: *ts_ms,
                bids: bids@,
                asks: asks@,
            },
            SimEvent::FairValue { ts_ms, sample } => SimEventView::FairValue {
                ts_ms: *ts_ms,
                sample: *sample,
            },
        }
    }
}

/// When an event happened.
pub open spec fn time_of(e: SimEventView) -> i64 {
    match e {
        SimEventView::PolyBookState { ts_ms, .. } => ts_ms,
        SimEventView::PolyTrade { ts_ms, .. } => ts_ms,
        SimEventView::BtcTicker { ts_ms, .. } => ts_ms,
        SimEventView::BtcTrade { ts_ms, .. } => ts_ms,
        SimEventView::BtcDepth { ts_ms, .. } => ts_ms,
        SimEventView::FairValue { ts_ms, .. } => ts_ms,
    }
}

/// A copy of the levels of a side.
pub fn copy_levels(levels: &Vec<PriceLevel>) -> (r: Vec<PriceLevel>)
    ensures
        r@ == levels@,
{
    let mut r: Vec<PriceLevel> = Vec::new();
    let mut i: usize = 0;
    while i < levels.len()
        invariant
            i <= levels@.len(),
            r@ == levels@.take(i as int),
        decreases levels@.len() - i,
    {
        r.push(levels[i]);
        i = i + 1;
        assert(r@ =~= levels@.take(i as int));
    }
    assert(levels@.take(levels@.len() as int) =~= levels@);
    r
}

impl SimEvent {
    /// When this event happened.
    pub fn ts_ms(&self) -> (t: i64)
        ensures
            t == time_of(self@),
    {
        match self {
            SimEvent::PolyBookState { ts_ms, .. } => *ts_ms,
            SimEvent::PolyTrade { ts_ms, .. } => *ts_ms,
            SimEvent::BtcTicker { ts_ms, .. } => *ts_ms,
            SimEvent::BtcTrade { ts_ms, .. } => *ts_ms,
            SimEvent::BtcDepth { ts_ms, .. } => *ts_ms,
            SimEvent::FairValue { ts_ms, .. } => *ts_ms,
        }
    }
}

// The state of a market

/// The book of a token.
pub struct BookSnapshot {
    pub bids: Vec<PriceLevel>,
    pub asks: Vec<PriceLevel>,
    pub best_bid: u64,
    pub best_ask: u64,
}

/// What the book of a token holds.
pub struct SnapshotView {
    pub bids: Seq<PriceLevel>,
    pub asks: Seq<PriceLevel>,
    pub best_bid: u64,
    pub best_ask: u64,
}

impl View for BookSnapshot {
    type V = SnapshotView;

    open spec fn view(&self) -> SnapshotView {
        SnapshotView {
            bids: self.bids@,
            asks: self.asks@,
            best_bid: self.best_bid,
            best_ask: self.best_ask,
        }
    }
}

/// What an optional book holds.
pub open spec fn opt_snapshot(b: Option<BookSnapshot>) -> Option<SnapshotView> {
    match b {
        Some(b) => Some(b@),
        None => None,
    }
}

/// The time that is left: in milliseconds by the clock, or in seconds as a sample of the fair
/// value gives it.
#[derive(Clone, Copy, Debug, PartialEq, Eq, Structural)]
pub enum Tau {
    Left(u64),
    Given(u64),
}

/// The milliseconds that are left until a time, or none.
pub open spec fn left_until(end_ms: int, now_ms: int) -> int {
    if end_ms > now_ms { end_ms - now_ms } else { 0 }
}

/// A number of seconds: in milliseconds, and as a floating-point number.
#[derive(Clone, Copy, Debug, PartialEq, Eq, Structural)]
pub struct Span {
    pub ms: u64,
    pub secs: u64,
}

/// Five seconds.
pub open spec fn five_secs() -> Span {
    Span { ms: 5000, secs: 0x4014_0000_0000_0000 }
}

/// Ten seconds.
pub open spec fn ten_secs() -> Span {
    Span { ms: 10_000, secs: 0x4024_0000_0000_0000 }
}

/// Fifteen seconds.
pub open spec fn fifteen_secs() -> Span {
    Span { ms: 15_000, secs: 0x402E_0000_0000_0000 }
}

/// Less time is left than a number of seconds.
pub open spec fn is_below(t: Tau, s: Span) -> bool {
    match t {
        Tau::Left(ms) => ms < s.ms,
        Tau::Given(secs) => float::lt(secs, s.secs),
    }
}

impl Tau {
    /// Whether less time is left than a number of seconds.
    pub fn below(&self, s: Span) -> (b: bool)
        ensures
            b == is_below(*self, s),
    {
        match self {
            Tau::Left(ms) => *ms < s.ms,
            Tau::Given(secs) => less(*secs, s.secs),
        }
    }
}

/// What is known of a market at a time.
pub struct MarketState {
    pub ts_ms: i64,
    pub tau: Tau,
    pub up_book: Option<BookSnapshot>,
    pub down_book: Option<BookSnapshot>,
    pub btc_mid: u64,
    pub btc_bid: u64,
    pub btc_ask: u64,
    pub btc_depth_bids: Vec<PriceLevel>,
    pub btc_depth_asks: Vec<PriceLevel>,
    pub fair: Option<FairSample>,
    pub last_trade_up: Option<(u64, TradeSide, i64)>,
    pub last_trade_down: Option<(u64, TradeSide, i64)>,
}

/// What the state of a market holds.
pub struct StateView {
    pub ts_ms: i64,
    pub tau: Tau,
    pub up_book: Option<SnapshotView>,
    pub down_book: Option<SnapshotView>,
    pub btc_mid: u64,
    pub btc_bid: u64,
    pub btc_ask: u64,
    pub btc_depth_bids: Seq<PriceLevel>,
    pub btc_depth_asks: Seq<PriceLevel>,
    pub fair: Option<FairSample>,
    pub last_trade_up: Option<(u64, TradeSide, i64)>,
    pub last_trade_down: Option<(u64, TradeSide, i64)>,
}

impl View for MarketState {
    type V = StateView;

    open spec fn view(&self) -> StateView {
        StateView {
            ts_ms: self.ts_ms,
            tau: self.tau,
            up_book: opt_snapshot(self.up_book),
            down_book: opt_snapshot(self.down_book),
            btc_mid: self.btc_mid,
            btc_bid: self.btc_bid,
            btc_ask: self.btc_ask,
            btc_depth_bids: self.btc_depth_bids@,
            btc_depth_asks: self.btc_depth_asks@,
            fair: self.fair,
            last_trade_up: self.last_trade_up,
            last_trade_down: self.last_trade_down,
        }
    }
}

/// Nothing is known, and the whole market is left.
pub open spec fn nothing_known() -> StateView {
    StateView {
        ts_ms: 0,
        tau: Tau::Left(300_000),
        up_book: None,
        down_book: None,
        btc_mid: 0,
        btc_bid: 0,
        btc_ask: 0,
        btc_depth_bids: seq![],
        btc_depth_asks: seq![],
        fair: None,
        last_trade_up: None,
        last_trade_down: None,
    }
}

/// The state of a market after an event: the time moves on, and what the event speaks of is
/// replaced.
pub open spec fn state_after(s: StateView, e: SimEventView, end_ms: i64) -> StateView {
    let t = StateView {
        ts_ms: time_of(e),
        tau: Tau::Left(left_until(end_ms as int, time_of(e) as int) as u64),
        ..s
    };
    match e {
        SimEventView::PolyBookState { token, bids, asks, best_bid, best_ask, .. } => {
            let book = Some(SnapshotView { bids, asks, best_bid, best_ask });
            match token {
                TokenSide::Up => StateView { up_book: book, ..t },
                TokenSide::Down => StateView { down_book: book, ..t },
            }
        },
        SimEventView::PolyTrade { token, price, side, ts_ms, .. } => match token {
            TokenSide::Up => StateView { last_trade_up: Some((price, side, ts_ms)), ..t },
            TokenSide::Down => StateView { last_trade_down: Some((price, side, ts_ms)), ..t },
        },
        SimEventView::BtcTicker { bid, ask, mid, .. } => StateView {
            btc_mid: mid,
            btc_bid: bid,
            btc_ask: ask,
            ..t
        },
        SimEventView::BtcTrade { .. } => t,
        SimEventView::BtcDepth { bids, asks, .. } => StateView {
            btc_depth_bids: bids,
            btc_depth_asks: asks,
            ..t
        },
        SimEventView::FairValue { sample, .. } => StateView {
            fair: Some(sample),
            tau: Tau::Given(sample.tau),
            ..t
        },
    }
}

/// A price that is positive.
pub open spec fn known_price(p: Option<u64>) -> Option<u64> {
    match p {
        Some(p) => if float::pos(p) { Some(p) } else { None },
        None => None,
    }
}

/// The best bid of a token.
pub open spec fn best_bid_of(s: StateView, t: TokenSide) -> Option<u64> {
    let book = match t {
        TokenSide::Up => s.up_book,
        TokenSide::Down => s.down_book,
    };
    match book {
        Some(b) => known_price(Some(b.best_bid)),
        None => None,
    }
}

/// The best ask of a token.
pub open spec fn best_ask_of(s: StateView, t: TokenSide) -> Option<u64> {
    let book = match t {
        TokenSide::Up => s.up_book,
        TokenSide::Down => s.down_book,
    };
    match book {
        Some(b) => known_price(Some(b.best_ask)),
        None => None,
    }
}

impl MarketState {
    /// Nothing is known yet.
    pub fn new() -> (s: MarketState)
        ensures
            s@ == nothing_known(),
    {
        let s: MarketState = MarketState {
            ts_ms: 0,
            tau: Tau::Left(300_000),
            up_book: None,
            down_book: None,
            btc_mid: 0,
            btc_bid: 0,
            btc_ask: 0,
            btc_depth_bids: Vec::new(),
            btc_depth_asks: Vec::new(),
            fair: None,
            last_trade_up: None,
            last_trade_down: None,
        };
        assert(s@.btc_depth_bids =~= seq![]);
        assert(s@.btc_depth_asks =~= seq![]);
        s
    }

    /// Takes in an event of a market that ends at a time.
    pub fn update(&mut self, event: &SimEvent, market_end_ms: i64)
        ensures
            final(self)@ == state_after(old(self)@, event@, market_end_ms),
    {
        let now: i64 = event.ts_ms();
        self.ts_ms = now;
        let left: u64 = if market_end_ms > now {
            (market_end_ms as i128 - now as i128) as u64
        } else {
            0
        };
        self.tau = Tau::Left(left);
        match event {
            SimEvent::PolyBookState { token, bids, asks, best_bid, best_ask, .. } => {
                let book: BookSnapshot = BookSnapshot {
                    bids: copy_levels(bids),
                    asks: copy_levels(asks),
                    best_bid: *best_bid,
                    best_ask: *best_ask,
                };
                match token {
                    TokenSide::Up => {
                        self.up_book = Some(book);
                    },
                    TokenSide::Down => {
                        self.down_book = Some(book);
                    },
                }
            },
            SimEvent::PolyTrade { token, price, side, ts_ms, .. } => match token {
                TokenSide::Up => {
                    self.last_trade_up = Some((*price, *side, *ts_ms));
                },
                TokenSide::Down => {
                    self.last_trade_down = Some((*price, *side, *ts_ms));
                },
            },
            SimEvent::BtcTicker { bid, ask, mid, .. } => {
                self.btc_mid = *mid;
                self.btc_bid = *bid;
                self.btc_ask = *ask;
            },
            SimEvent::BtcTrade { .. } => {},
            SimEvent::BtcDepth { bids, asks, .. } => {
                self.btc_depth_bids = copy_levels(bids);
                self.btc_depth_asks = copy_levels(asks);
            },
            SimEvent::FairValue { sample, .. } => {
                self.fair = Some(*sample);
                self.tau = Tau::Given(sample.tau);
            },
        }
    }

    /// The best bid of a token, where there is one.
    pub fn best_bid(&self, token: TokenSide) -> (p: Option<u64>)
        ensures
            p == best_bid_of(self@, token),
    {
        let book: &Option<BookSnapshot> = match token {
            TokenSide::Up => &self.up_book,
            TokenSide::Down => &self.down_book,
        };
        match book {
            Some(b) => if positive(b.best_bid) { Some(b.best_bid) } else { None },
            None => None,
        }
    }

    /// The best ask of a token, where there is one.
    pub fn best_ask(&self, token: TokenSide) -> (p: Option<u64>)
        ensures
            p == best_ask_of(self@, token),
    {
        let book: &Option<BookSnapshot> = match token {
            TokenSide::Up => &self.up_book,
            TokenSide::Down => &self.down_book,
        };
        match book {
            Some(b) => if positive(b.best_ask) { Some(b.best_ask) } else { None },
            None => None,
        }
    }

    /// The best bid of the first token.
    pub fn up_best_bid(&self) -> (p: Option<u64>)
        ensures
            p == best_bid_of(self@, TokenSide::Up),
    {
        self.best_bid(TokenSide::Up)
    }

    /// The best ask of the first token.
    pub fn up_best_ask(&self) -> (p: Option<u64>)
        ensures
            p == best_ask_of(self@, TokenSide::Up),
    {
        self.best_ask(TokenSide::Up)
    }

    /// The best bid of the second token.
    pub fn down_best_bid(&self) -> (p: Option<u64>)
        ensures
            p == best_bid_of(self@, TokenSide::Down),
    {
        self.best_bid(TokenSide::Down)
    }

    /// The best ask of the second token.
    pub fn down_best_ask(&self) -> (p: Option<u64>)
        ensures
            p == best_ask_of(self@, TokenSide::Down),
    {
        self.best_ask(TokenSide::Down)
    }
}

/// A book or a trade of one token leaves what is known of the other as it was.
pub proof fn tokens_are_kept_apart(s: StateView, e: SimEventView, end_ms: i64)
    ensures
        e matches SimEventView::PolyBookState { token, .. } ==> match token {
            TokenSide::Up => state_after(s, e, end_ms).down_book == s.down_book,
            TokenSide::Down => state_after(s, e, end_ms).up_book == s.up_book,
        },
        e matches SimEventView::PolyTrade { token, .. } ==> match token {
            TokenSide::Up => state_after(s, e, end_ms).last_trade_down == s.last_trade_down,
            TokenSide::Down => state_after(s, e, end_ms).last_trade_up == s.last_trade_up,
        },
        !(e is PolyBookState) ==> state_after(s, e, end_ms).up_book == s.up_book && state_after(
            s,
            e,
            end_ms,
        ).down_book == s.down_book,
{
}

// Lines of the files

/// A number in a line: missing, in a text, or as a number.
pub enum NumText {
    Missing,
    Text(String),
    Number(JsonNumber),
}

/// What a number in a line holds.
pub enum NumTextView {
    Missing,
    Text(Text),
    Number(NumberView),
}

impl View for NumText {
    type V = NumTextView;

    open spec fn view(&self) -> NumTextView {
        match self {
            NumText::Missing => NumTextView::Missing,
            NumText::Text(s) => NumTextView::Text(s@),
            NumText::Number(n) => NumTextView::Number(n@),
        }
    }
}

/// The number in a value.
pub open spec fn number_in(j: JsonView) -> NumTextView {
    match j {
        JsonView::Str(s) => NumTextView::Text(s),
        JsonView::Number(n) => NumTextView::Number(n),
        _ => NumTextView::Missing,
    }
}

/// A copy of a number.
pub fn copy_number(n: &JsonNumber) -> (r: JsonNumber)
    ensures
        r@ == n@,
{
    match n {
        JsonNumber::PosInt(n) => JsonNumber::PosInt(*n),
        JsonNumber::NegInt(n) => JsonNumber::NegInt(*n),
        JsonNumber::Float { bits, text } => JsonNumber::Float { bits: *bits, text: text.clone() },
    }
}

/// The number in a field of a value.
pub fn number_at(j: &Json, key: &str) -> (n: NumText)
    ensures
        n@ == number_in(json::field(j@, key@)),
{
    match j.get(key) {
        Some(Json::Str(s)) => NumText::Text(s.clone()),
        Some(Json::Number(n)) => NumText::Number(copy_number(n)),
        _ => NumText::Missing,
    }
}

/// The text in a field of a value, or no text.
pub open spec fn text_in(j: JsonView, key: Text) -> Text {
    match json::str_of(json::field(j, key)) {
        Some(s) => s,
        None => seq![],
    }
}

/// The whole number in a field of a value, or zero.
pub open spec fn whole_in(j: JsonView, key: Text) -> i64 {
    match json::i64_of(json::field(j, key)) {
        Some(n) => n,
        None => 0,
    }
}

fn text_at(j: &Json, key: &str) -> (s: String)
    ensures
        s@ == text_in(j@, key@),
{
    match j.str_field(key) {
        Some(s) => s.to_owned(),
        None => {
            let s: String = String::new();
            assert(s@ =~= seq![]);
            s
        },
    }
}

fn whole_at(j: &Json, key: &str) -> (n: i64)
    ensures
        n == whole_in(j@, key@),
{
    match j.i64_field(key) {
        Some(n) => n,
        None => 0,
    }
}

/// A level in a line: the texts of its price and its size.
pub type LevelText = (String, String);

/// What levels in a line hold.
pub open spec fn level_texts(levels: Seq<LevelText>) -> Seq<(Text, Text)> {
    levels.map_values(|l: LevelText| (l.0@, l.1@))
}

/// The texts of a level: a list whose first two entries are texts.
pub open spec fn level_of(j: JsonView) -> Option<(Text, Text)> {
    match j {
        JsonView::Array(a) => if a.len() >= 2 {
            match (json::str_of(a[0]), json::str_of(a[1])) {
                (Some(p), Some(s)) => Some((p, s)),
                _ => None,
            }
        } else {
            None
        },
        _ => None,
    }
}

/// The levels among some values; what is no level is passed over.
pub open spec fn levels_among(items: Seq<JsonView>) -> Seq<(Text, Text)>
    decreases items.len(),
{
    if items.len() == 0 {
        seq![]
    } else {
        match level_of(items.last()) {
            Some(l) => levels_among(items.drop_last()).push(l),
            None => levels_among(items.drop_last()),
        }
    }
}

/// The levels in a list, of which at most the first `max` entries count.
pub open spec fn levels_in(j: JsonView, max: int) -> Seq<(Text, Text)> {
    match j {
        JsonView::Array(items) => levels_among(
            items.take(if items.len() < max { items.len() as int } else { max }),
        ),
        _ => seq![],
    }
}

fn read_level(j: &Json) -> (l: Option<LevelText>)
    ensures
        match (l, level_of(j@)) {
            (Some(l), Some(v)) => (l.0@, l.1@) == v,
            (None, None) => true,
            _ => false,
        },
{
    match j {
        Json::Array(a) => {
            assert(json::items_view(a@).len() == a@.len());
            if a.len() < 2 {
                return None;
            }
            assert(json::items_view(a@)[0] == a@[0]@);
            assert(json::items_view(a@)[1] == a@[1]@);
            match (a[0].as_str(), a[1].as_str()) {
                (Some(p), Some(s)) => Some((p.to_owned(), s.to_owned())),
                _ => None,
            }
        },
        _ => None,
    }
}

/// The levels in a field of a value.
pub fn levels_at(j: &Json, key: &str, max: usize) -> (levels: Vec<LevelText>)
    ensures
        level_texts(levels@) == levels_in(json::field(j@, key@), max as int),
{
    let mut levels: Vec<LevelText> = Vec::new();
    assert(level_texts(levels@) =~= seq![]);
    match j.get(key) {
        Some(Json::Array(items)) => {
            let ghost all = json::items_view(items@);
            assert(all.len() == items@.len());
            let end: usize = if items.len() < max { items.len() } else { max };
            let mut i: usize = 0;
            assert(all.take(0) =~= seq![]);
            while i < end
                invariant
                    i <= end <= items@.len(),
                    all == json::items_view(items@),
                    all.len() == items@.len(),
                    level_texts(levels@) == levels_among(all.take(i as int)),
                decreases end - i,
            {
                proof {
                    assert(all.take(i + 1).drop_last() =~= all.take(i as int));
                    assert(all.take(i + 1).last() == items@[i as int]@);
                }
                let ghost before = levels@;
                match read_level(&items[i]) {
                    Some(l) => {
                        levels.push(l);
                        assert(level_texts(levels@) =~= level_texts(before).push((l.0@, l.1@)));
                    },
                    None => {},
                }
                i = i + 1;
            }
        },
        _ => {},
    }
    levels
}

/// The tokens of a market, by their names.
pub struct TokenIds {
    pub up: String,
    pub down: String,
}

/// What the tokens of a market are called.
pub struct IdsView {
    pub up: Text,
    pub down: Text,
}

impl View for TokenIds {
    type V = IdsView;

    open spec fn view(&self) -> IdsView {
        IdsView { up: self.up@, down: self.down@ }
    }
}

/// The token that a name stands for.
pub open spec fn token_named(name: Text, ids: IdsView) -> Option<TokenSide> {
    if name == ids.up {
        Some(TokenSide::Up)
    } else if name == ids.down {
        Some(TokenSide::Down)
    } else {
        None
    }
}

fn find_token(name: &str, ids: &TokenIds) -> (t: Option<TokenSide>)
    ensures
        t == token_named(name@, ids@),
{
    if same_text(name, ids.up.as_str()) {
        Some(TokenSide::Up)
    } else if same_text(name, ids.down.as_str()) {
        Some(TokenSide::Down)
    } else {
        None
    }
}

/// The names of tokens in a value: a list of texts, or a text that writes one.
pub open spec fn names_in(j: JsonView) -> Seq<Text> {
    match j {
        JsonView::Str(s) => match poly_gamma::listed_texts(s) {
            Some(l) => l,
            None => seq![],
        },
        JsonView::Array(items) => poly_gamma::texts_among(items),
        _ => seq![],
    }
}

fn names_at(j: &Json) -> (v: Vec<String>)
    ensures
        json::strings(v@) == names_in(j@),
{
    let none: Vec<String> = Vec::new();
    assert(json::strings(none@) =~= seq![]);
    match j {
        Json::Str(s) => match read_list(s.as_str()) {
            Some(l) => l,
            None => none,
        },
        Json::Array(items) => {
            assert(json::items_view(items@).len() == items@.len());
            collect_texts(items)
        },
        _ => none,
    }
}

/// What a lookup of a market recorded: as it came, or else as it was read.
pub open spec fn lookup_of(v: JsonView) -> JsonView {
    match json::get(v, "raw"@) {
        Some(j) => j,
        None => json::field(v, "normalized"@),
    }
}

/// The names of the tokens after a lookup of the market; they stay where it names less than
/// two.
pub open spec fn ids_after(v: JsonView, ids: IdsView) -> IdsView {
    let names = names_in(json::field(lookup_of(v), "clobTokenIds"@));
    if names.len() >= 2 {
        IdsView { up: names[0], down: names[1] }
    } else {
        ids
    }
}

/// A line of the file of the market.
pub enum ClobLine {
    Nothing,
    Book {
        ts_ms: i64,
        token: TokenSide,
        best_bid: NumText,
        best_ask: NumText,
        bids: Vec<LevelText>,
        asks: Vec<LevelText>,
    },
    Trade { ts_ms: i64, token: TokenSide, price: NumText, size: NumText, side: TradeSide },
}

/// What a line of the file of the market holds.
pub enum ClobLineView {
    Nothing,
    Book {
        ts_ms: i64,
        token: TokenSide,
        best_bid: NumTextView,
        best_ask: NumTextView,
        bids: Seq<(Text, Text)>,
        asks: Seq<(Text, Text)>,
    },
    Trade { ts_ms: i64, token: TokenSide, price: NumTextView, size: NumTextView, side: TradeSide },
}

impl View for ClobLine {
    type V = ClobLineView;

    open spec fn view(&self) -> ClobLineView {
        match self {
            ClobLine::Nothing => ClobLineView::Nothing,
            ClobLine::Book { ts_ms, token, best_bid, best_ask, bids, asks } => ClobLineView::Book {
                ts_ms: *ts_ms,
                token: *token,
                best_bid: best_bid@,
                best_ask: best_ask@,
                bids: level_texts(bids@),
                asks: level_texts(asks@),
            },
            ClobLine::Trade { ts_ms, token, price, size, side } => ClobLineView::Trade {
                ts_ms: *ts_ms,
                token: *token,
                price: price@,
                size: size@,
                side: *side,
            },
        }
    }
}

/// The side that a text names: a purchase, or else a sale.
pub open spec fn side_named(s: Text) -> TradeSide {
    if s == "BUY"@ { TradeSide::Buy } else { TradeSide::Sell }
}

/// What a line of the file of the market tells, and the names of the tokens after it.
pub open spec fn clob_line(v: JsonView, ids: IdsView) -> (IdsView, ClobLineView) {
    let kind = text_in(v, "event_type"@);
    let ts_ms = whole_in(v, "ts_recv_ms"@);
    if kind == "market_lookup"@ {
        (ids_after(v, ids), ClobLineView::Nothing)
    } else if kind == "book_state"@ {
        let n = json::field(v, "normalized"@);
        match token_named(text_in(n, "asset_id"@), ids) {
            Some(token) => (
                ids,
                ClobLineView::Book {
                    ts_ms,
                    token,
                    best_bid: number_in(json::field(n, "best_bid"@)),
                    best_ask: number_in(json::field(n, "best_ask"@)),
                    bids: levels_in(json::field(n, "bids"@), 50),
                    asks: levels_in(json::field(n, "asks"@), 50),
                },
            ),
            None => (ids, ClobLineView::Nothing),
        }
    } else if kind == "last_trade_price_raw"@ {
        let raw = json::field(v, "raw"@);
        match token_named(text_in(raw, "asset_id"@), ids) {
            Some(token) => (
                ids,
                ClobLineView::Trade {
                    ts_ms,
                    token,
                    price: number_in(json::field(raw, "price"@)),
                    size: number_in(json::field(raw, "size"@)),
                    side: side_named(text_in(raw, "side"@)),
                },
            ),
            None => (ids, ClobLineView::Nothing),
        }
    } else {
        (ids, ClobLineView::Nothing)
    }
}

fn field_or<'a>(j: &'a Json, key: &str, none: &'a Json) -> (r: &'a Json)
    requires
        none@ == JsonView::Null,
    ensures
        r@ == json::field(j@, key@),
{
    match j.get(key) {
        Some(f) => f,
        None => none,
    }
}

fn take_ids(v: &Json, ids: &mut TokenIds)
    ensures
        final(ids)@ == ids_after(v@, old(ids)@),
{
    let none: Json = Json::Null;
    let found: &Json = match v.get("raw") {
        Some(j) => j,
        None => field_or(v, "normalized", &none),
    };
    let names: Vec<String> = names_at(field_or(found, "clobTokenIds", &none));
    let ghost listed = json::strings(names@);
    assert(listed.len() == names@.len());
    if names.len() >= 2 {
        assert(listed[0] == names@[0]@ && listed[1] == names@[1]@);
        ids.up = names[0].clone();
        ids.down = names[1].clone();
    }
}

/// Reads a line of the file of the market.
pub fn read_clob_line(v: &Json, ids: &mut TokenIds) -> (line: ClobLine)
    ensures
        (final(ids)@, line@) == clob_line(v@, old(ids)@),
{
    let none: Json = Json::Null;
    let kind: String = text_at(v, "event_type");
    let ts_ms: i64 = whole_at(v, "ts_recv_ms");
    if same_text(kind.as_str(), "market_lookup") {
        take_ids(v, ids);
        return ClobLine::Nothing;
    }
    if same_text(kind.as_str(), "book_state") {
        let n: &Json = field_or(v, "normalized", &none);
        let name: String = text_at(n, "asset_id");
        return match find_token(name.as_str(), ids) {
            Some(token) => ClobLine::Book {
                ts_ms,
                token,
                best_bid: number_at(n, "best_bid"),
                best_ask: number_at(n, "best_ask"),
                bids: levels_at(n, "bids", 50),
                asks: levels_at(n, "asks", 50),
            },
            None => ClobLine::Nothing,
        };
    }
    if same_text(kind.as_str(), "last_trade_price_raw") {
        let raw: &Json = field_or(v, "raw", &none);
        let name: String = text_at(raw, "asset_id");
        return match find_token(name.as_str(), ids) {
            Some(token) => {
                let side: String = text_at(raw, "side");
                ClobLine::Trade {
                    ts_ms,
                    token,
                    price: number_at(raw, "price"),
                    size: number_at(raw, "size"),
                    side: if same_text(side.as_str(), "BUY") {
                        TradeSide::Buy
                    } else {
                        TradeSide::Sell
                    },
                }
            },
            None => ClobLine::Nothing,
        };
    }
    ClobLine::Nothing
}

/// A line of the file of the exchange.
pub enum DepthLine {
    Nothing,
    Ticker { ts_ms: i64, bid: NumText, bid_qty: NumText, ask: NumText, ask_qty: NumText },
    Trade { ts_ms: i64, price: NumText, qty: NumText, is_buy: bool },
    Depth { ts_ms: i64, bids: Vec<LevelText>, asks: Vec<LevelText> },
    Strike { price: NumText },
}

/// What a line of the file of the exchange holds.
pub enum DepthLineView {
    Nothing,
    Ticker {
        ts_ms: i64,
        bid: NumTextView,
        bid_qty: NumTextView,
        ask: NumTextView,
        ask_qty: NumTextView,
    },
    Trade { ts_ms: i64, price: NumTextView, qty: NumTextView, is_buy: bool },
    Depth { ts_ms: i64, bids: Seq<(Text, Text)>, asks: Seq<(Text, Text)> },
    Strike { price: NumTextView },
}

impl View for DepthLine {
    type V = DepthLineView;

    open spec fn view(&self) -> DepthLineView {
        match self {
            DepthLine::Nothing => DepthLineView::Nothing,
            DepthLine::Ticker { ts_ms, bid, bid_qty, ask, ask_qty } => DepthLineView::Ticker {
                ts_ms: *ts_ms,
                bid: bid@,
                bid_qty: bid_qty@,
                ask: ask@,
                ask_qty: ask_qty@,
            },
            DepthLine::Trade { ts_ms, price, qty, is_buy } => DepthLineView::Trade {
                ts_ms: *ts_ms,
                price: price@,
                qty: qty@,
                is_buy: *is_buy,
            },
            DepthLine::Depth { ts_ms, bids, asks } => DepthLineView::Depth {
                ts_ms: *ts_ms,
                bids: level_texts(bids@),
                asks: level_texts(asks@),
            },
            DepthLine::Strike { price } => DepthLineView::Strike { price: price@ },
        }
    }
}

/// What a line of the file of the exchange tells.
pub open spec fn depth_line(v: JsonView) -> DepthLineView {
    let kind = text_in(v, "event_type"@);
    let ts_ms = whole_in(v, "ts_recv_ms"@);
    let n = json::field(v, "normalized"@);
    if kind == "book_ticker_normalized"@ {
        DepthLineView::Ticker {
            ts_ms,
            bid: number_in(json::field(n, "bid_price"@)),
            bid_qty: number_in(json::field(n, "bid_qty"@)),
            ask: number_in(json::field(n, "ask_price"@)),
            ask_qty: number_in(json::field(n, "ask_qty"@)),
        }
    } else if kind == "trade_normalized"@ {
        DepthLineView::Trade {
            ts_ms,
            price: number_in(json::field(n, "price"@)),
            qty: number_in(json::field(n, "qty"@)),
            is_buy: text_in(n, "side"@) == "BUY"@,
        }
    } else if kind == "book_state"@ {
        DepthLineView::Depth {
            ts_ms,
            bids: levels_in(json::field(n, "bids"@), 20),
            asks: levels_in(json::field(n, "asks"@), 20),
        }
    } else if kind == "system"@ && text_in(v, "system_type"@) == "strike_price"@ {
        DepthLineView::Strike { price: number_in(json::field(n, "strike_price"@)) }
    } else {
        DepthLineView::Nothing
    }
}

/// Reads a line of the file of the exchange.
pub fn read_depth_line(v: &Json) -> (line: DepthLine)
    ensures
        line@ == depth_line(v@),
{
    let none: Json = Json::Null;
    let kind: String = text_at(v, "event_type");
    let ts_ms: i64 = whole_at(v, "ts_recv_ms");
    let n: &Json = field_or(v, "normalized", &none);
    if same_text(kind.as_str(), "book_ticker_normalized") {
        return DepthLine::Ticker {
            ts_ms,
            bid: number_at(n, "bid_price"),
            bid_qty: number_at(n, "bid_qty"),
            ask: number_at(n, "ask_price"),
            ask_qty: number_at(n, "ask_qty"),
        };
    }
    if same_text(kind.as_str(), "trade_normalized") {
        let side: String = text_at(n, "side");
        return DepthLine::Trade {
            ts_ms,
            price: number_at(n, "price"),
            qty: number_at(n, "qty"),
            is_buy: same_text(side.as_str(), "BUY"),
        };
    }
    if same_text(kind.as_str(), "book_state") {
        return DepthLine::Depth {
            ts_ms,
            bids: levels_at(n, "bids", 20),
            asks: levels_at(n, "asks", 20),
        };
    }
    if same_text(kind.as_str(), "system") {
        let system_type: String = text_at(v, "system_type");
        if same_text(system_type.as_str(), "strike_price") {
            return DepthLine::Strike { price: number_at(n, "strike_price") };
        }
    }
    DepthLine::Nothing
}

/// A number in a line that is no text.
pub open spec fn plain_number(j: JsonView) -> Option<NumberView> {
    match j {
        JsonView::Number(n) => Some(n),
        _ => None,
    }
}

/// What an optional number holds.
pub open spec fn opt_number(n: Option<JsonNumber>) -> Option<NumberView> {
    match n {
        Some(n) => Some(n@),
        None => None,
    }
}

fn plain_number_at(j: &Json, key: &str) -> (n: Option<JsonNumber>)
    ensures
        opt_number(n) == plain_number(json::field(j@, key@)),
{
    match j.get(key) {
        Some(Json::Number(n)) => Some(copy_number(n)),
        _ => None,
    }
}

/// The numbers of a sample in the file of the fair value.
pub struct FvLine {
    pub ts_ms: i64,
    pub fair_yes: Option<JsonNumber>,
    pub fair_no: Option<JsonNumber>,
    pub lstm_fair_yes: Option<JsonNumber>,
    pub lstm_fair_no: Option<JsonNumber>,
    pub tau: Option<JsonNumber>,
    pub z_score: Option<JsonNumber>,
    pub trade_imbalance: Option<JsonNumber>,
    pub book_imbalance: Option<JsonNumber>,
    pub sigma_returns: Option<JsonNumber>,
}

/// The numbers of a sample are those in its line.
pub open spec fn is_fv_line(l: FvLine, v: JsonView) -> bool {
    let n = json::field(v, "normalized"@);
    &&& l.ts_ms == whole_in(v, "ts_recv_ms"@)
    &&& opt_number(l.fair_yes) == plain_number(json::field(n, "fair_yes"@))
    &&& opt_number(l.fair_no) == plain_number(json::field(n, "fair_no"@))
    &&& opt_number(l.lstm_fair_yes) == plain_number(json::field(n, "lstm_fair_yes"@))
    &&& opt_number(l.lstm_fair_no) == plain_number(json::field(n, "lstm_fair_no"@))
    &&& opt_number(l.tau) == plain_number(json::field(n, "tau"@))
    &&& opt_number(l.z_score) == plain_number(json::field(n, "z_score"@))
    &&& opt_number(l.trade_imbalance) == plain_number(json::field(n, "trade_imbalance"@))
    &&& opt_number(l.book_imbalance) == plain_number(json::field(n, "book_imbalance"@))
    &&& opt_number(l.sigma_returns) == plain_number(json::field(n, "sigma_returns"@))
}

/// Reads a line of the file of the fair value; none where it is no sample.
pub fn read_fair_value_line(v: &Json) -> (line: Option<FvLine>)
    ensures
        match line {
            Some(l) => text_in(v@, "event_type"@) == "fv_sample"@ && is_fv_line(l, v@),
            None => text_in(v@, "event_type"@) != "fv_sample"@,
        },
{
    let none: Json = Json::Null;
    let kind: String = text_at(v, "event_type");
    if !same_text(kind.as_str(), "fv_sample") {
        return None;
    }
    let n: &Json = field_or(v, "normalized", &none);
    Some(
        FvLine {
            ts_ms: whole_at(v, "ts_recv_ms"),
            fair_yes: plain_number_at(n, "fair_yes"),
            fair_no: plain_number_at(n, "fair_no"),
            lstm_fair_yes: plain_number_at(n, "lstm_fair_yes"),
            lstm_fair_no: plain_number_at(n, "lstm_fair_no"),
            tau: plain_number_at(n, "tau"),
            z_score: plain_number_at(n, "z_score"),
            trade_imbalance: plain_number_at(n, "trade_imbalance"),
            book_imbalance: plain_number_at(n, "book_imbalance"),
            sigma_returns: plain_number_at(n, "sigma_returns"),
        },
    )
}

// Loading a market

/// A market that is being loaded: its events so far, the strike, and the last middle price
/// before the collection ended.
pub struct MarketLoad {
    pub events: Vec<SimEvent>,
    pub strike: u64,
    pub final_btc_mid: u64,
    pub collection_end_ms: i64,
}

/// What a list of events holds.
pub open spec fn events_of(events: Seq<SimEvent>) -> Seq<SimEventView> {
    events.map_values(|e: SimEvent| e@)
}

/// What a market that is being loaded holds.
pub struct LoadView {
    pub events: Seq<SimEventView>,
    pub strike: u64,
    pub final_btc_mid: u64,
    pub collection_end_ms: i64,
}

impl View for MarketLoad {
    type V = LoadView;

    open spec fn view(&self) -> LoadView {
        LoadView {
            events: events_of(self.events@),
            strike: self.strike,
            final_btc_mid: self.final_btc_mid,
            collection_end_ms: self.collection_end_ms,
        }
    }
}

/// A market that is being loaded, with one more event.
pub open spec fn with_event(l: LoadView, e: SimEventView) -> LoadView {
    LoadView { events: l.events.push(e), ..l }
}

/// When a market starts, in milliseconds.
pub open spec fn start_ms(epoch: int) -> int {
    epoch * 1000
}

/// When a market ends, in milliseconds.
pub open spec fn end_ms(epoch: int) -> int {
    start_ms(epoch) + MARKET_DURATION * 1000
}

/// When the collection of a market ends, in milliseconds.
pub open spec fn collection_end(epoch: int) -> int {
    end_ms(epoch) + TAIL_SECONDS * 1000
}

/// The times of a market are within reach of the clock.
pub open spec fn epoch_in_reach(epoch: int) -> bool {
    i64::MIN <= start_ms(epoch) && collection_end(epoch) <= i64::MAX
}

/// The market that a folder is named after, if it is named after one.
pub fn folder_epoch(name: &str) -> (epoch: Option<i64>)
    ensures
        epoch == number::i64_of_text(name@),
{
    parse_i64(name)
}

/// When a market ends, in milliseconds.
pub fn market_end_ms(epoch: i64) -> (t: i64)
    requires
        epoch_in_reach(epoch as int),
    ensures
        t == end_ms(epoch as int),
{
    epoch * 1000 + MARKET_DURATION as i64 * 1000
}

impl MarketLoad {
    /// Nothing is loaded yet.
    pub fn new(epoch: i64) -> (l: MarketLoad)
        requires
            epoch_in_reach(epoch as int),
        ensures
            l@ == (LoadView {
                events: seq![],
                strike: 0,
                final_btc_mid: 0,
                collection_end_ms: collection_end(epoch as int) as i64,
            }),
    {
        let l: MarketLoad = MarketLoad {
            events: Vec::new(),
            strike: 0,
            final_btc_mid: 0,
            collection_end_ms: market_end_ms(epoch) + TAIL_SECONDS as i64 * 1000,
        };
        assert(l@.events =~= seq![]);
        l
    }

    fn push(&mut self, e: SimEvent)
        ensures
            final(self)@ == with_event(old(self)@, e@),
    {
        let ghost before = self@.events;
        self.events.push(e);
        assert(self@.events =~= before.push(e@));
    }

    /// Takes in the book of a token, where both best prices are positive.
    pub fn add_book(
        &mut self,
        ts_ms: i64,
        token: TokenSide,
        best_bid: u64,
        best_ask: u64,
        bids: Vec<PriceLevel>,
        asks: Vec<PriceLevel>,
    )
        ensures
            final(self)@ == (if float::le(best_bid, 0) || float::le(best_ask, 0) {
                old(self)@
            } else {
                with_event(
                    old(self)@,
                    SimEventView::PolyBookState {
                        ts_ms,
                        token,
                        bids: bids@,
                        asks: asks@,
                        best_bid,
                        best_ask,
                    },
                )
            }),
    {
        if at_most(best_bid, 0) || at_most(best_ask, 0) {
            return;
        }
        self.push(SimEvent::PolyBookState { ts_ms, token, bids, asks, best_bid, best_ask });
    }

    /// Takes in a trade of a token, where price and size are positive.
    pub fn add_trade(
        &mut self,
        ts_ms: i64,
        token: TokenSide,
        price: u64,
        side: TradeSide,
        size: u64,
    )
        ensures
            final(self)@ == (if float::pos(price) && float::pos(size) {
                with_event(
                    old(self)@,
                    SimEventView::PolyTrade { ts_ms, token, price, side, size },
                )
            } else {
                old(self)@
            }),
    {
        if positive(price) && positive(size) {
            self.push(SimEvent::PolyTrade { ts_ms, token, price, side, size });
        }
    }

    /// Takes in the best prices and their middle, where the prices are positive. The middle counts
    /// for the outcome until the collection ends.
    pub fn add_ticker(&mut self, ts_ms: i64, bid: u64, ask: u64, mid: u64)
        ensures
            final(self)@ == (if float::pos(bid) && float::pos(ask) {
                LoadView {
                    final_btc_mid: if ts_ms <= old(self)@.collection_end_ms {
                        mid
                    } else {
                        old(self)@.final_btc_mid
                    },
                    ..with_event(old(self)@, SimEventView::BtcTicker { ts_ms, bid, ask, mid })
                }
            } else {
                old(self)@
            }),
    {
        if positive(bid) && positive(ask) {
            self.push(SimEvent::BtcTicker { ts_ms, bid, ask, mid });
            if ts_ms <= self.collection_end_ms {
                self.final_btc_mid = mid;
            }
        }
    }

    /// Takes in a trade on the exchange, where price and quantity are positive.
    pub fn add_btc_trade(&mut self, ts_ms: i64, price: u64, qty: u64, is_buy: bool)
        ensures
            final(self)@ == (if float::pos(price) && float::pos(qty) {
                with_event(old(self)@, SimEventView::BtcTrade { ts_ms, price, qty, is_buy })
            } else {
                old(self)@
            }),
    {
        if positive(price) && positive(qty) {
            self.push(SimEvent::BtcTrade { ts_ms, price, qty, is_buy });
        }
    }

    /// Takes in the book of the exchange, where neither side is empty.
    pub fn add_depth(&mut self, ts_ms: i64, bids: Vec<PriceLevel>, asks: Vec<PriceLevel>)
        ensures
            final(self)@ == (if bids@.len() > 0 && asks@.len() > 0 {
                with_event(
                    old(self)@,
                    SimEventView::BtcDepth { ts_ms, bids: bids@, asks: asks@ },
                )
            } else {
                old(self)@
            }),
    {
        if bids.len() > 0 && asks.len() > 0 {
            self.push(SimEvent::BtcDepth { ts_ms, bids, asks });
        }
    }

    /// Takes in the strike, where it is positive.
    pub fn add_strike(&mut self, price: u64)
        ensures
            final(self)@ == (if float::pos(price) {
                LoadView { strike: price, ..old(self)@ }
            } else {
                old(self)@
            }),
    {
        if positive(price) {
            self.strike = price;
        }
    }

    /// Takes in a sample of the fair value, unless it is zero.
    pub fn add_fair_value(&mut self, ts_ms: i64, sample: FairSample)
        ensures
            final(self)@ == (if float::eq(sample.fair_yes, 0) {
                old(self)@
            } else {
                with_event(old(self)@, SimEventView::FairValue { ts_ms, sample })
            }),
    {
        if same(sample.fair_yes, 0) {
            return;
        }
        self.push(SimEvent::FairValue { ts_ms, sample });
    }

    /// Whether the market went up: the last middle price lies above the strike. A fault where
    /// there was no strike.
    pub fn outcome(&self) -> (r: Result<bool, String>)
        ensures
            match r {
                Ok(up) => !float::eq(self@.strike, 0) && up == float::lt(
                    self@.strike,
                    self@.final_btc_mid,
                ),
                Err(m) => float::eq(self@.strike, 0) && m@ == "No strike price found"@,
            },
    {
        if same(self.strike, 0) {
            return Err("No strike price found".to_owned());
        }
        Ok(less(self.strike, self.final_btc_mid))
    }
}

// Laws

/// A trade that is recorded is read as it was told: of the token that it names, at its price and in
/// its size, as a purchase where its side is the text BUY and as a sale where it is the text SELL.
pub proof fn trades_are_read_as_told(
    v: JsonView,
    ids: IdsView,
    id: Text,
    price: Text,
    size: Text,
    ts_ms: i64,
)
    requires
        json::field(v, "event_type"@) == JsonView::Str("last_trade_price_raw"@),
        json::field(v, "ts_recv_ms"@) == json::num(ts_ms as int),
        json::field(json::field(v, "raw"@), "asset_id"@) == JsonView::Str(id),
        json::field(json::field(v, "raw"@), "price"@) == JsonView::Str(price),
        json::field(json::field(v, "raw"@), "size"@) == JsonView::Str(size),
        ids.up != ids.down,
    ensures
        ({
            let (after, line) = clob_line(v, ids);
            let side = json::field(json::field(v, "raw"@), "side"@);
            &&& after == ids
            &&& id != ids.up && id != ids.down ==> line is Nothing
            &&& id == ids.up || id == ids.down ==> {
                &&& line is Trade
                &&& line->Trade_ts_ms == ts_ms
                &&& line->Trade_token == (if id == ids.up { TokenSide::Up } else { TokenSide::Down })
                &&& line->Trade_price == NumTextView::Text(price)
                &&& line->Trade_size == NumTextView::Text(size)
                &&& side == JsonView::Str("BUY"@) ==> line->Trade_side == TradeSide::Buy
                &&& side == JsonView::Str("SELL"@) ==> line->Trade_side == TradeSide::Sell
            }
        }),
{
    reveal_strlit("last_trade_price_raw");
    reveal_strlit("book_state");
    reveal_strlit("market_lookup");
    reveal_strlit("BUY");
    reveal_strlit("SELL");
    assert("last_trade_price_raw"@.len() == 20 && "book_state"@.len() == 10);
    assert("market_lookup"@.len() == 13);
    assert("BUY"@.len() == 3 && "SELL"@.len() == 4);
}

/// A lookup of the market names the tokens: the first one stands for up, the second for down.
pub proof fn lookups_name_the_tokens(v: JsonView, ids: IdsView, up: Text, down: Text)
    requires
        json::field(v, "event_type"@) == JsonView::Str("market_lookup"@),
        json::get(v, "raw"@) is Some,
        json::field(json::get(v, "raw"@)->0, "clobTokenIds"@) == JsonView::Array(
            seq![JsonView::Str(up), JsonView::Str(down)],
        ),
    ensures
        clob_line(v, ids) == (IdsView { up, down }, ClobLineView::Nothing),
{
    let items = seq![JsonView::Str(up), JsonView::Str(down)];
    let one = seq![JsonView::Str(up)];
    assert(items.drop_last() =~= one);
    assert(one.drop_last() =~= seq![]);
    reveal_with_fuel(poly_gamma::texts_among, 3);
    assert(poly_gamma::texts_among(items) =~= seq![up, down]);
}

/// The levels of a line are read in their order, price before size, up to a number of them.
pub proof fn levels_are_read_in_order(texts: Seq<(Text, Text)>, items: Seq<JsonView>, max: int)
    requires
        0 <= max,
        items.len() == texts.len(),
        forall|k: int|
            0 <= k < items.len() ==> (#[trigger] items[k]) == JsonView::Array(
                seq![JsonView::Str(texts[k].0), JsonView::Str(texts[k].1)],
            ),
    ensures
        levels_in(JsonView::Array(items), max) == texts.take(
            if texts.len() < max {
                texts.len() as int
            } else {
                max
            },
        ),
{
    let n = if items.len() < max { items.len() as int } else { max };
    assert forall|k: int| 0 <= k < n implies (#[trigger] items.take(n)[k]) == JsonView::Array(
        seq![JsonView::Str(texts.take(n)[k].0), JsonView::Str(texts.take(n)[k].1)],
    ) by {
        assert(items[k] == items.take(n)[k]);
    }
    lemma_levels_in_order(texts.take(n), items.take(n));
}

proof fn lemma_levels_in_order(texts: Seq<(Text, Text)>, items: Seq<JsonView>)
    requires
        items.len() == texts.len(),
        forall|k: int|
            0 <= k < items.len() ==> (#[trigger] items[k]) == JsonView::Array(
                seq![JsonView::Str(texts[k].0), JsonView::Str(texts[k].1)],
            ),
    ensures
        levels_among(items) == texts,
    decreases items.len(),
{
    if items.len() == 0 {
        assert(texts =~= seq![]);
    } else {
        let n = items.len() - 1;
        assert forall|k: int| 0 <= k < n implies (#[trigger] items.drop_last()[k])
            == JsonView::Array(
            seq![
                JsonView::Str(texts.drop_last()[k].0),
                JsonView::Str(texts.drop_last()[k].1),
            ],
        ) by {
            assert(items[k] == items.drop_last()[k]);
        }
        lemma_levels_in_order(texts.drop_last(), items.drop_last());
        assert(items[n] == items.last());
        let a = seq![JsonView::Str(texts[n].0), JsonView::Str(texts[n].1)];
        assert(a.len() == 2 && a[0] == JsonView::Str(texts[n].0) && a[1] == JsonView::Str(texts[n].1));
        assert(level_of(items.last()) == Some(texts[n]));
        assert(texts =~= texts.drop_last().push(texts[n]));
    }
}

/// What an event tells is what is known after it: the book and the last trade of its token, the
/// prices and the book of the exchange, the fair value. All else stays, and the clock moves to the
/// event.
pub proof fn events_are_known_afterwards(s: StateView, e: SimEventView, end_ms: i64)
    ensures
        ({
            let t = state_after(s, e, end_ms);
            let left = if end_ms > time_of(e) { end_ms - time_of(e) } else { 0 };
            &&& t.ts_ms == time_of(e)
            &&& !(e is FairValue) ==> t.tau == Tau::Left(left as u64) && t.fair == s.fair
            &&& match e {
                SimEventView::PolyBookState { token, bids, asks, best_bid, best_ask, .. } => {
                    let book = Some(SnapshotView { bids, asks, best_bid, best_ask });
                    &&& token == TokenSide::Up ==> t.up_book == book && t.down_book == s.down_book
                    &&& token == TokenSide::Down ==> t.down_book == book && t.up_book == s.up_book
                },
                _ => t.up_book == s.up_book && t.down_book == s.down_book,
            }
            &&& match e {
                SimEventView::PolyTrade { ts_ms, token, price, side, .. } => {
                    let trade = Some((price, side, ts_ms));
                    &&& token == TokenSide::Up ==> t.last_trade_up == trade && t.last_trade_down
                        == s.last_trade_down
                    &&& token == TokenSide::Down ==> t.last_trade_down == trade && t.last_trade_up
                        == s.last_trade_up
                },
                _ => t.last_trade_up == s.last_trade_up && t.last_trade_down == s.last_trade_down,
            }
            &&& match e {
                SimEventView::BtcTicker { bid, ask, mid, .. } => t.btc_bid == bid && t.btc_ask
                    == ask && t.btc_mid == mid,
                _ => t.btc_bid == s.btc_bid && t.btc_ask == s.btc_ask && t.btc_mid == s.btc_mid,
            }
            &&& match e {
                SimEventView::BtcDepth { bids, asks, .. } => t.btc_depth_bids == bids
                    && t.btc_depth_asks == asks,
                _ => t.btc_depth_bids == s.btc_depth_bids && t.btc_depth_asks == s.btc_depth_asks,
            }
            &&& match e {
                SimEventView::FairValue { sample, .. } => t.fair == Some(sample) && t.tau
                    == Tau::Given(sample.tau),
                _ => true,
            }
        }),
{
}

/// The best prices of a token are those of its own book, where they are positive.
pub proof fn best_prices_are_of_the_token(s: StateView, b: SnapshotView)
    ensures
        s.up_book == Some(b) ==> best_bid_of(s, TokenSide::Up) == (if float::lt(0, b.best_bid) {
            Some(b.best_bid)
        } else {
            None
        }) && best_ask_of(s, TokenSide::Up) == (if float::lt(0, b.best_ask) {
            Some(b.best_ask)
        } else {
            None
        }),
        s.down_book == Some(b) ==> best_bid_of(s, TokenSide::Down) == (if float::lt(0, b.best_bid) {
            Some(b.best_bid)
        } else {
            None
        }) && best_ask_of(s, TokenSide::Down) == (if float::lt(0, b.best_ask) {
            Some(b.best_ask)
        } else {
            None
        }),
        s.up_book is None ==> best_bid_of(s, TokenSide::Up) is None && best_ask_of(
            s,
            TokenSide::Up,
        ) is None,
        s.down_book is None ==> best_bid_of(s, TokenSide::Down) is None && best_ask_of(
            s,
            TokenSide::Down,
        ) is None,
{
}

/// A market ends five minutes after it starts, and its collection twenty seconds later.
pub proof fn markets_last_five_minutes(epoch: int)
    ensures
        start_ms(epoch) == 1000 * epoch,
        end_ms(epoch) - start_ms(epoch) == 300_000,
        collection_end(epoch) - end_ms(epoch) == 20_000,
{
}

/// What a level in a line holds is the text of its price and then that of its size.
pub proof fn levels_hold_price_and_size(levels: Seq<LevelText>, i: int)
    requires
        0 <= i < levels.len(),
    ensures
        level_texts(levels).len() == levels.len(),
        level_texts(levels)[i].0 == levels[i].0@,
        level_texts(levels)[i].1 == levels[i].1@,
{
}

/// Before the first event nothing is known, and five minutes are left.
pub proof fn nothing_is_known_at_first(t: TokenSide)
    ensures
        nothing_known().up_book is None && nothing_known().down_book is None,
        nothing_known().last_trade_up is None && nothing_known().last_trade_down is None,
        nothing_known().fair is None,
        best_bid_of(nothing_known(), t) is None && best_ask_of(nothing_known(), t) is None,
        nothing_known().tau == Tau::Left(300_000),
{
}

} // verus!
