//! The Binance order book and the messages that change it.

use std::collections::BTreeMap;

use vstd::prelude::*;
use vstd::string::*;

use crate::decimal;
use crate::decimal::{parse_dec, sub_dec};
use crate::json;
use crate::json::{Json, JsonView};
use crate::json_struct;
use crate::json_struct::{read_borrowed, read_record, read_values};
use crate::levels;
use crate::levels::{change_level, list_ascending, set_level, BookLevel, LevelView};
use crate::text;
use crate::text::{contains_text, ends_with_text, Text};
use crate::types::{RawJson, RawView};

verus! {

/// Units of which one makes a price step of a hundred millionth.
pub const PRICE_SCALE: i64 = 100_000_000;

// Messages

/// A change of the book: the levels that changed, and the update identifiers that the
/// change covers.
pub struct DepthUpdateMsg {
    pub first_update_id: i64,
    pub last_update_id: i64,
    pub b: Vec<(String, String)>,
    pub a: Vec<(String, String)>,
}

/// The best prices and quantities.
pub struct BookTickerMsg {
    pub b: String,
    pub bid_qty: String,
    pub a: String,
    pub ask_qty: String,
    pub u: i64,
}

/// A trade.
pub struct TradeMsg {
    pub p: String,
    pub q: String,
    pub t: i64,
    pub trade_time: i64,
    pub event_time: i64,
    pub m: bool,
}

/// A message of one of the three streams.
pub enum Msg {
    Trade(TradeMsg),
    Depth(DepthUpdateMsg),
    BookTicker(BookTickerMsg),
}

/// What a change of the book holds.
pub struct DepthView {
    pub first: i64,
    pub last: i64,
    pub b: Seq<(Text, Text)>,
    pub a: Seq<(Text, Text)>,
}

/// What the best prices hold.
pub struct TickerView {
    pub b: Text,
    pub bid_qty: Text,
    pub a: Text,
    pub ask_qty: Text,
    pub u: i64,
}

/// What a trade holds.
pub struct TradeView {
    pub p: Text,
    pub q: Text,
    pub t: i64,
    pub trade_time: i64,
    pub event_time: i64,
    pub m: bool,
}

/// What a message holds.
pub enum MsgView {
    Trade(TradeView),
    Depth(DepthView),
    BookTicker(TickerView),
}

impl View for DepthUpdateMsg {
    type V = DepthView;

    open spec fn view(&self) -> DepthView {
        DepthView {
            first: self.first_update_id,
            last: self.last_update_id,
            b: json_struct::pairs_view(self.b@),
            a: json_struct::pairs_view(self.a@),
        }
    }
}

impl View for BookTickerMsg {
    type V = TickerView;

    open spec fn view(&self) -> TickerView {
        TickerView {
            b: self.b@,
            bid_qty: self.bid_qty@,
            a: self.a@,
            ask_qty: self.ask_qty@,
            u: self.u,
        }
    }
}

impl View for TradeMsg {
    type V = TradeView;

    open spec fn view(&self) -> TradeView {
        TradeView {
            p: self.p@,
            q: self.q@,
            t: self.t,
            trade_time: self.trade_time,
            event_time: self.event_time,
            m: self.m,
        }
    }
}

impl View for Msg {
    type V = MsgView;

    open spec fn view(&self) -> MsgView {
        match self {
            Msg::Trade(m) => MsgView::Trade(m@),
            Msg::Depth(m) => MsgView::Depth(m@),
            Msg::BookTicker(m) => MsgView::BookTicker(m@),
        }
    }
}

/// A pair of texts, written as an array of exactly two.
pub open spec fn pair_of(j: JsonView) -> Option<(Text, Text)> {
    match j {
        JsonView::Array(items) => if items.len() == 2 && items[0] is Str && items[1] is Str {
            Some((items[0]->Str_0, items[1]->Str_0))
        } else {
            None
        },
        _ => None,
    }
}

/// Pairs of texts, where `j` is an array of nothing else.
pub open spec fn pairs_of(j: JsonView) -> Option<Seq<(Text, Text)>> {
    match j {
        JsonView::Array(items) => if forall|i: int|
            0 <= i < items.len() ==> pair_of(#[trigger] items[i]) is Some {
            Some(items.map_values(|j: JsonView| pair_of(j)->0))
        } else {
            None
        },
        _ => None,
    }
}

/// The streams that messages come from.
#[derive(Clone, Copy, Debug, PartialEq, Eq, Structural)]
pub enum Stream {
    Trade,
    Depth,
    BookTicker,
}

/// The stream that a name stands for.
pub open spec fn stream_of(name: Text) -> Option<Stream> {
    if text::has_suffix(name, "@trade"@) {
        Some(Stream::Trade)
    } else if text::has_infix(name, "depth"@) && !text::has_infix(name, "bookTicker"@) {
        Some(Stream::Depth)
    } else if text::has_infix(name, "bookTicker"@) {
        Some(Stream::BookTicker)
    } else {
        None
    }
}

/// The fields that the data of a stream is read from.
pub open spec fn fields_of(s: Stream) -> Seq<Text> {
    match s {
        Stream::Trade => seq!["p"@, "q"@, "t"@, "T"@, "E"@, "m"@],
        Stream::Depth => seq!["U"@, "u"@, "b"@, "a"@],
        Stream::BookTicker => seq!["b"@, "B"@, "a"@, "A"@, "u"@],
    }
}

/// A change of the book, from the values of its fields.
pub open spec fn depth_of(v: Seq<JsonView>) -> Option<DepthView> {
    if v.len() != 4 {
        None
    } else {
        match (json::i64_of(v[0]), json::i64_of(v[1]), pairs_of(v[2]), pairs_of(v[3])) {
            (Some(first), Some(last), Some(b), Some(a)) => Some(DepthView { first, last, b, a }),
            _ => None,
        }
    }
}

/// The best prices, from the values of their fields.
pub open spec fn ticker_of(v: Seq<JsonView>) -> Option<TickerView> {
    if v.len() != 5 {
        None
    } else {
        match (
            json::str_of(v[0]),
            json::str_of(v[1]),
            json::str_of(v[2]),
            json::str_of(v[3]),
            json::i64_of(v[4]),
        ) {
            (Some(b), Some(bid_qty), Some(a), Some(ask_qty), Some(u)) => Some(
                TickerView { b, bid_qty, a, ask_qty, u },
            ),
            _ => None,
        }
    }
}

/// A trade, from the values of its fields.
pub open spec fn trade_of(v: Seq<JsonView>) -> Option<TradeView> {
    if v.len() != 6 {
        None
    } else {
        match (
            json::str_of(v[0]),
            json::str_of(v[1]),
            json::i64_of(v[2]),
            json::i64_of(v[3]),
            json::i64_of(v[4]),
            json::bool_of(v[5]),
        ) {
            (Some(p), Some(q), Some(t), Some(trade_time), Some(event_time), Some(m)) => Some(
                TradeView { p, q, t, trade_time, event_time, m },
            ),
            _ => None,
        }
    }
}

/// A message of a stream, from the values of its fields.
pub open spec fn msg_of(s: Stream, v: Seq<JsonView>) -> Option<MsgView> {
    match s {
        Stream::Trade => match trade_of(v) {
            Some(m) => Some(MsgView::Trade(m)),
            None => None,
        },
        Stream::Depth => match depth_of(v) {
            Some(m) => Some(MsgView::Depth(m)),
            None => None,
        },
        Stream::BookTicker => match ticker_of(v) {
            Some(m) => Some(MsgView::BookTicker(m)),
            None => None,
        },
    }
}

/// A message, from the name of its stream and the text of its data.
pub open spec fn msg_of_data(name: Text, data: Text) -> Option<MsgView> {
    match stream_of(name) {
        Some(stream) => match json_struct::record_slots(data, fields_of(stream)) {
            Some(slots) => match json_struct::values_of(slots) {
                Some(values) => msg_of(stream, values),
                None => None,
            },
            None => None,
        },
        None => None,
    }
}

/// The message that a text of the combined stream stands for: a record of the name of the
/// stream, written without escapes, and of the data, which is a record of the fields of that
/// stream. There is none where the text or the data is no such record, where a field that is
/// read is missing or repeated, or where its value is of another kind.
pub open spec fn msg_of_text(raw: Text) -> Option<MsgView> {
    match json_struct::record_slots(raw, seq!["stream"@, "data"@]) {
        Some(slots) => match json_struct::borrowed_text(slots[0]) {
            Some(name) => msg_of_data(name, slots[1]),
            None => None,
        },
        None => None,
    }
}

/// What an optional message holds.
pub open spec fn opt_msg(m: Option<Msg>) -> Option<MsgView> {
    match m {
        Some(m) => Some(m@),
        None => None,
    }
}

fn parse_pair(j: &Json) -> (pair: Option<(String, String)>)
    ensures
        match pair {
            Some(p) => pair_of(j@) == Some((p.0@, p.1@)),
            None => pair_of(j@) is None,
        },
{
    match j {
        Json::Array(items) => {
            assert(json::items_view(items@).len() == items@.len());
            if items.len() != 2 {
                return None;
            }
            assert(json::items_view(items@)[0] == items@[0]@);
            assert(json::items_view(items@)[1] == items@[1]@);
            match (items[0].as_str(), items[1].as_str()) {
                (Some(p), Some(q)) => Some((p.to_owned(), q.to_owned())),
                _ => None,
            }
        },
        _ => None,
    }
}

fn parse_pairs(j: &Json) -> (pairs: Option<Vec<(String, String)>>)
    ensures
        match pairs {
            Some(p) => pairs_of(j@) == Some(json_struct::pairs_view(p@)),
            None => pairs_of(j@) is None,
        },
{
    match j {
        Json::Array(items) => {
            let ghost all = json::items_view(items@);
            let mut pairs: Vec<(String, String)> = Vec::new();
            let mut i: usize = 0;
            while i < items.len()
                invariant
                    i <= items.len(),
                    all == json::items_view(items@),
                    j@ == JsonView::Array(all),
                    pairs@.len() == i,
                    forall|k: int|
                        0 <= k < i ==> pair_of(#[trigger] all[k]) == Some(
                            (pairs@[k].0@, pairs@[k].1@),
                        ),
                decreases items.len() - i,
            {
                assert(all[i as int] == items@[i as int]@);
                match parse_pair(&items[i]) {
                    Some(p) => pairs.push(p),
                    None => {
                        assert(pair_of(all[i as int]) is None);
                        return None;
                    },
                }
                i = i + 1;
            }
            assert(json_struct::pairs_view(pairs@) =~= all.map_values(|j: JsonView| pair_of(j)->0));
            Some(pairs)
        },
        _ => None,
    }
}

fn parse_depth(v: &Vec<Json>) -> (m: Option<DepthUpdateMsg>)
    ensures
        match m {
            Some(m) => depth_of(json::items_view(v@)) == Some(m@),
            None => depth_of(json::items_view(v@)) is None,
        },
{
    if v.len() != 4 {
        return None;
    }
    match (v[0].as_i64(), v[1].as_i64(), parse_pairs(&v[2]), parse_pairs(&v[3])) {
        (Some(first_update_id), Some(last_update_id), Some(b), Some(a)) => Some(
            DepthUpdateMsg { first_update_id, last_update_id, b, a },
        ),
        _ => None,
    }
}

fn parse_ticker(v: &Vec<Json>) -> (m: Option<BookTickerMsg>)
    ensures
        match m {
            Some(m) => ticker_of(json::items_view(v@)) == Some(m@),
            None => ticker_of(json::items_view(v@)) is None,
        },
{
    if v.len() != 5 {
        return None;
    }
    match (v[0].as_str(), v[1].as_str(), v[2].as_str(), v[3].as_str(), v[4].as_i64()) {
        (Some(b), Some(bid_qty), Some(a), Some(ask_qty), Some(u)) => Some(
            BookTickerMsg {
                b: b.to_owned(),
                bid_qty: bid_qty.to_owned(),
                a: a.to_owned(),
                ask_qty: ask_qty.to_owned(),
                u,
            },
        ),
        _ => None,
    }
}

fn parse_trade(v: &Vec<Json>) -> (m: Option<TradeMsg>)
    ensures
        match m {
            Some(m) => trade_of(json::items_view(v@)) == Some(m@),
            None => trade_of(json::items_view(v@)) is None,
        },
{
    if v.len() != 6 {
        return None;
    }
    match (
        v[0].as_str(),
        v[1].as_str(),
        v[2].as_i64(),
        v[3].as_i64(),
        v[4].as_i64(),
        v[5].as_bool(),
    ) {
        (Some(p), Some(q), Some(t), Some(trade_time), Some(event_time), Some(m)) => Some(
            TradeMsg { p: p.to_owned(), q: q.to_owned(), t, trade_time, event_time, m },
        ),
        _ => None,
    }
}

/// The stream that a name stands for.
pub fn which_stream(name: &str) -> (s: Option<Stream>)
    ensures
        s == stream_of(name@),
{
    if ends_with_text(name, "@trade") {
        Some(Stream::Trade)
    } else if contains_text(name, "depth") && !contains_text(name, "bookTicker") {
        Some(Stream::Depth)
    } else if contains_text(name, "bookTicker") {
        Some(Stream::BookTicker)
    } else {
        None
    }
}

fn field_names(s: Stream) -> (names: Vec<&'static str>)
    ensures
        json_struct::names_view(names@) == fields_of(s),
{
    let names: Vec<&'static str> = match s {
        Stream::Trade => vec!["p", "q", "t", "T", "E", "m"],
        Stream::Depth => vec!["U", "u", "b", "a"],
        Stream::BookTicker => vec!["b", "B", "a", "A", "u"],
    };
    assert(json_struct::names_view(names@) =~= fields_of(s));
    names
}

/// Reads a message of a stream from the values of its fields.
pub fn read_msg(s: Stream, values: &Vec<Json>) -> (m: Option<Msg>)
    ensures
        opt_msg(m) == msg_of(s, json::items_view(values@)),
{
    match s {
        Stream::Trade => match parse_trade(values) {
            Some(m) => Some(Msg::Trade(m)),
            None => None,
        },
        Stream::Depth => match parse_depth(values) {
            Some(m) => Some(Msg::Depth(m)),
            None => None,
        },
        Stream::BookTicker => match parse_ticker(values) {
            Some(m) => Some(Msg::BookTicker(m)),
            None => None,
        },
    }
}

fn parse_data(name: &str, data: &str) -> (m: Option<Msg>)
    ensures
        opt_msg(m) == msg_of_data(name@, data@),
{
    match which_stream(name) {
        Some(stream) => match read_record(data, &field_names(stream)) {
            Some(slots) => match read_values(&slots) {
                Some(values) => read_msg(stream, &values),
                None => None,
            },
            None => None,
        },
        None => None,
    }
}

/// Reads a message of the combined stream from its text.
pub fn parse_msg(raw: &str) -> (m: Option<Msg>)
    ensures
        opt_msg(m) == msg_of_text(raw@),
{
    let names: Vec<&'static str> = vec!["stream", "data"];
    assert(json_struct::names_view(names@) =~= seq!["stream"@, "data"@]);
    match read_record(raw, &names) {
        Some(slots) => {
            proof {
                json_struct::records_are_complete(raw@, seq!["stream"@, "data"@]);
                assert(json::strings(slots@).len() == 2);
                assert(json::strings(slots@)[0] == slots@[0]@);
                assert(json::strings(slots@)[1] == slots@[1]@);
            }
            match read_borrowed(slots[0].as_str()) {
                Some(name) => parse_data(name.as_str(), slots[1].as_str()),
                None => None,
            }
        },
        None => None,
    }
}

// Order book

/// The local copy of the order book. `update_id` is the last update it includes.
pub struct BinanceBook {
    pub bids: BTreeMap<i64, BookLevel>,
    pub asks: BTreeMap<i64, BookLevel>,
    pub update_id: i64,
}

/// What the book holds.
pub struct BookView {
    pub bids: Map<i64, LevelView>,
    pub asks: Map<i64, LevelView>,
    pub update_id: i64,
}

impl View for BinanceBook {
    type V = BookView;

    open spec fn view(&self) -> BookView {
        BookView {
            bids: levels::side_view(self.bids@),
            asks: levels::side_view(self.asks@),
            update_id: self.update_id,
        }
    }
}

/// A book without levels.
pub open spec fn empty_book() -> BookView {
    BookView { bids: Map::empty(), asks: Map::empty(), update_id: 0 }
}

/// A side after changes were applied in their order.
pub open spec fn side_after(side: Map<i64, LevelView>, changes: Seq<(Text, Text)>) -> Map<
    i64,
    LevelView,
>
    decreases changes.len(),
{
    if changes.len() == 0 {
        side
    } else {
        levels::changed(
            side_after(side, changes.drop_last()),
            PRICE_SCALE as int,
            changes.last().0,
            changes.last().1,
        )
    }
}

/// The book after a change.
pub open spec fn book_after(book: BookView, update: DepthView) -> BookView {
    BookView {
        bids: side_after(book.bids, update.b),
        asks: side_after(book.asks, update.a),
        update_id: update.last,
    }
}

/// An item of an array, or null.
pub open spec fn item_at(j: JsonView, i: int) -> JsonView {
    match j {
        JsonView::Array(items) => if 0 <= i < items.len() { items[i] } else { JsonView::Null },
        _ => JsonView::Null,
    }
}

/// The levels of a snapshot, of which a later one replaces an earlier one of the same
/// price. Entries that do not start with two texts do not count.
pub open spec fn loaded_side(entries: Seq<JsonView>) -> Map<i64, LevelView>
    decreases entries.len(),
{
    if entries.len() == 0 {
        Map::empty()
    } else {
        let earlier = loaded_side(entries.drop_last());
        let entry = entries.last();
        match (json::str_of(item_at(entry, 0)), json::str_of(item_at(entry, 1))) {
            (Some(p), Some(q)) => levels::with_level(earlier, PRICE_SCALE as int, p, q),
            _ => earlier,
        }
    }
}

/// The levels in the field `key` of a snapshot.
pub open spec fn snapshot_side(snap: JsonView, key: Text) -> Map<i64, LevelView> {
    match json::items_of(json::field(snap, key)) {
        Some(entries) => loaded_side(entries),
        None => Map::empty(),
    }
}

/// The book after a snapshot was loaded: nothing of the earlier levels is left.
pub open spec fn book_loaded(book: BookView, snap: JsonView) -> BookView {
    BookView {
        bids: snapshot_side(snap, "bids"@),
        asks: snapshot_side(snap, "asks"@),
        update_id: match json::i64_of(json::field(snap, "lastUpdateId"@)) {
            Some(id) => id,
            None => book.update_id,
        },
    }
}

/// The update identifiers of the change after which a state was recorded.
pub struct TriggerEvent {
    pub first_update_id: i64,
    pub last_update_id: i64,
}

/// The whole book, as it is recorded.
pub struct BinanceBookState {
    pub update_id: i64,
    pub best_bid_price: Option<String>,
    pub best_bid_qty: Option<String>,
    pub best_ask_price: Option<String>,
    pub best_ask_qty: Option<String>,
    pub spread: Option<String>,
    pub bid_count: usize,
    pub ask_count: usize,
    pub bids: Vec<BookLevel>,
    pub asks: Vec<BookLevel>,
    pub trigger_event: TriggerEvent,
}

/// What a recorded book holds.
pub struct BookStateView {
    pub update_id: i64,
    pub best_bid_price: Option<Text>,
    pub best_bid_qty: Option<Text>,
    pub best_ask_price: Option<Text>,
    pub best_ask_qty: Option<Text>,
    pub spread: Option<Text>,
    pub bid_count: nat,
    pub ask_count: nat,
    pub bids: Seq<LevelView>,
    pub asks: Seq<LevelView>,
    pub first_update_id: i64,
    pub last_update_id: i64,
}

impl View for BinanceBookState {
    type V = BookStateView;

    open spec fn view(&self) -> BookStateView {
        BookStateView {
            update_id: self.update_id,
            best_bid_price: json::opt_string(self.best_bid_price),
            best_bid_qty: json::opt_string(self.best_bid_qty),
            best_ask_price: json::opt_string(self.best_ask_price),
            best_ask_qty: json::opt_string(self.best_ask_qty),
            spread: json::opt_string(self.spread),
            bid_count: self.bid_count as nat,
            ask_count: self.ask_count as nat,
            bids: levels::levels_view(self.bids@),
            asks: levels::levels_view(self.asks@),
            first_update_id: self.trigger_event.first_update_id,
            last_update_id: self.trigger_event.last_update_id,
        }
    }
}

/// The first of some levels.
pub open spec fn first_level(list: Seq<LevelView>) -> Option<LevelView> {
    if list.len() == 0 { None } else { Some(list[0]) }
}

/// The price of a level.
pub open spec fn price_of(level: Option<LevelView>) -> Option<Text> {
    match level {
        Some(l) => Some(l.price),
        None => None,
    }
}

/// The quantity of a level.
pub open spec fn qty_of(level: Option<LevelView>) -> Option<Text> {
    match level {
        Some(l) => Some(l.qty),
        None => None,
    }
}

/// The bid with the highest price.
pub open spec fn best_bid(book: BookView) -> Option<LevelView> {
    first_level(levels::descending(book.bids))
}

/// The ask with the lowest price.
pub open spec fn best_ask(book: BookView) -> Option<LevelView> {
    first_level(levels::ascending(book.asks))
}

/// How far the best prices lie apart, where both are there and are numbers. Prices so
/// far apart that their difference is no number have none.
pub open spec fn spread_of(ask: Option<Text>, bid: Option<Text>) -> Option<Text> {
    match (ask, bid) {
        (Some(ask), Some(bid)) => match (
            decimal::decimal_of_text(ask),
            decimal::decimal_of_text(bid),
        ) {
            (Some(a), Some(b)) => match decimal::opt_dec(decimal::decimal_difference(a, b)) {
                Some(d) => Some(decimal::dec_text(d)),
                None => None,
            },
            _ => None,
        },
        _ => None,
    }
}

/// The book as it is recorded after the change `first`..`last`.
pub open spec fn state_of(book: BookView, first: i64, last: i64) -> BookStateView {
    BookStateView {
        update_id: book.update_id,
        best_bid_price: price_of(best_bid(book)),
        best_bid_qty: qty_of(best_bid(book)),
        best_ask_price: price_of(best_ask(book)),
        best_ask_qty: qty_of(best_ask(book)),
        spread: spread_of(price_of(best_ask(book)), price_of(best_bid(book))),
        bid_count: levels::descending(book.bids).len(),
        ask_count: levels::ascending(book.asks).len(),
        bids: levels::descending(book.bids),
        asks: levels::ascending(book.asks),
        first_update_id: first,
        last_update_id: last,
    }
}

/// A level as a pair of texts.
pub open spec fn level_json(l: LevelView) -> JsonView {
    JsonView::Array(seq![JsonView::Str(l.price), JsonView::Str(l.qty)])
}

/// Levels as pairs of texts.
pub open spec fn levels_json(list: Seq<LevelView>) -> JsonView {
    JsonView::Array(list.map_values(|l: LevelView| level_json(l)))
}

/// A recorded book as JSON.
pub open spec fn state_json(s: BookStateView) -> JsonView {
    JsonView::Object(
        seq![
            ("update_id"@, json::num(s.update_id as int)),
            ("best_bid_price"@, json::text_or_null(s.best_bid_price)),
            ("best_bid_qty"@, json::text_or_null(s.best_bid_qty)),
            ("best_ask_price"@, json::text_or_null(s.best_ask_price)),
            ("best_ask_qty"@, json::text_or_null(s.best_ask_qty)),
            ("spread"@, json::text_or_null(s.spread)),
            ("bid_count"@, json::num(s.bid_count as int)),
            ("ask_count"@, json::num(s.ask_count as int)),
            ("bids"@, levels_json(s.bids)),
            ("asks"@, levels_json(s.asks)),
            (
                "trigger_event"@,
                JsonView::Object(
                    seq![
                        ("U"@, json::num(s.first_update_id as int)),
                        ("u"@, json::num(s.last_update_id as int)),
                    ],
                ),
            ),
        ],
    )
}

/// The book as it is recorded, in text.
pub open spec fn state_raw(book: BookView, first: i64, last: i64) -> RawView {
    RawView::Raw(json::json_text(state_json(state_of(book, first, last))))
}

/// Levels as pairs of texts.
pub fn levels_to_json(list: &Vec<BookLevel>) -> (j: Json)
    ensures
        j@ == levels_json(levels::levels_view(list@)),
{
    let mut items: Vec<Json> = Vec::new();
    let mut i: usize = 0;
    while i < list.len()
        invariant
            i <= list.len(),
            items@.len() == i,
            forall|k: int| 0 <= k < i ==> #[trigger] items@[k]@ == level_json(list@[k]@),
        decreases list.len() - i,
    {
        let mut pair: Vec<Json> = Vec::new();
        pair.push(Json::text(list[i].price.as_str()));
        pair.push(Json::text(list[i].qty.as_str()));
        assert(json::items_view(pair@) =~= seq![
            JsonView::Str(list@[i as int].price@),
            JsonView::Str(list@[i as int].qty@),
        ]);
        items.push(Json::Array(pair));
        i = i + 1;
    }
    let ghost wanted = levels::levels_view(list@).map_values(|l: LevelView| level_json(l));
    assert(json::items_view(items@) =~= wanted) by {
        assert forall|k: int| 0 <= k < items@.len() implies json::items_view(items@)[k]
            == wanted[k] by {
            assert(items@[k]@ == level_json(list@[k]@));
        }
    }
    Json::Array(items)
}

impl BinanceBookState {
    /// This state as JSON.
    pub fn to_json(&self) -> (j: Json)
        ensures
            j@ == state_json(self@),
    {
        let trigger: Json = Json::object2(
            "U",
            Json::whole(self.trigger_event.first_update_id),
            "u",
            Json::whole(self.trigger_event.last_update_id),
        );
        let j: Json = Json::object1("update_id", Json::whole(self.update_id)).with_field(
            "best_bid_price",
            opt_string_json(&self.best_bid_price),
        ).with_field("best_bid_qty", opt_string_json(&self.best_bid_qty)).with_field(
            "best_ask_price",
            opt_string_json(&self.best_ask_price),
        ).with_field("best_ask_qty", opt_string_json(&self.best_ask_qty)).with_field(
            "spread",
            opt_string_json(&self.spread),
        ).with_field("bid_count", Json::count(self.bid_count as u64)).with_field(
            "ask_count",
            Json::count(self.ask_count as u64),
        ).with_field("bids", levels_to_json(&self.bids)).with_field(
            "asks",
            levels_to_json(&self.asks),
        ).with_field("trigger_event", trigger);
        assert(j@->Object_0 =~= state_json(self@)->Object_0);
        j
    }
}

/// Optional text as JSON.
pub fn opt_string_json(s: &Option<String>) -> (j: Json)
    ensures
        j@ == json::text_or_null(json::opt_string(*s)),
{
    match s {
        Some(s) => Json::text(s.as_str()),
        None => Json::Null,
    }
}

fn copy_level(l: &BookLevel) -> (c: BookLevel)
    ensures
        c@ == l@,
{
    BookLevel { price: l.price.clone(), qty: l.qty.clone() }
}

/// Lists the levels of a side, highest price first.
pub fn list_descending(side: &BTreeMap<i64, BookLevel>) -> (list: Vec<BookLevel>)
    ensures
        levels::levels_view(list@) == levels::descending(levels::side_view(side@)),
        list@.len() == side@.dom().len(),
{
    let up: Vec<BookLevel> = list_ascending(side);
    let mut list: Vec<BookLevel> = Vec::new();
    let mut left: usize = up.len();
    while left > 0
        invariant
            left <= up@.len(),
            list@.len() + left == up@.len(),
            forall|k: int|
                0 <= k < list@.len() ==> #[trigger] list@[k]@ == up@[up@.len() - 1 - k]@,
        decreases left,
    {
        left = left - 1;
        list.push(copy_level(&up[left]));
    }
    assert(levels::levels_view(list@) =~= levels::levels_view(up@).reverse()) by {
        assert forall|k: int| 0 <= k < list@.len() implies levels::levels_view(list@)[k]
            == levels::levels_view(up@).reverse()[k] by {
            assert(list@[k]@ == up@[up@.len() - 1 - k]@);
        }
    }
    list
}

fn first_price(list: &Vec<BookLevel>) -> (p: Option<String>)
    ensures
        json::opt_string(p) == price_of(first_level(levels::levels_view(list@))),
{
    if list.len() == 0 {
        None
    } else {
        assert(levels::levels_view(list@)[0] == list@[0]@);
        Some(list[0].price.clone())
    }
}

fn first_qty(list: &Vec<BookLevel>) -> (p: Option<String>)
    ensures
        json::opt_string(p) == qty_of(first_level(levels::levels_view(list@))),
{
    if list.len() == 0 {
        None
    } else {
        assert(levels::levels_view(list@)[0] == list@[0]@);
        Some(list[0].qty.clone())
    }
}

/// How far the best prices lie apart.
pub fn spread_text(ask: &Option<String>, bid: &Option<String>) -> (s: Option<String>)
    ensures
        json::opt_string(s) == spread_of(json::opt_string(*ask), json::opt_string(*bid)),
{
    match (ask, bid) {
        (Some(ask), Some(bid)) => match (parse_dec(ask.as_str()), parse_dec(bid.as_str())) {
            (Some(a), Some(b)) => match sub_dec(a, b) {
                Some(d) => Some(d.to_text()),
                None => None,
            },
            _ => None,
        },
        _ => None,
    }
}

fn load_side(side: &mut BTreeMap<i64, BookLevel>, entries: Option<&Vec<Json>>)
    ensures
        levels::side_view(final(side)@) == match entries {
            Some(entries) => loaded_side(json::items_view(entries@)),
            None => Map::empty(),
        },
{
    side.clear();
    assert(levels::side_view(side@) =~= Map::empty());
    match entries {
        Some(entries) => {
            let ghost all = json::items_view(entries@);
            let mut i: usize = 0;
            assert(all.take(0) =~= seq![]);
            while i < entries.len()
                invariant
                    i <= entries.len(),
                    all == json::items_view(entries@),
                    levels::side_view(side@) == loaded_side(all.take(i as int)),
                decreases entries.len() - i,
            {
                proof {
                    assert(all.take(i + 1).drop_last() =~= all.take(i as int));
                    assert(all.take(i + 1).last() == entries@[i as int]@);
                }
                let first: Option<&str> = item_text(&entries[i], 0);
                let second: Option<&str> = item_text(&entries[i], 1);
                match (first, second) {
                    (Some(p), Some(q)) => set_level(side, PRICE_SCALE, p, q),
                    _ => {},
                }
                i = i + 1;
            }
            assert(all.take(all.len() as int) =~= all);
        },
        None => {},
    }
}

/// The text at a position of an array.
pub fn item_text(j: &Json, i: usize) -> (s: Option<&str>)
    ensures
        json::opt_text(s) == json::str_of(item_at(j@, i as int)),
{
    match j {
        Json::Array(items) => {
            assert(json::items_view(items@).len() == items@.len());
            if i < items.len() {
                assert(json::items_view(items@)[i as int] == items@[i as int]@);
                items[i].as_str()
            } else {
                None
            }
        },
        _ => None,
    }
}

fn apply_side(side: &mut BTreeMap<i64, BookLevel>, changes: &Vec<(String, String)>)
    ensures
        levels::side_view(final(side)@) == side_after(
            levels::side_view(old(side)@),
            json_struct::pairs_view(changes@),
        ),
{
    let ghost all = json_struct::pairs_view(changes@);
    let mut i: usize = 0;
    assert(all.take(0) =~= seq![]);
    while i < changes.len()
        invariant
            i <= changes.len(),
            all == json_struct::pairs_view(changes@),
            levels::side_view(side@) == side_after(
                levels::side_view(old(side)@),
                all.take(i as int),
            ),
        decreases changes.len() - i,
    {
        proof {
            assert(all.take(i + 1).drop_last() =~= all.take(i as int));
            assert(all.take(i + 1).last() == (changes@[i as int].0@, changes@[i as int].1@));
        }
        change_level(side, PRICE_SCALE, changes[i].0.as_str(), changes[i].1.as_str());
        i = i + 1;
    }
    assert(all.take(all.len() as int) =~= all);
}

impl BinanceBook {
    /// A book without levels.
    pub fn new() -> (book: BinanceBook)
        ensures
            book@ == empty_book(),
    {
        let book: BinanceBook = BinanceBook {
            bids: BTreeMap::new(),
            asks: BTreeMap::new(),
            update_id: 0,
        };
        assert(levels::side_view(book.bids@) =~= Map::empty());
        assert(levels::side_view(book.asks@) =~= Map::empty());
        book
    }

    /// Replaces the whole book by a snapshot.
    pub fn load_snapshot(&mut self, snap: &Json)
        ensures
            final(self)@ == book_loaded(old(self)@, snap@),
    {
        load_side(&mut self.bids, snap.array_field("bids"));
        load_side(&mut self.asks, snap.array_field("asks"));
        match snap.i64_field("lastUpdateId") {
            Some(id) => {
                self.update_id = id;
            },
            None => {},
        }
    }

    /// Applies a change: each level is set, or removed where its quantity is zero.
    pub fn apply_diff(&mut self, update: &DepthUpdateMsg)
        ensures
            final(self)@ == book_after(old(self)@, update@),
    {
        apply_side(&mut self.bids, &update.b);
        apply_side(&mut self.asks, &update.a);
        self.update_id = update.last_update_id;
    }

    /// The highest price that is bid.
    pub fn best_bid_price(&self) -> (p: Option<String>)
        ensures
            json::opt_string(p) == price_of(best_bid(self@)),
    {
        let list: Vec<BookLevel> = list_descending(&self.bids);
        first_price(&list)
    }

    /// The lowest price that is asked.
    pub fn best_ask_price(&self) -> (p: Option<String>)
        ensures
            json::opt_string(p) == price_of(best_ask(self@)),
    {
        let list: Vec<BookLevel> = list_ascending(&self.asks);
        first_price(&list)
    }

    /// The `n` best levels of each side, best first.
    pub fn top_levels(&self, n: usize) -> (top: (Vec<BookLevel>, Vec<BookLevel>))
        ensures
            levels::levels_view(top.0@) == top_of(levels::descending(self@.bids), n as int),
            levels::levels_view(top.1@) == top_of(levels::ascending(self@.asks), n as int),
    {
        let mut bids: Vec<BookLevel> = list_descending(&self.bids);
        let mut asks: Vec<BookLevel> = list_ascending(&self.asks);
        let ghost all_bids = bids@;
        let ghost all_asks = asks@;
        if bids.len() > n {
            bids.truncate(n);
        }
        if asks.len() > n {
            asks.truncate(n);
        }
        assert(levels::levels_view(bids@) =~= top_of(levels::levels_view(all_bids), n as int));
        assert(levels::levels_view(asks@) =~= top_of(levels::levels_view(all_asks), n as int));
        (bids, asks)
    }

    /// The whole book, as it is recorded after the change `first`..`last`.
    pub fn state(&self, first: i64, last: i64) -> (s: BinanceBookState)
        ensures
            s@ == state_of(self@, first, last),
    {
        let bids: Vec<BookLevel> = list_descending(&self.bids);
        let asks: Vec<BookLevel> = list_ascending(&self.asks);
        let best_bid_price: Option<String> = first_price(&bids);
        let best_ask_price: Option<String> = first_price(&asks);
        let spread: Option<String> = spread_text(&best_ask_price, &best_bid_price);
        BinanceBookState {
            update_id: self.update_id,
            best_bid_price,
            best_bid_qty: first_qty(&bids),
            best_ask_price,
            best_ask_qty: first_qty(&asks),
            spread,
            bid_count: bids.len(),
            ask_count: asks.len(),
            bids,
            asks,
            trigger_event: TriggerEvent { first_update_id: first, last_update_id: last },
        }
    }

    /// The whole book as recorded text.
    pub fn snapshot(&self, first: i64, last: i64) -> (r: RawJson)
        ensures
            r@ == state_raw(self@, first, last),
    {
        RawJson::from_json(&self.state(first, last).to_json())
    }
}

/// The first `n` of some levels, or all where there are fewer.
pub open spec fn top_of(list: Seq<LevelView>, n: int) -> Seq<LevelView> {
    if n < list.len() { list.take(n) } else { list }
}

// Laws

proof fn lemma_side_after(side: Map<i64, LevelView>, changes: Seq<(Text, Text)>, key: i64)
    ensures
        levels::shows_changes(side, side_after(side, changes), changes, 100_000_000, key),
    decreases changes.len(),
{
    if changes.len() > 0 {
        let fewer = changes.drop_last();
        lemma_side_after(side, fewer, key);
        let last = changes.last();
        let n = changes.len() - 1;
        assert(changes[n] == last);
        let after = side_after(side, changes);
        if levels::price_key(last.0, 100_000_000) == key {
            assert forall|i: int| #[trigger]
                levels::decides(changes, 100_000_000, key, i) implies i == n by {
                if i < n {
                    assert(levels::price_key(changes[n].0, 100_000_000) != key);
                }
            }
        } else {
            assert forall|i: int| #[trigger] levels::decides(changes, 100_000_000, key, i) implies (
            if levels::removes(changes[i].1) {
                !after.contains_key(key)
            } else {
                after.contains_pair(key, LevelView { price: changes[i].0, qty: changes[i].1 })
            }) by {
                assert(i != n);
                assert(fewer[i] == changes[i]);
                assert forall|j: int| i < j < fewer.len() implies levels::price_key(
                    (#[trigger] fewer[j]).0,
                    100_000_000,
                ) != key by {
                    assert(changes[j] == fewer[j]);
                }
                assert(levels::decides(fewer, 100_000_000, key, i));
            }
            if levels::silent(changes, 100_000_000, key) {
                assert forall|j: int| 0 <= j < fewer.len() implies levels::price_key(
                    (#[trigger] fewer[j]).0,
                    100_000_000,
                ) != key by {
                    assert(changes[j] == fewer[j]);
                }
            }
        }
    }
}

/// A change of the book sets or removes every level that it lists, on both sides: under each key
/// the book shows the last entry of that side with the key, no level where its quantity is zero,
/// and what it showed before where no entry has the key. It includes the last update of the
/// change.
pub proof fn changes_set_every_level(book: BookView, d: DepthView, key: i64)
    ensures
        levels::shows_changes(book.bids, book_after(book, d).bids, d.b, 100_000_000, key),
        levels::shows_changes(book.asks, book_after(book, d).asks, d.a, 100_000_000, key),
        book_after(book, d).update_id == d.last,
{
    lemma_side_after(book.bids, d.b, key);
    lemma_side_after(book.asks, d.a, key);
}

/// Price and quantity of an entry of a snapshot: the first two items of an array, both texts.
pub open spec fn is_entry(j: JsonView, price: Text, qty: Text) -> bool {
    j matches JsonView::Array(items) && items.len() >= 2 && items[0] == JsonView::Str(price)
        && items[1] == JsonView::Str(qty)
}

/// An entry of a snapshot has a key.
pub open spec fn entry_has_key(j: JsonView, key: i64) -> bool {
    exists|price: Text, qty: Text| #[trigger]
        is_entry(j, price, qty) && levels::price_key(price, 100_000_000) == key
}

/// What a side shows under a key once it was loaded: the price and the quantity of the last entry
/// with the key, and nothing where there is none.
pub open spec fn shows_entries(side: Map<i64, LevelView>, entries: Seq<JsonView>, key: i64) -> bool {
    &&& forall|i: int, price: Text, qty: Text|
        0 <= i < entries.len() && #[trigger] is_entry(entries[i], price, qty) && levels::price_key(
            price,
            100_000_000,
        ) == key && (forall|j: int|
            i < j < entries.len() ==> !entry_has_key(#[trigger] entries[j], key))
            ==> side.contains_pair(key, LevelView { price, qty })
    &&& (forall|j: int| 0 <= j < entries.len() ==> !entry_has_key(#[trigger] entries[j], key))
        ==> !side.contains_key(key)
}

proof fn lemma_loaded_side(entries: Seq<JsonView>, key: i64)
    ensures
        shows_entries(loaded_side(entries), entries, key),
    decreases entries.len(),
{
    if entries.len() > 0 {
        let fewer = entries.drop_last();
        lemma_loaded_side(fewer, key);
        let n = entries.len() - 1;
        let entry = entries[n];
        assert(entry == entries.last());
        let side = loaded_side(entries);
        let texts = (json::str_of(item_at(entry, 0)), json::str_of(item_at(entry, 1)));
        if texts.0 is Some && texts.1 is Some {
            assert(is_entry(entry, texts.0->0, texts.1->0));
        }
        assert forall|i: int, price: Text, qty: Text|
            0 <= i < entries.len() && #[trigger] is_entry(entries[i], price, qty)
                && levels::price_key(price, 100_000_000) == key && (forall|j: int|
                i < j < entries.len() ==> !entry_has_key(
                    #[trigger] entries[j],
                    key,
                )) implies side.contains_pair(key, LevelView { price, qty }) by {
            if i < n {
                assert(!entry_has_key(entries[n], key));
                assert(is_entry(fewer[i], price, qty));
                assert forall|j: int| i < j < fewer.len() implies !entry_has_key(
                    #[trigger] fewer[j],
                    key,
                ) by {
                    assert(entries[j] == fewer[j]);
                }
                assert(loaded_side(fewer).contains_pair(key, LevelView { price, qty }));
            }
        }
        if forall|j: int| 0 <= j < entries.len() ==> !entry_has_key(#[trigger] entries[j], key) {
            assert(!entry_has_key(entries[n], key));
            assert forall|j: int| 0 <= j < fewer.len() implies !entry_has_key(
                #[trigger] fewer[j],
                key,
            ) by {
                assert(entries[j] == fewer[j]);
            }
        }
    }
}

/// A snapshot sets every level that it lists, each on its own side, and leaves no other: under
/// each key the book shows the last entry with the key, or nothing. It includes the update that
/// the snapshot names.
pub proof fn snapshots_set_every_level(
    book: BookView,
    snap: JsonView,
    bids: Seq<JsonView>,
    asks: Seq<JsonView>,
    id: i64,
    key: i64,
)
    requires
        json::field(snap, "bids"@) == JsonView::Array(bids),
        json::field(snap, "asks"@) == JsonView::Array(asks),
        json::field(snap, "lastUpdateId"@) == json::num(id as int),
    ensures
        shows_entries(book_loaded(book, snap).bids, bids, key),
        shows_entries(book_loaded(book, snap).asks, asks, key),
        book_loaded(book, snap).update_id == id,
{
    lemma_loaded_side(bids, key);
    lemma_loaded_side(asks, key);
}

/// A recorded book tells the bid with the highest price and the ask with the lowest one, counts
/// the levels of both sides, and lists them all, the best ones first.
pub proof fn recorded_books_tell_the_best_levels(book: BookView, first: i64, last: i64)
    requires
        book.bids.dom().finite(),
        book.asks.dom().finite(),
    ensures
        ({
            let s = state_of(book, first, last);
            &&& s.update_id == book.update_id
            &&& s.first_update_id == first && s.last_update_id == last
            &&& s.bid_count == book.bids.dom().len() && s.ask_count == book.asks.dom().len()
            &&& s.bids == levels::descending(book.bids)
            &&& s.asks == levels::ascending(book.asks)
            &&& book.bids.dom().len() == 0 ==> s.best_bid_price is None && s.best_bid_qty is None
            &&& book.asks.dom().len() == 0 ==> s.best_ask_price is None && s.best_ask_qty is None
            &&& book.bids.dom().len() > 0 ==> s.best_bid_price is Some && s.best_bid_qty is Some
                && levels::is_highest(
                book.bids,
                LevelView { price: s.best_bid_price->0, qty: s.best_bid_qty->0 },
            )
            &&& book.asks.dom().len() > 0 ==> s.best_ask_price is Some && s.best_ask_qty is Some
                && levels::is_lowest(
                book.asks,
                LevelView { price: s.best_ask_price->0, qty: s.best_ask_qty->0 },
            )
        }),
{
    levels::first_levels_are_best(book.bids);
    levels::first_levels_are_best(book.asks);
    levels::listing_is_sorted(book.bids);
    levels::listing_is_sorted(book.asks);
}

/// The spread is the best ask less the best bid, and there is none where one of them is missing or
/// no number.
pub proof fn spreads_are_differences(ask: Text, bid: Text)
    ensures
        spread_of(None, Some(bid)) is None && spread_of(Some(ask), None) is None,
        spread_of(None, None) is None,
        decimal::decimal_of_text(ask) is None || decimal::decimal_of_text(bid) is None
            ==> spread_of(Some(ask), Some(bid)) is None,
        decimal::decimal_of_text(ask) is Some && decimal::decimal_of_text(bid) is Some ==> spread_of(
            Some(ask),
            Some(bid),
        ) == (match decimal::decimal_difference(
            decimal::decimal_of_text(ask)->0,
            decimal::decimal_of_text(bid)->0,
        ) {
            Some((mantissa, scale)) => Some(
                decimal::dec_text(decimal::Dec { mantissa, scale }),
            ),
            None => None,
        }),
{
}

/// The values are those of an object under the fields of a stream.
pub open spec fn are_fields(v: Seq<JsonView>, s: Stream, data: JsonView) -> bool {
    v.len() == fields_of(s).len() && forall|i: int|
        0 <= i < v.len() ==> #[trigger] v[i] == json::field(data, fields_of(s)[i])
}

/// The best prices are read by their letters: small ones for the prices, capital ones for what is
/// offered at them, `b` for the bid and `a` for the ask.
pub proof fn prices_are_read_by_their_letters(
    v: Seq<JsonView>,
    data: JsonView,
    bid: Text,
    bid_qty: Text,
    ask: Text,
    ask_qty: Text,
    u: i64,
)
    requires
        are_fields(v, Stream::BookTicker, data),
        json::field(data, "b"@) == JsonView::Str(bid),
        json::field(data, "B"@) == JsonView::Str(bid_qty),
        json::field(data, "a"@) == JsonView::Str(ask),
        json::field(data, "A"@) == JsonView::Str(ask_qty),
        json::field(data, "u"@) == json::num(u as int),
    ensures
        msg_of(Stream::BookTicker, v) == Some(
            MsgView::BookTicker(TickerView { b: bid, bid_qty, a: ask, ask_qty, u }),
        ),
{
    assert(v[0] == json::field(data, fields_of(Stream::BookTicker)[0]));
    assert(v[1] == json::field(data, fields_of(Stream::BookTicker)[1]));
    assert(v[2] == json::field(data, fields_of(Stream::BookTicker)[2]));
    assert(v[3] == json::field(data, fields_of(Stream::BookTicker)[3]));
    assert(v[4] == json::field(data, fields_of(Stream::BookTicker)[4]));
}

/// A trade is read by its letters: its price, its size, its number, when it happened, when it was
/// told, and whether the buyer was there first.
pub proof fn trades_are_read_by_their_letters(
    v: Seq<JsonView>,
    data: JsonView,
    price: Text,
    qty: Text,
    id: i64,
    trade_time: i64,
    event_time: i64,
    maker: bool,
)
    requires
        are_fields(v, Stream::Trade, data),
        json::field(data, "p"@) == JsonView::Str(price),
        json::field(data, "q"@) == JsonView::Str(qty),
        json::field(data, "t"@) == json::num(id as int),
        json::field(data, "T"@) == json::num(trade_time as int),
        json::field(data, "E"@) == json::num(event_time as int),
        json::field(data, "m"@) == JsonView::Bool(maker),
    ensures
        msg_of(Stream::Trade, v) == Some(
            MsgView::Trade(
                TradeView { p: price, q: qty, t: id, trade_time, event_time, m: maker },
            ),
        ),
{
    assert(v[0] == json::field(data, fields_of(Stream::Trade)[0]));
    assert(v[1] == json::field(data, fields_of(Stream::Trade)[1]));
    assert(v[2] == json::field(data, fields_of(Stream::Trade)[2]));
    assert(v[3] == json::field(data, fields_of(Stream::Trade)[3]));
    assert(v[4] == json::field(data, fields_of(Stream::Trade)[4]));
    assert(v[5] == json::field(data, fields_of(Stream::Trade)[5]));
}

/// The value lists pairs of texts.
pub open spec fn lists_pairs(j: JsonView, pairs: Seq<(Text, Text)>) -> bool {
    j is Array && j->Array_0.len() == pairs.len() && forall|i: int|
        0 <= i < pairs.len() ==> #[trigger] j->Array_0[i] == JsonView::Array(
            seq![JsonView::Str(pairs[i].0), JsonView::Str(pairs[i].1)],
        )
}

/// Pairs of texts are read in their order, the price before the quantity.
pub proof fn pairs_are_read_in_order(j: JsonView, pairs: Seq<(Text, Text)>)
    requires
        lists_pairs(j, pairs),
    ensures
        pairs_of(j) == Some(pairs),
{
    let items = j->Array_0;
    assert forall|i: int| 0 <= i < items.len() implies pair_of(#[trigger] items[i]) == Some(
        pairs[i],
    ) by {
        let two = seq![JsonView::Str(pairs[i].0), JsonView::Str(pairs[i].1)];
        assert(two[0] == JsonView::Str(pairs[i].0) && two[1] == JsonView::Str(pairs[i].1));
    }
    assert(items.map_values(|j: JsonView| pair_of(j)->0) =~= pairs);
}

/// A change of the book is read by its letters: the updates from `U` to `u`, and the levels of the
/// bids and the asks in their order.
pub proof fn changes_are_read_by_their_letters(
    v: Seq<JsonView>,
    data: JsonView,
    first: i64,
    last: i64,
    bids: Seq<(Text, Text)>,
    asks: Seq<(Text, Text)>,
)
    requires
        are_fields(v, Stream::Depth, data),
        json::field(data, "U"@) == json::num(first as int),
        json::field(data, "u"@) == json::num(last as int),
        lists_pairs(json::field(data, "b"@), bids),
        lists_pairs(json::field(data, "a"@), asks),
    ensures
        msg_of(Stream::Depth, v) == Some(
            MsgView::Depth(DepthView { first, last, b: bids, a: asks }),
        ),
{
    assert(v[0] == json::field(data, fields_of(Stream::Depth)[0]));
    assert(v[1] == json::field(data, fields_of(Stream::Depth)[1]));
    assert(v[2] == json::field(data, fields_of(Stream::Depth)[2]));
    assert(v[3] == json::field(data, fields_of(Stream::Depth)[3]));
    pairs_are_read_in_order(v[2], bids);
    pairs_are_read_in_order(v[3], asks);
}

/// A stream is one of trades where its name ends so; otherwise one of the best prices where it
/// names the book ticker, and one of the book where it names the depth.
pub proof fn streams_are_told_by_their_names(name: Text)
    ensures
        stream_of(name) == Some(Stream::Trade) <==> text::has_suffix(name, "@trade"@),
        stream_of(name) == Some(Stream::BookTicker) <==> !text::has_suffix(name, "@trade"@)
            && text::has_infix(name, "bookTicker"@),
        stream_of(name) == Some(Stream::Depth) <==> !text::has_suffix(name, "@trade"@)
            && !text::has_infix(name, "bookTicker"@) && text::has_infix(name, "depth"@),
{
}

/// A list is refused as a whole where one of its items is not a pair of two texts.
pub proof fn odd_pairs_are_refused(items: Seq<JsonView>, i: int)
    requires
        0 <= i < items.len(),
        !(items[i] is Array) || items[i]->Array_0.len() != 2 || !(items[i]->Array_0[0] is Str) || !(
        items[i]->Array_0[1] is Str),
    ensures
        pair_of(items[i]) is None,
        pairs_of(JsonView::Array(items)) is None,
{
}

/// A message is read only where all its fields are there and of their kind.
pub proof fn incomplete_messages_are_refused(s: Stream, v: Seq<JsonView>)
    requires
        msg_of(s, v) is Some,
    ensures
        v.len() == fields_of(s).len(),
        s == Stream::Trade ==> v[0] is Str && v[1] is Str && v[2] is Number && v[3] is Number && v[4]
            is Number && v[5] is Bool,
        s == Stream::Depth ==> v[0] is Number && v[1] is Number && v[2] is Array && v[3] is Array,
        s == Stream::BookTicker ==> v[0] is Str && v[1] is Str && v[2] is Str && v[3] is Str && v[4]
            is Number,
{
}

/// A book is recorded with its best prices, its spread, how many levels each side has, the first of
/// them, and the updates of the change that led to it, each under its name.
pub proof fn books_are_recorded_by_name(s: BookStateView)
    ensures
        ({
            let j = state_json(s);
            let t = json::field(j, "trigger_event"@);
            &&& json::field(j, "update_id"@) == json::num(s.update_id as int)
            &&& json::field(j, "best_bid_price"@) == json::text_or_null(s.best_bid_price)
            &&& json::field(j, "best_bid_qty"@) == json::text_or_null(s.best_bid_qty)
            &&& json::field(j, "best_ask_price"@) == json::text_or_null(s.best_ask_price)
            &&& json::field(j, "best_ask_qty"@) == json::text_or_null(s.best_ask_qty)
            &&& json::field(j, "spread"@) == json::text_or_null(s.spread)
            &&& json::field(j, "bid_count"@) == json::num(s.bid_count as int)
            &&& json::field(j, "ask_count"@) == json::num(s.ask_count as int)
            &&& json::field(j, "bids"@) == levels_json(s.bids)
            &&& json::field(j, "asks"@) == levels_json(s.asks)
            &&& json::field(t, "U"@) == json::num(s.first_update_id as int)
            &&& json::field(t, "u"@) == json::num(s.last_update_id as int)
        }),
{
    reveal_strlit("update_id");
    reveal_strlit("best_bid_price");
    reveal_strlit("best_bid_qty");
    reveal_strlit("best_ask_price");
    reveal_strlit("best_ask_qty");
    reveal_strlit("spread");
    reveal_strlit("bid_count");
    reveal_strlit("ask_count");
    reveal_strlit("bids");
    reveal_strlit("asks");
    reveal_strlit("trigger_event");
    reveal_strlit("U");
    reveal_strlit("u");
    assert("update_id"@.len() == 9 && "update_id"@[0] == 'u' && "bid_count"@.len() == 9
        && "bid_count"@[0] == 'b' && "ask_count"@.len() == 9 && "ask_count"@[0] == 'a');
    assert("best_bid_price"@.len() == 14 && "best_bid_price"@[5] == 'b' && "best_ask_price"@.len()
        == 14 && "best_ask_price"@[5] == 'a');
    assert("best_bid_qty"@.len() == 12 && "best_bid_qty"@[5] == 'b' && "best_ask_qty"@.len() == 12
        && "best_ask_qty"@[5] == 'a');
    assert("spread"@.len() == 6 && "bids"@.len() == 4 && "bids"@[0] == 'b' && "asks"@.len() == 4
        && "asks"@[0] == 'a' && "trigger_event"@.len() == 13);
    assert("U"@[0] == 'U' && "u"@[0] == 'u');
    let fields = state_json(s)->Object_0;
    json::first_fields_are_found(fields, 0);
    json::first_fields_are_found(fields, 1);
    json::first_fields_are_found(fields, 2);
    json::first_fields_are_found(fields, 3);
    json::first_fields_are_found(fields, 4);
    json::first_fields_are_found(fields, 5);
    json::first_fields_are_found(fields, 6);
    json::first_fields_are_found(fields, 7);
    json::first_fields_are_found(fields, 8);
    json::first_fields_are_found(fields, 9);
    json::first_fields_are_found(fields, 10);
    json::first_fields_are_found(fields[10].1->Object_0, 0);
    json::first_fields_are_found(fields[10].1->Object_0, 1);
}

/// Levels are recorded in their order, the price before the quantity.
pub proof fn levels_are_recorded_in_order(list: Seq<LevelView>, i: int)
    requires
        0 <= i < list.len(),
    ensures
        levels_json(list) is Array,
        levels_json(list)->Array_0.len() == list.len(),
        levels_json(list)->Array_0[i] == JsonView::Array(
            seq![JsonView::Str(list[i].price), JsonView::Str(list[i].qty)],
        ),
{
}

/// A book is recorded with the updates of the change that led to it.
pub proof fn books_are_recorded_with_their_change(book: BookView, first: i64, last: i64)
    ensures
        state_raw(book, first, last) == RawView::Raw(
            json::json_text(state_json(state_of(book, first, last))),
        ),
        state_of(book, first, last).first_update_id == first,
        state_of(book, first, last).last_update_id == last,
        state_of(book, first, last).update_id == book.update_id,
{
}

} // verus!
