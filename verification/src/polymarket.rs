//! The order books of a prediction market and the messages that change them.

use std::collections::BTreeMap;

use vstd::prelude::*;
use vstd::string::*;

use crate::binance;
use crate::binance::{levels_to_json, list_descending, opt_string_json};
use crate::json;
use crate::json::{Json, JsonView};
use crate::levels;
use crate::levels::{change_level, list_ascending, set_level, BookLevel, LevelView};
use crate::poly_feed;
use crate::poly_feed::{copy_hasher, key_with, new_hasher};
use crate::text;
use crate::text::{chars_of, join2, same_text, Text};
use crate::types;
use crate::types::{emit, Event, EventView, RawJson, RawView};

verus! {

/// Units of which one makes a price step of a millionth.
pub const TOKEN_SCALE: i64 = 1_000_000;

// Order book

/// The order book of one token.
pub struct LocalBook {
    pub bids: BTreeMap<i64, BookLevel>,
    pub asks: BTreeMap<i64, BookLevel>,
}

/// What the order book of one token holds.
pub struct LocalView {
    pub bids: Map<i64, LevelView>,
    pub asks: Map<i64, LevelView>,
}

impl View for LocalBook {
    type V = LocalView;

    open spec fn view(&self) -> LocalView {
        LocalView {
            bids: levels::side_view(self.bids@),
            asks: levels::side_view(self.asks@),
        }
    }
}

/// A book without levels.
pub open spec fn empty_local() -> LocalView {
    LocalView { bids: Map::empty(), asks: Map::empty() }
}

/// Price and size of an entry: an object that names them, or an array that starts with
/// them.
pub open spec fn entry_of(j: JsonView) -> Option<(Text, Text)> {
    match j {
        JsonView::Object(_) => match (
            json::str_of(json::field(j, "price"@)),
            json::str_of(json::field(j, "size"@)),
        ) {
            (Some(price), Some(size)) => Some((price, size)),
            _ => None,
        },
        JsonView::Array(items) => match (
            json::str_of(binance::item_at(j, 0)),
            json::str_of(binance::item_at(j, 1)),
        ) {
            (Some(price), Some(size)) => Some((price, size)),
            _ => None,
        },
        _ => None,
    }
}

/// The levels of a full book, of which a later one replaces an earlier one of the same
/// price. Entries without price and size do not count.
pub open spec fn replaced_side(entries: Seq<JsonView>) -> Map<i64, LevelView>
    decreases entries.len(),
{
    if entries.len() == 0 {
        Map::empty()
    } else {
        let earlier = replaced_side(entries.drop_last());
        match entry_of(entries.last()) {
            Some((price, size)) => levels::with_level(earlier, TOKEN_SCALE as int, price, size),
            None => earlier,
        }
    }
}

/// The levels in `j`, where that is an array.
pub open spec fn side_of(j: JsonView) -> Map<i64, LevelView> {
    match json::items_of(j) {
        Some(entries) => replaced_side(entries),
        None => Map::empty(),
    }
}

/// The book after both sides were replaced: nothing of the earlier levels is left.
pub open spec fn replaced_book(bids: JsonView, asks: JsonView) -> LocalView {
    LocalView { bids: side_of(bids), asks: side_of(asks) }
}

/// The book after one level was changed.
pub open spec fn delta_book(book: LocalView, side: Text, price: Text, size: Text) -> LocalView {
    if side == "BUY"@ {
        LocalView { bids: levels::changed(book.bids, TOKEN_SCALE as int, price, size), ..book }
    } else {
        LocalView { asks: levels::changed(book.asks, TOKEN_SCALE as int, price, size), ..book }
    }
}

/// The whole book of a token, as it is recorded.
pub struct PolyBookState {
    pub bid_count: usize,
    pub ask_count: usize,
    pub bids: Vec<BookLevel>,
    pub asks: Vec<BookLevel>,
    pub best_bid: Option<String>,
    pub best_ask: Option<String>,
    pub asset_id: String,
    pub last_trade_price: Option<String>,
    pub trigger_event_type: String,
}

/// What a recorded book of a token holds.
pub struct PolyStateView {
    pub bid_count: nat,
    pub ask_count: nat,
    pub bids: Seq<LevelView>,
    pub asks: Seq<LevelView>,
    pub best_bid: Option<Text>,
    pub best_ask: Option<Text>,
    pub asset_id: Text,
    pub last_trade_price: Option<Text>,
    pub trigger_event_type: Text,
}

impl View for PolyBookState {
    type V = PolyStateView;

    open spec fn view(&self) -> PolyStateView {
        PolyStateView {
            bid_count: self.bid_count as nat,
            ask_count: self.ask_count as nat,
            bids: levels::levels_view(self.bids@),
            asks: levels::levels_view(self.asks@),
            best_bid: json::opt_string(self.best_bid),
            best_ask: json::opt_string(self.best_ask),
            asset_id: self.asset_id@,
            last_trade_price: json::opt_string(self.last_trade_price),
            trigger_event_type: self.trigger_event_type@,
        }
    }
}

/// The highest price that is bid for a token.
pub open spec fn local_best_bid(book: LocalView) -> Option<Text> {
    binance::price_of(binance::first_level(levels::descending(book.bids)))
}

/// The lowest price that is asked for a token.
pub open spec fn local_best_ask(book: LocalView) -> Option<Text> {
    binance::price_of(binance::first_level(levels::ascending(book.asks)))
}

/// The book of a token as it is recorded.
pub open spec fn poly_state(
    book: LocalView,
    asset_id: Text,
    last_trade_price: Option<Text>,
    trigger: Text,
) -> PolyStateView {
    PolyStateView {
        bid_count: levels::descending(book.bids).len(),
        ask_count: levels::ascending(book.asks).len(),
        bids: levels::descending(book.bids),
        asks: levels::ascending(book.asks),
        best_bid: local_best_bid(book),
        best_ask: local_best_ask(book),
        asset_id,
        last_trade_price,
        trigger_event_type: trigger,
    }
}

/// The recorded book of a token as JSON.
pub open spec fn poly_state_json(s: PolyStateView) -> JsonView {
    JsonView::Object(
        seq![
            ("bid_count"@, json::num(s.bid_count as int)),
            ("ask_count"@, json::num(s.ask_count as int)),
            ("bids"@, binance::levels_json(s.bids)),
            ("asks"@, binance::levels_json(s.asks)),
            ("best_bid"@, json::text_or_null(s.best_bid)),
            ("best_ask"@, json::text_or_null(s.best_ask)),
            ("asset_id"@, JsonView::Str(s.asset_id)),
            ("last_trade_price"@, json::text_or_null(s.last_trade_price)),
            ("trigger_event_type"@, JsonView::Str(s.trigger_event_type)),
        ],
    )
}

/// The recorded book of a token, in text.
pub open spec fn poly_state_raw(
    book: LocalView,
    asset_id: Text,
    last_trade_price: Option<Text>,
    trigger: Text,
) -> RawView {
    RawView::Raw(
        json::json_text(poly_state_json(poly_state(book, asset_id, last_trade_price, trigger))),
    )
}

impl PolyBookState {
    /// This state as JSON.
    pub fn to_json(&self) -> (j: Json)
        ensures
            j@ == poly_state_json(self@),
    {
        let j: Json = Json::object3(
            "bid_count",
            Json::count(self.bid_count as u64),
            "ask_count",
            Json::count(self.ask_count as u64),
            "bids",
            levels_to_json(&self.bids),
        ).with_field("asks", levels_to_json(&self.asks)).with_field(
            "best_bid",
            opt_string_json(&self.best_bid),
        ).with_field("best_ask", opt_string_json(&self.best_ask)).with_field(
            "asset_id",
            Json::text(self.asset_id.as_str()),
        ).with_field("last_trade_price", opt_string_json(&self.last_trade_price)).with_field(
            "trigger_event_type",
            Json::text(self.trigger_event_type.as_str()),
        );
        assert(j@->Object_0 =~= poly_state_json(self@)->Object_0);
        j
    }
}

/// Price and size of an entry.
pub fn price_size(entry: &Json) -> (p: Option<(&str, &str)>)
    ensures
        match p {
            Some((price, size)) => entry_of(entry@) == Some((price@, size@)),
            None => entry_of(entry@) is None,
        },
{
    match entry {
        Json::Object(_) => match (entry.str_field("price"), entry.str_field("size")) {
            (Some(price), Some(size)) => Some((price, size)),
            _ => None,
        },
        Json::Array(_) => match (binance::item_text(entry, 0), binance::item_text(entry, 1)) {
            (Some(price), Some(size)) => Some((price, size)),
            _ => None,
        },
        _ => None,
    }
}

fn replace_side(side: &mut BTreeMap<i64, BookLevel>, entries: Option<&Json>)
    ensures
        levels::side_view(final(side)@) == match json::opt_json(entries) {
            Some(j) => side_of(j),
            None => Map::empty(),
        },
{
    side.clear();
    assert(levels::side_view(side@) =~= Map::empty());
    match entries {
        Some(Json::Array(items)) => {
            let ghost all = json::items_view(items@);
            let mut i: usize = 0;
            assert(all.take(0) =~= seq![]);
            while i < items.len()
                invariant
                    i <= items.len(),
                    all == json::items_view(items@),
                    levels::side_view(side@) == replaced_side(all.take(i as int)),
                decreases items.len() - i,
            {
                proof {
                    assert(all.take(i + 1).drop_last() =~= all.take(i as int));
                    assert(all.take(i + 1).last() == items@[i as int]@);
                }
                match price_size(&items[i]) {
                    Some((price, size)) => set_level(side, TOKEN_SCALE, price, size),
                    None => {},
                }
                i = i + 1;
            }
            assert(all.take(all.len() as int) =~= all);
        },
        _ => {},
    }
}

fn first_price_of(list: &Vec<BookLevel>) -> (p: Option<String>)
    ensures
        json::opt_string(p) == binance::price_of(
            binance::first_level(levels::levels_view(list@)),
        ),
{
    if list.len() == 0 {
        None
    } else {
        assert(levels::levels_view(list@)[0] == list@[0]@);
        Some(list[0].price.clone())
    }
}

fn opt_to_string(s: Option<&str>) -> (o: Option<String>)
    ensures
        json::opt_string(o) == json::opt_text(s),
{
    match s {
        Some(s) => Some(s.to_owned()),
        None => None,
    }
}

impl LocalBook {
    /// A book without levels.
    pub fn new() -> (book: LocalBook)
        ensures
            book@ == empty_local(),
    {
        let book: LocalBook = LocalBook { bids: BTreeMap::new(), asks: BTreeMap::new() };
        assert(levels::side_view(book.bids@) =~= Map::empty());
        assert(levels::side_view(book.asks@) =~= Map::empty());
        book
    }

    /// Replaces both sides. A side that is no array is left empty.
    pub fn replace(&mut self, bids: Option<&Json>, asks: Option<&Json>)
        ensures
            final(self)@ == replaced_book(value_or_null(bids), value_or_null(asks)),
    {
        replace_side(&mut self.bids, bids);
        replace_side(&mut self.asks, asks);
    }

    /// Changes one level: a bid where `side` is `BUY`, an ask otherwise. A size of zero
    /// removes it.
    pub fn apply_delta(&mut self, side: &str, price: &str, size: &str)
        ensures
            final(self)@ == delta_book(old(self)@, side@, price@, size@),
    {
        if same_text(side, "BUY") {
            change_level(&mut self.bids, TOKEN_SCALE, price, size);
        } else {
            change_level(&mut self.asks, TOKEN_SCALE, price, size);
        }
    }

    /// The highest price that is bid.
    pub fn best_bid(&self) -> (p: Option<String>)
        ensures
            json::opt_string(p) == local_best_bid(self@),
    {
        first_price_of(&list_descending(&self.bids))
    }

    /// The lowest price that is asked.
    pub fn best_ask(&self) -> (p: Option<String>)
        ensures
            json::opt_string(p) == local_best_ask(self@),
    {
        first_price_of(&list_ascending(&self.asks))
    }

    /// The whole book, as it is recorded.
    pub fn state(&self, asset_id: &str, last_trade_price: Option<&str>, trigger: &str) -> (s:
        PolyBookState)
        ensures
            s@ == poly_state(self@, asset_id@, json::opt_text(last_trade_price), trigger@),
    {
        let bids: Vec<BookLevel> = list_descending(&self.bids);
        let asks: Vec<BookLevel> = list_ascending(&self.asks);
        let best_bid: Option<String> = first_price_of(&bids);
        let best_ask: Option<String> = first_price_of(&asks);
        PolyBookState {
            bid_count: bids.len(),
            ask_count: asks.len(),
            bids,
            asks,
            best_bid,
            best_ask,
            asset_id: asset_id.to_owned(),
            last_trade_price: opt_to_string(last_trade_price),
            trigger_event_type: trigger.to_owned(),
        }
    }

    /// The whole book as recorded text.
    pub fn snapshot_full(
        &self,
        asset_id: &str,
        last_trade_price: Option<&str>,
        trigger: &str,
    ) -> (r: RawJson)
        ensures
            r@ == poly_state_raw(self@, asset_id@, json::opt_text(last_trade_price), trigger@),
    {
        RawJson::from_json(&self.state(asset_id, last_trade_price, trigger).to_json())
    }
}

/// An optional value, or null.
pub open spec fn value_or_null(j: Option<&Json>) -> JsonView {
    match json::opt_json(j) {
        Some(j) => j,
        None => JsonView::Null,
    }
}

// The state of a market

/// The trade prices that are known, by token.
pub uninterp spec fn trades_in(m: dashmap::DashMap<String, String, ahash::RandomState>) -> Map<
    Seq<char>,
    Seq<char>,
>;

/// The keys that a set holds.
pub uninterp spec fn keys_in(s: dashmap::DashSet<u64, ahash::RandomState>) -> Set<u64>;

/// `dashmap`'s map, as it is.
#[verifier::external_type_specification]
#[verifier::external_body]
#[verifier::reject_recursive_types(K)]
#[verifier::reject_recursive_types(V)]
#[verifier::reject_recursive_types(S)]
pub struct ExDashMap<K, V, S>(dashmap::DashMap<K, V, S>);

/// `dashmap`'s set, as it is.
#[verifier::external_type_specification]
#[verifier::external_body]
#[verifier::reject_recursive_types(K)]
#[verifier::reject_recursive_types(S)]
pub struct ExDashSet<K, S>(dashmap::DashSet<K, S>);

/// `ahash`'s source of hashers, as it is.
#[verifier::external_type_specification]
#[verifier::external_body]
pub struct ExRandomState(ahash::RandomState);

/// Makes an empty map with `DashMap::with_hasher`.
#[verifier::external_body]
fn no_trades() -> (m: dashmap::DashMap<String, String, ahash::RandomState>)
    ensures
        trades_in(m) == no_trade_known(),
{
    dashmap::DashMap::with_hasher(ahash::RandomState::new())
}

/// Sets the value of a key with `DashMap::insert`; other keys keep theirs.
#[verifier::external_body]
fn set_trade(
    m: &mut dashmap::DashMap<String, String, ahash::RandomState>,
    asset_id: &str,
    price: &str,
)
    ensures
        trades_in(*final(m)) == trades_in(*old(m)).insert(asset_id@, price@),
{
    m.insert(asset_id.to_owned(), price.to_owned());
}

/// Reads the value of a key with `DashMap::get`.
#[verifier::external_body]
fn get_trade(m: &dashmap::DashMap<String, String, ahash::RandomState>, asset_id: &str) -> (price:
    Option<String>)
    ensures
        json::opt_string(price) == opt_trade(trades_in(*m), asset_id@),
{
    m.get(asset_id).map(|entry| entry.value().clone())
}

/// Makes an empty set with `DashSet::with_hasher`.
#[verifier::external_body]
fn no_keys() -> (s: dashmap::DashSet<u64, ahash::RandomState>)
    ensures
        keys_in(s) == Set::<u64>::empty(),
{
    dashmap::DashSet::with_hasher(ahash::RandomState::new())
}

/// Adds a key with `DashSet::insert`, which tells whether it is new.
#[verifier::external_body]
fn add_key(s: &mut dashmap::DashSet<u64, ahash::RandomState>, key: u64) -> (new: bool)
    ensures
        new == !keys_in(*old(s)).contains(key),
        keys_in(*final(s)) == keys_in(*old(s)).insert(key),
{
    s.insert(key)
}

/// No token has a trade price.
pub open spec fn no_trade_known() -> Map<Text, Text> {
    Map::empty()
}

/// The last trade price of a token.
pub open spec fn opt_trade(trades: Map<Text, Text>, asset_id: Text) -> Option<Text> {
    if trades.contains_key(asset_id) { Some(trades[asset_id]) } else { None }
}

/// The state of a market that all connections share: one book for each token, the last
/// trade prices, the keys of the messages that were seen, and the hasher that the keys
/// start from.
pub struct PolySession {
    pub token_ids: Vec<String>,
    books: Vec<(String, LocalBook)>,
    last_trade: dashmap::DashMap<String, String, ahash::RandomState>,
    seen: dashmap::DashSet<u64, ahash::RandomState>,
    hasher: ahash::AHasher,
}

/// What the state of a market holds.
pub struct PolyView {
    pub token_ids: Seq<Text>,
    pub books: Map<Text, LocalView>,
    pub last_trade: Map<Text, Text>,
    pub seen: Set<u64>,
    pub hasher: ahash::AHasher,
}

/// Where the book of a token stands.
pub open spec fn stands_for(books: Seq<(String, LocalBook)>, id: Text, i: int) -> bool {
    0 <= i < books.len() && books[i].0@ == id
}

/// Whether a token has a book.
pub open spec fn has_book(books: Seq<(String, LocalBook)>, id: Text) -> bool {
    exists|i: int| stands_for(books, id, i)
}

/// The books by token.
pub open spec fn books_view(books: Seq<(String, LocalBook)>) -> Map<Text, LocalView> {
    Map::new(
        |id: Text| exists|i: int| stands_for(books, id, i),
        |id: Text| books[choose|i: int| stands_for(books, id, i)].1@,
    )
}

/// No token has two books.
pub open spec fn distinct_ids(books: Seq<(String, LocalBook)>) -> bool {
    forall|i: int, j: int|
        0 <= i < books.len() && 0 <= j < books.len() && books[i].0@ == books[j].0@ ==> i == j
}

impl View for PolySession {
    type V = PolyView;

    closed spec fn view(&self) -> PolyView {
        PolyView {
            token_ids: json::strings(self.token_ids@),
            books: books_view(self.books@),
            last_trade: trades_in(self.last_trade),
            seen: keys_in(self.seen),
            hasher: self.hasher,
        }
    }
}

proof fn lemma_book_at(books: Seq<(String, LocalBook)>, i: int)
    requires
        distinct_ids(books),
        0 <= i < books.len(),
    ensures
        books_view(books).contains_key(books[i].0@),
        books_view(books)[books[i].0@] == books[i].1@,
{
    assert(stands_for(books, books[i].0@, i));
}

proof fn lemma_book_changed(
    before: Seq<(String, LocalBook)>,
    after: Seq<(String, LocalBook)>,
    i: int,
)
    requires
        distinct_ids(before),
        0 <= i < before.len(),
        after.len() == before.len(),
        forall|k: int| 0 <= k < before.len() && k != i ==> after[k] == before[k],
        after[i].0@ == before[i].0@,
    ensures
        distinct_ids(after),
        books_view(after) == books_view(before).insert(before[i].0@, after[i].1@),
{
    assert forall|k: int| 0 <= k < after.len() implies after[k].0@ == before[k].0@ by {}
    assert(distinct_ids(after));
    let wanted = books_view(before).insert(before[i].0@, after[i].1@);
    assert forall|id: Text| books_view(after).contains_key(id) <==> wanted.contains_key(id) by {
        if exists|k: int| stands_for(after, id, k) {
            let k = choose|k: int| stands_for(after, id, k);
            assert(stands_for(before, id, k));
        }
        if exists|k: int| stands_for(before, id, k) {
            let k = choose|k: int| stands_for(before, id, k);
            assert(stands_for(after, id, k));
        }
        assert(stands_for(after, before[i].0@, i));
    }
    assert forall|id: Text| books_view(after).contains_key(id) implies books_view(after)[id]
        == wanted[id] by {
        let k = choose|k: int| stands_for(after, id, k);
        lemma_book_at(after, k);
        if k != i {
            lemma_book_at(before, k);
        }
    }
    assert(books_view(after) =~= wanted);
}

// Processing messages

/// Text without the quotation marks in front.
pub open spec fn without_leading_quotes(s: Text) -> Text
    decreases s.len(),
{
    if s.len() > 0 && s[0] == '"' {
        without_leading_quotes(s.drop_first())
    } else {
        s
    }
}

/// Text without the quotation marks at the end.
pub open spec fn without_trailing_quotes(s: Text) -> Text
    decreases s.len(),
{
    if s.len() > 0 && s.last() == '"' {
        without_trailing_quotes(s.drop_last())
    } else {
        s
    }
}

/// Text without the quotation marks around it.
pub open spec fn unquoted(s: Text) -> Text {
    without_trailing_quotes(without_leading_quotes(s))
}

/// The text of a value: what a string holds, the JSON text of anything else.
pub open spec fn plain_text(j: JsonView) -> Text {
    match json::str_of(j) {
        Some(s) => s,
        None => json::json_text(j),
    }
}

/// The type of a message.
pub open spec fn event_type_of(msg: JsonView) -> Text {
    match json::str_of(json::field(msg, "event_type"@)) {
        Some(s) => s,
        None => "unknown"@,
    }
}

/// The token that a message is about.
pub open spec fn asset_of(msg: JsonView) -> Text {
    match json::str_of(json::field(msg, "asset_id"@)) {
        Some(s) => s,
        None => ""@,
    }
}

/// A record of a message as it came.
pub open spec fn raw_event(name: Text, msg: JsonView, normalized: JsonView) -> EventView {
    types::data_event(
        name,
        RawView::Raw(json::json_text(msg)),
        RawView::Value(normalized),
    )
}

/// The token of a message.
pub open spec fn asset_json(asset_id: Text) -> JsonView {
    JsonView::Object(seq![("asset_id"@, JsonView::Str(asset_id))])
}

/// Token and type of a message.
pub open spec fn asset_type_json(asset_id: Text, event_type: Text) -> JsonView {
    JsonView::Object(
        seq![("asset_id"@, JsonView::Str(asset_id)), ("event_type"@, JsonView::Str(event_type))],
    )
}

/// A record of the book of a token.
pub open spec fn book_state_event(s: PolyView, asset_id: Text, trigger: Text) -> EventView {
    types::data_event(
        "book_state"@,
        RawView::Null,
        poly_state_raw(
            s.books[asset_id],
            asset_id,
            opt_trade(s.last_trade, asset_id),
            trigger,
        ),
    )
}

/// The state after a trade price that a full book brings.
pub open spec fn trade_noted(s: PolyView, msg: JsonView) -> PolyView {
    match json::get(msg, "last_trade_price"@) {
        Some(v) => if v != JsonView::Null && asset_of(msg).len() > 0 {
            PolyView {
                last_trade: s.last_trade.insert(
                    asset_of(msg),
                    unquoted(json::json_text(v)),
                ),
                ..s
            }
        } else {
            s
        },
        None => s,
    }
}

/// What follows from a full book.
pub open spec fn book_step(s: PolyView, msg: JsonView) -> (PolyView, Seq<EventView>) {
    let asset_id = asset_of(msg);
    let seen = raw_event("book_raw"@, msg, asset_type_json(asset_id, event_type_of(msg)));
    let noted = trade_noted(s, msg);
    if noted.books.contains_key(asset_id) {
        let after = PolyView {
            books: noted.books.insert(
                asset_id,
                replaced_book(json::field(msg, "bids"@), json::field(msg, "asks"@)),
            ),
            ..noted
        };
        (after, seq![seen, book_state_event(after, asset_id, "book"@)])
    } else {
        (noted, seq![seen])
    }
}

/// The changes in a message.
pub open spec fn changes_of(msg: JsonView) -> Seq<JsonView> {
    let list = match json::get(msg, "price_changes"@) {
        Some(v) => v,
        None => json::field(msg, "changes"@),
    };
    match json::items_of(list) {
        Some(items) => items,
        None => seq![],
    }
}

/// The token that a change is about: its own, or that of the message.
pub open spec fn change_asset(change: JsonView, asset_id: Text) -> Text {
    match json::str_of(json::field(change, "asset_id"@)) {
        Some(s) => s,
        None => asset_id,
    }
}

/// The side that a change is about.
pub open spec fn change_side(change: JsonView) -> Text {
    match json::str_of(json::field(change, "side"@)) {
        Some(s) => s,
        None => ""@,
    }
}

/// The state after one more change, and the tokens that were touched. A change of an
/// unknown token does not count.
pub open spec fn change_applied(
    before: PolyView,
    touched: Seq<Text>,
    change: JsonView,
    asset_id: Text,
) -> (PolyView, Seq<Text>) {
    let id = change_asset(change, asset_id);
    if before.books.contains_key(id) {
        (
            PolyView {
                books: before.books.insert(
                    id,
                    delta_book(
                        before.books[id],
                        change_side(change),
                        plain_text(json::field(change, "price"@)),
                        plain_text(json::field(change, "size"@)),
                    ),
                ),
                ..before
            },
            if touched.contains(id) { touched } else { touched.push(id) },
        )
    } else {
        (before, touched)
    }
}

/// The state after changes, and the tokens that they touched, in the order in which they
/// were touched first. Changes of unknown tokens do not count.
pub open spec fn changes_applied(s: PolyView, changes: Seq<JsonView>, asset_id: Text) -> (
    PolyView,
    Seq<Text>,
)
    decreases changes.len(),
{
    if changes.len() == 0 {
        (s, seq![])
    } else {
        let (before, touched) = changes_applied(s, changes.drop_last(), asset_id);
        change_applied(before, touched, changes.last(), asset_id)
    }
}

/// The records of the books that changes touched: two for each token.
pub open spec fn touched_events(s: PolyView, touched: Seq<Text>, count: int) -> Seq<EventView>
    decreases touched.len(),
{
    if touched.len() == 0 {
        seq![]
    } else {
        let id = touched.last();
        touched_events(s, touched.drop_last(), count) + seq![
            types::data_event(
                "price_change_applied"@,
                RawView::Null,
                RawView::Value(
                    JsonView::Object(
                        seq![
                            ("asset_id"@, JsonView::Str(id)),
                            ("changes_count"@, json::num(count)),
                        ],
                    ),
                ),
            ),
            book_state_event(s, id, "price_change"@),
        ]
    }
}

/// What follows from changes.
pub open spec fn change_step(s: PolyView, msg: JsonView) -> (PolyView, Seq<EventView>) {
    let asset_id = asset_of(msg);
    let seen = raw_event("price_change_raw"@, msg, asset_type_json(asset_id, event_type_of(msg)));
    let changes = changes_of(msg);
    let (after, touched) = changes_applied(s, changes, asset_id);
    (after, seq![seen] + touched_events(after, touched, changes.len() as int))
}

/// What follows from a message: the state after it, the events, and whether the best
/// prices may have changed.
pub open spec fn poly_step(s: PolyView, msg: JsonView) -> (PolyView, Seq<EventView>, bool) {
    let kind = event_type_of(msg);
    let asset_id = asset_of(msg);
    if kind == "book"@ {
        let (after, events) = book_step(s, msg);
        (after, events, true)
    } else if kind == "price_change"@ {
        let (after, events) = change_step(s, msg);
        (after, events, true)
    } else if kind == "last_trade_price"@ {
        let price = plain_text(json::field(msg, "price"@));
        (
            PolyView { last_trade: s.last_trade.insert(asset_id, price), ..s },
            seq![
                raw_event(
                    "last_trade_price_raw"@,
                    msg,
                    JsonView::Object(
                        seq![
                            ("asset_id"@, JsonView::Str(asset_id)),
                            ("price"@, JsonView::Str(price)),
                        ],
                    ),
                ),
            ],
            false,
        )
    } else if kind == "best_bid_ask"@ {
        (s, seq![raw_event("best_bid_ask_raw"@, msg, asset_json(asset_id))], false)
    } else if kind == "tick_size_change"@ {
        (s, seq![raw_event("tick_size_change_raw"@, msg, asset_json(asset_id))], false)
    } else if kind == "market_resolved"@ {
        (s, seq![raw_event("market_resolved_raw"@, msg, asset_json(asset_id))], false)
    } else {
        (s, seq![raw_event(kind + "_raw"@, msg, asset_type_json(asset_id, kind))], false)
    }
}


proof fn lemma_leading(s: Text, i: int)
    requires
        0 <= i <= s.len(),
        forall|k: int| 0 <= k < i ==> s[k] == '"',
        i < s.len() ==> s[i] != '"',
    ensures
        without_leading_quotes(s) == s.skip(i),
    decreases s.len(),
{
    if i == 0 {
        assert(s.skip(0) =~= s);
    } else {
        lemma_leading(s.drop_first(), i - 1);
        assert(s.drop_first().skip(i - 1) =~= s.skip(i));
    }
}

proof fn lemma_trailing(s: Text, n: int)
    requires
        0 <= n <= s.len(),
        forall|k: int| n <= k < s.len() ==> s[k] == '"',
        n > 0 ==> s[n - 1] != '"',
    ensures
        without_trailing_quotes(s) == s.take(n),
    decreases s.len(),
{
    if n == s.len() {
        assert(s.take(n) =~= s);
    } else {
        lemma_trailing(s.drop_last(), n);
        assert(s.drop_last().take(n) =~= s.take(n));
    }
}

/// The text without the quotation marks around it.
pub fn strip_quotes(s: &str) -> (r: String)
    ensures
        r@ == unquoted(s@),
{
    let chars: Vec<char> = chars_of(s);
    let mut from: usize = 0;
    while from < chars.len() && chars[from] == '"'
        invariant
            from <= chars@.len(),
            forall|k: int| 0 <= k < from ==> chars@[k] == '"',
        decreases chars@.len() - from,
    {
        from = from + 1;
    }
    proof {
        lemma_leading(s@, from as int);
    }
    let mut to: usize = chars.len();
    while to > from && chars[to - 1] == '"'
        invariant
            from <= to <= chars@.len(),
            forall|k: int| to <= k < chars@.len() ==> chars@[k] == '"',
        decreases to,
    {
        to = to - 1;
    }
    let mut r: String = String::new();
    let mut i: usize = from;
    assert(chars@.subrange(from as int, from as int) =~= r@);
    while i < to
        invariant
            from <= i <= to <= chars@.len(),
            r@ == chars@.subrange(from as int, i as int),
        decreases to - i,
    {
        r.push(chars[i]);
        i = i + 1;
        assert(r@ =~= chars@.subrange(from as int, i as int));
    }
    proof {
        let rest = s@.skip(from as int);
        lemma_trailing(rest, to - from);
        assert(rest.take(to - from) =~= chars@.subrange(from as int, to as int));
    }
    r
}

fn text_of_value(j: Option<&Json>) -> (s: String)
    ensures
        s@ == plain_text(value_or_null(j)),
{
    match j {
        Some(v) => match v.as_str() {
            Some(s) => s.to_owned(),
            None => v.to_text(),
        },
        None => Json::Null.to_text(),
    }
}

fn asset_value(asset_id: &str) -> (r: RawJson)
    ensures
        r@ == RawView::Value(asset_json(asset_id@)),
{
    RawJson::of(Json::object1("asset_id", Json::text(asset_id)))
}

fn asset_type_value(asset_id: &str, event_type: &str) -> (r: RawJson)
    ensures
        r@ == RawView::Value(asset_type_json(asset_id@, event_type@)),
{
    RawJson::of(
        Json::object2("asset_id", Json::text(asset_id), "event_type", Json::text(event_type)),
    )
}

fn one_event(e: Event) -> (events: Vec<Event>)
    ensures
        types::events_view(events@) == seq![e@],
{
    let mut events: Vec<Event> = Vec::new();
    events.push(e);
    assert(types::events_view(events@) =~= seq![e@]);
    events
}

fn find_text(list: &Vec<String>, s: &str) -> (found: bool)
    ensures
        found == json::strings(list@).contains(s@),
{
    let mut i: usize = 0;
    while i < list.len()
        invariant
            i <= list.len(),
            forall|k: int| 0 <= k < i ==> json::strings(list@)[k] != s@,
        decreases list.len() - i,
    {
        if same_text(list[i].as_str(), s) {
            assert(json::strings(list@)[i as int] == s@);
            return true;
        }
        i = i + 1;
    }
    false
}

impl PolySession {
    /// No token has two books.
    pub closed spec fn wf(self) -> bool {
        distinct_ids(self.books@)
    }

    /// A market of which nothing is known but its tokens.
    pub fn new(token_ids: Vec<String>) -> (s: PolySession)
        ensures
            s.wf(),
            s@ == fresh_market(json::strings(token_ids@), s@.hasher),
    {
        let mut books: Vec<(String, LocalBook)> = Vec::new();
        let mut i: usize = 0;
        while i < token_ids.len()
            invariant
                i <= token_ids.len(),
                distinct_ids(books@),
                forall|k: int| 0 <= k < books@.len() ==> (#[trigger] books@[k]).1@ == empty_local(),
                forall|k: int|
                    0 <= k < i ==> has_book(books@, (#[trigger] token_ids@[k])@),
                forall|b: int|
                    0 <= b < books@.len() ==> exists|k: int|
                        0 <= k < token_ids@.len() && (#[trigger] token_ids@[k])@ == (
                        #[trigger] books@[b]).0@,
            decreases token_ids.len() - i,
        {
            let ghost before = books@;
            match index_of_book(&books, token_ids[i].as_str()) {
                Some(b) => {
                    assert(stands_for(books@, token_ids@[i as int]@, b as int));
                },
                None => {
                    books.push((token_ids[i].clone(), LocalBook::new()));
                    proof {
                        let n = before.len() as int;
                        assert(stands_for(books@, token_ids@[i as int]@, n));
                        assert forall|k: int| 0 <= k < i implies has_book(
                            books@,
                            (#[trigger] token_ids@[k])@,
                        ) by {
                            let b = choose|b: int| stands_for(before, token_ids@[k]@, b);
                            assert(stands_for(books@, token_ids@[k]@, b));
                        }
                        assert forall|x: int, y: int|
                            0 <= x < books@.len() && 0 <= y < books@.len() && books@[x].0@
                                == books@[y].0@ implies x == y by {
                            if x < n && y == n {
                                assert(stands_for(before, token_ids@[i as int]@, x));
                            }
                            if y < n && x == n {
                                assert(stands_for(before, token_ids@[i as int]@, y));
                            }
                        }
                    }
                },
            }
            i = i + 1;
        }
        let hasher: ahash::AHasher = new_hasher();
        let ghost wanted = fresh_market(json::strings(token_ids@), hasher);
        proof {
            let ids = json::strings(token_ids@);
            assert forall|id: Text| books_view(books@).contains_key(id) <==> wanted.books.contains_key(
                id,
            ) by {
                if exists|b: int| stands_for(books@, id, b) {
                    let b = choose|b: int| stands_for(books@, id, b);
                    assert(books@[b].0@ == id);
                    let k = choose|k: int|
                        0 <= k < token_ids@.len() && token_ids@[k]@ == books@[b].0@;
                    assert(ids[k] == id);
                }
                if ids.contains(id) {
                    let k = ids.index_of(id);
                    assert(has_book(books@, token_ids@[k]@));
                }
            }
            assert forall|id: Text| books_view(books@).contains_key(id) implies books_view(
                books@,
            )[id] == wanted.books[id] by {
                let b = choose|b: int| stands_for(books@, id, b);
                lemma_book_at(books@, b);
                assert(books@[b].1@ == empty_local());
                assert(wanted.books.contains_key(id));
            }
            assert(books_view(books@) =~= wanted.books);
        }
        PolySession { token_ids, books, last_trade: no_trades(), seen: no_keys(), hasher }
    }

    /// Notes the key of a message and tells whether it is new: the first copy of a
    /// message wins.
    pub fn first_sight(&mut self, key: u64) -> (new: bool)
        requires
            old(self).wf(),
        ensures
            final(self).wf(),
            new == !old(self)@.seen.contains(key),
            final(self)@ == (PolyView { seen: old(self)@.seen.insert(key), ..old(self)@ }),
    {
        add_key(&mut self.seen, key)
    }

    /// The key of a message: the hash of its content, from the hasher of the market.
    pub fn key_of(&self, msg: &Json) -> (key: u64)
        ensures
            key == poly_feed::key_from(self@.hasher, msg@),
    {
        key_with(copy_hasher(&self.hasher), msg)
    }

    /// The best prices of the first token and of the second one.
    pub fn best_prices(&self) -> (p: PolyBba)
        requires
            self.wf(),
        ensures
            p@ == bba_of(self@),
    {
        let (yes_best_bid, yes_best_ask): (Option<String>, Option<String>) = self.prices_at(0);
        let (no_best_bid, no_best_ask): (Option<String>, Option<String>) = self.prices_at(1);
        PolyBba { yes_best_bid, yes_best_ask, no_best_bid, no_best_ask }
    }

    fn prices_at(&self, i: usize) -> (p: (Option<String>, Option<String>))
        requires
            self.wf(),
        ensures
            json::opt_string(p.0) == token_bid(self@, i as int),
            json::opt_string(p.1) == token_ask(self@, i as int),
    {
        if i < self.token_ids.len() {
            assert(json::strings(self.token_ids@)[i as int] == self.token_ids@[i as int]@);
            match index_of_book(&self.books, self.token_ids[i].as_str()) {
                Some(b) => {
                    proof {
                        lemma_book_at(self.books@, b as int);
                    }
                    (self.books[b].1.best_bid(), self.books[b].1.best_ask())
                },
                None => (None, None),
            }
        } else {
            (None, None)
        }
    }

    fn note_trade(&mut self, msg: &Json, asset_id: &str)
        requires
            old(self).wf(),
            asset_id@ == asset_of(msg@),
        ensures
            final(self).wf(),
            final(self)@ == trade_noted(old(self)@, msg@),
    {
        match msg.get("last_trade_price") {
            Some(v) => {
                let null: bool = match v {
                    Json::Null => true,
                    _ => false,
                };
                if !null && !asset_id.is_empty() {
                    let price: String = strip_quotes(v.to_text().as_str());
                    set_trade(&mut self.last_trade, asset_id, price.as_str());
                }
            },
            None => {},
        }
    }

    fn state_event(&self, b: usize, asset_id: &str, trigger: &str) -> (e: Event)
        requires
            self.wf(),
            stands_for(self.books@, asset_id@, b as int),
        ensures
            self@.books.contains_key(asset_id@),
            e@ == book_state_event(self@, asset_id@, trigger@),
    {
        proof {
            lemma_book_at(self.books@, b as int);
        }
        let price: Option<String> = get_trade(&self.last_trade, asset_id);
        let shown: Option<&str> = match &price {
            Some(p) => Some(p.as_str()),
            None => None,
        };
        Event::data(
            "book_state",
            RawJson::Null,
            self.books[b].1.snapshot_full(asset_id, shown, trigger),
        )
    }

    fn on_book(&mut self, msg: &Json, asset_id: &str, kind: &str) -> (events: Vec<Event>)
        requires
            old(self).wf(),
            asset_id@ == asset_of(msg@),
            kind@ == event_type_of(msg@),
        ensures
            final(self).wf(),
            (final(self)@, types::events_view(events@)) == book_step(old(self)@, msg@),
    {
        let mut events: Vec<Event> = one_event(
            Event::data("book_raw", RawJson::from_json(msg), asset_type_value(asset_id, kind)),
        );
        self.note_trade(msg, asset_id);
        match index_of_book(&self.books, asset_id) {
            Some(b) => {
                let ghost before = self.books@;
                proof {
                    lemma_book_at(before, b as int);
                }
                self.books[b].1.replace(msg.get("bids"), msg.get("asks"));
                proof {
                    lemma_book_changed(before, self.books@, b as int);
                    assert(stands_for(self.books@, asset_id@, b as int));
                }
                let e: Event = self.state_event(b, asset_id, "book");
                emit(&mut events, e);
            },
            None => {},
        }
        assert(types::events_view(events@) =~= book_step(old(self)@, msg@).1);
        events
    }

    fn apply_change(&mut self, change: &Json, asset_id: &str, touched: &mut Vec<String>)
        requires
            old(self).wf(),
        ensures
            final(self).wf(),
            (final(self)@, json::strings(final(touched)@)) == change_applied(
                old(self)@,
                json::strings(old(touched)@),
                change@,
                asset_id@,
            ),
    {
        let id: &str = match change.str_field("asset_id") {
            Some(s) => s,
            None => asset_id,
        };
        let side: &str = match change.str_field("side") {
            Some(s) => s,
            None => "",
        };
        let price: String = text_of_value(change.get("price"));
        let size: String = text_of_value(change.get("size"));
        match index_of_book(&self.books, id) {
            Some(b) => {
                let ghost before = self.books@;
                proof {
                    lemma_book_at(before, b as int);
                }
                self.books[b].1.apply_delta(side, price.as_str(), size.as_str());
                proof {
                    lemma_book_changed(before, self.books@, b as int);
                }
                if !find_text(touched, id) {
                    touched.push(id.to_owned());
                    assert(json::strings(touched@) =~= json::strings(old(touched)@).push(id@));
                }
            },
            None => {},
        }
    }

    fn on_changes(&mut self, msg: &Json, asset_id: &str, kind: &str) -> (events: Vec<Event>)
        requires
            old(self).wf(),
            asset_id@ == asset_of(msg@),
            kind@ == event_type_of(msg@),
        ensures
            final(self).wf(),
            (final(self)@, types::events_view(events@)) == change_step(old(self)@, msg@),
    {
        let mut events: Vec<Event> = one_event(
            Event::data(
                "price_change_raw",
                RawJson::from_json(msg),
                asset_type_value(asset_id, kind),
            ),
        );
        let list: Option<&Json> = match msg.get("price_changes") {
            Some(v) => Some(v),
            None => msg.get("changes"),
        };
        let mut touched: Vec<String> = Vec::new();
        let ghost all = changes_of(msg@);
        let ghost start = self@;
        assert(json::strings(touched@) =~= seq![]);
        let mut count: u64 = 0;
        match list {
            Some(Json::Array(items)) => {
                assert(all =~= json::items_view(items@));
                let mut i: usize = 0;
                assert(all.take(0) =~= seq![]);
                while i < items.len()
                    invariant
                        i <= items.len(),
                        all == json::items_view(items@),
                        self.wf(),
                        (self@, json::strings(touched@)) == changes_applied(
                            start,
                            all.take(i as int),
                            asset_id@,
                        ),
                    decreases items.len() - i,
                {
                    proof {
                        assert(all.take(i + 1).drop_last() =~= all.take(i as int));
                        assert(all.take(i + 1).last() == items@[i as int]@);
                    }
                    self.apply_change(&items[i], asset_id, &mut touched);
                    i = i + 1;
                }
                count = items.len() as u64;
            },
            _ => {
                assert(all =~= seq![]);
            },
        }
        assert(all.take(all.len() as int) =~= all);
        assert((self@, json::strings(touched@)) == changes_applied(start, all, asset_id@));
        let ghost ids = json::strings(touched@);
        proof {
            lemma_touched_are_known(start, all, asset_id@);
            assert(ids.take(0) =~= seq![]);
        }
        let ghost head = types::events_view(events@);
        assert(head + seq![] =~= head);
        let mut i: usize = 0;
        while i < touched.len()
            invariant
                i <= touched.len(),
                ids == json::strings(touched@),
                self.wf(),
                count == all.len(),
                forall|k: int| 0 <= k < ids.len() ==> self@.books.contains_key(#[trigger] ids[k]),
                types::events_view(events@) == head + touched_events(
                    self@,
                    ids.take(i as int),
                    count as int,
                ),
            decreases touched.len() - i,
        {
            assert(ids[i as int] == touched@[i as int]@);
            let id: &str = touched[i].as_str();
            emit(
                &mut events,
                Event::data(
                    "price_change_applied",
                    RawJson::Null,
                    RawJson::of(
                        Json::object2(
                            "asset_id",
                            Json::text(id),
                            "changes_count",
                            Json::count(count),
                        ),
                    ),
                ),
            );
            match index_of_book(&self.books, id) {
                Some(b) => {
                    let e: Event = self.state_event(b, id, "price_change");
                    emit(&mut events, e);
                },
                None => {
                    assert(false);
                },
            }
            proof {
                assert(ids.take(i + 1).drop_last() =~= ids.take(i as int));
                assert(types::events_view(events@) =~= head + touched_events(
                    self@,
                    ids.take(i + 1),
                    count as int,
                ));
            }
            i = i + 1;
        }
        assert(ids.take(ids.len() as int) =~= ids);
        assert(types::events_view(events@) =~= change_step(old(self)@, msg@).1);
        events
    }

    /// Takes one message. The flag tells whether the best prices may have changed.
    pub fn process_poly_message(&mut self, msg: &Json) -> (r: (Vec<Event>, bool))
        requires
            old(self).wf(),
        ensures
            final(self).wf(),
            (final(self)@, types::events_view(r.0@), r.1) == poly_step(old(self)@, msg@),
    {
        let kind: &str = match msg.str_field("event_type") {
            Some(s) => s,
            None => "unknown",
        };
        let asset_id: &str = match msg.str_field("asset_id") {
            Some(s) => s,
            None => "",
        };
        if same_text(kind, "book") {
            let events: Vec<Event> = self.on_book(msg, asset_id, kind);
            (events, true)
        } else if same_text(kind, "price_change") {
            let events: Vec<Event> = self.on_changes(msg, asset_id, kind);
            (events, true)
        } else if same_text(kind, "last_trade_price") {
            let price: String = text_of_value(msg.get("price"));
            set_trade(&mut self.last_trade, asset_id, price.as_str());
            let e: Event = Event::data(
                "last_trade_price_raw",
                RawJson::from_json(msg),
                RawJson::of(
                    Json::object2(
                        "asset_id",
                        Json::text(asset_id),
                        "price",
                        Json::text(price.as_str()),
                    ),
                ),
            );
            (one_event(e), false)
        } else if same_text(kind, "best_bid_ask") {
            (
                one_event(
                    Event::data(
                        "best_bid_ask_raw",
                        RawJson::from_json(msg),
                        asset_value(asset_id),
                    ),
                ),
                false,
            )
        } else if same_text(kind, "tick_size_change") {
            (
                one_event(
                    Event::data(
                        "tick_size_change_raw",
                        RawJson::from_json(msg),
                        asset_value(asset_id),
                    ),
                ),
                false,
            )
        } else if same_text(kind, "market_resolved") {
            (
                one_event(
                    Event::data(
                        "market_resolved_raw",
                        RawJson::from_json(msg),
                        asset_value(asset_id),
                    ),
                ),
                false,
            )
        } else {
            let name: String = join2(kind, "_raw");
            (
                one_event(
                    Event::data(
                        name.as_str(),
                        RawJson::from_json(msg),
                        asset_type_value(asset_id, kind),
                    ),
                ),
                false,
            )
        }
    }
}

proof fn lemma_touched_are_known(s: PolyView, changes: Seq<JsonView>, asset_id: Text)
    ensures
        forall|k: int|
            0 <= k < changes_applied(s, changes, asset_id).1.len() ==> changes_applied(
                s,
                changes,
                asset_id,
            ).0.books.contains_key(#[trigger] changes_applied(s, changes, asset_id).1[k]),
        changes_applied(s, changes, asset_id).0.books.dom() == s.books.dom(),
        changes_applied(s, changes, asset_id).1.no_duplicates(),
    decreases changes.len(),
{
    if changes.len() > 0 {
        lemma_touched_are_known(s, changes.drop_last(), asset_id);
        let (before, touched) = changes_applied(s, changes.drop_last(), asset_id);
        let id = change_asset(changes.last(), asset_id);
        assert(changes_applied(s, changes, asset_id).0.books.dom() =~= s.books.dom());
    }
}

fn index_of_book(books: &Vec<(String, LocalBook)>, id: &str) -> (at: Option<usize>)
    ensures
        match at {
            Some(b) => stands_for(books@, id@, b as int) && books_view(books@).contains_key(id@),
            None => !books_view(books@).contains_key(id@) && forall|b: int|
                !stands_for(books@, id@, b),
        },
{
    let mut i: usize = 0;
    while i < books.len()
        invariant
            i <= books.len(),
            forall|k: int| 0 <= k < i ==> (#[trigger] books@[k]).0@ != id@,
        decreases books.len() - i,
    {
        if same_text(books[i].0.as_str(), id) {
            assert(stands_for(books@, id@, i as int));
            return Some(i);
        }
        i = i + 1;
    }
    assert forall|b: int| !stands_for(books@, id@, b) by {
        if 0 <= b < books@.len() {
            assert(books@[b].0@ != id@);
        }
    }
    None
}

/// A market of which nothing is known but its tokens.
pub open spec fn fresh_market(token_ids: Seq<Text>, hasher: ahash::AHasher) -> PolyView {
    PolyView {
        token_ids,
        books: Map::new(|id: Text| token_ids.contains(id), |id: Text| empty_local()),
        last_trade: Map::empty(),
        seen: Set::empty(),
        hasher,
    }
}

/// The best prices of both tokens, as they were written.
pub struct PolyBba {
    pub yes_best_bid: Option<String>,
    pub yes_best_ask: Option<String>,
    pub no_best_bid: Option<String>,
    pub no_best_ask: Option<String>,
}

/// What the best prices of both tokens hold.
pub struct BbaView {
    pub yes_best_bid: Option<Text>,
    pub yes_best_ask: Option<Text>,
    pub no_best_bid: Option<Text>,
    pub no_best_ask: Option<Text>,
}

impl View for PolyBba {
    type V = BbaView;

    open spec fn view(&self) -> BbaView {
        BbaView {
            yes_best_bid: json::opt_string(self.yes_best_bid),
            yes_best_ask: json::opt_string(self.yes_best_ask),
            no_best_bid: json::opt_string(self.no_best_bid),
            no_best_ask: json::opt_string(self.no_best_ask),
        }
    }
}

/// The highest price that is bid for the token at a position.
pub open spec fn token_bid(s: PolyView, i: int) -> Option<Text> {
    if 0 <= i < s.token_ids.len() && s.books.contains_key(s.token_ids[i]) {
        local_best_bid(s.books[s.token_ids[i]])
    } else {
        None
    }
}

/// The lowest price that is asked for the token at a position.
pub open spec fn token_ask(s: PolyView, i: int) -> Option<Text> {
    if 0 <= i < s.token_ids.len() && s.books.contains_key(s.token_ids[i]) {
        local_best_ask(s.books[s.token_ids[i]])
    } else {
        None
    }
}

/// The best prices of both tokens.
pub open spec fn bba_of(s: PolyView) -> BbaView {
    BbaView {
        yes_best_bid: token_bid(s, 0),
        yes_best_ask: token_ask(s, 0),
        no_best_bid: token_bid(s, 1),
        no_best_ask: token_ask(s, 1),
    }
}


// Laws

/// A full book leaves nothing of the levels that were there before.
pub proof fn full_book_replaces_all(s: PolyView, other: PolyView, msg: JsonView)
    requires
        s.books.contains_key(asset_of(msg)),
        other.books.contains_key(asset_of(msg)),
    ensures
        book_step(s, msg).0.books[asset_of(msg)] == book_step(other, msg).0.books[asset_of(msg)],
{
}

/// Every message is recorded as it came, whatever its type.
pub proof fn every_message_is_recorded(s: PolyView, msg: JsonView)
    ensures
        poly_step(s, msg).1.len() >= 1,
        poly_step(s, msg).1[0].raw == RawView::Raw(json::json_text(msg)),
{
}

proof fn lemma_touched_events_len(s: PolyView, touched: Seq<Text>, count: int)
    ensures
        touched_events(s, touched, count).len() == 2 * touched.len(),
    decreases touched.len(),
{
    if touched.len() > 0 {
        lemma_touched_events_len(s, touched.drop_last(), count);
    }
}

/// A full book of a known token is recorded in two lines; changes are recorded in one line
/// and two more for each token that they touch; any other message in one line.
pub proof fn lines_per_message(s: PolyView, msg: JsonView)
    ensures
        event_type_of(msg) == "book"@ ==> poly_step(s, msg).1.len() == (if s.books.contains_key(
            asset_of(msg),
        ) {
            2int
        } else {
            1int
        }),
        event_type_of(msg) == "price_change"@ ==> poly_step(s, msg).1.len() == 1 + 2
            * changes_applied(s, changes_of(msg), asset_of(msg)).1.len(),
        event_type_of(msg) != "book"@ && event_type_of(msg) != "price_change"@ ==> poly_step(
            s,
            msg,
        ).1.len() == 1,
{
    reveal_strlit("book");
    reveal_strlit("price_change");
    assert("book"@.len() != "price_change"@.len());
    let (after, touched) = changes_applied(s, changes_of(msg), asset_of(msg));
    lemma_touched_events_len(after, touched, changes_of(msg).len() as int);
}

/// Whether one of these changes is about a token.
pub open spec fn changes_name(changes: Seq<JsonView>, asset_id: Text, id: Text) -> bool {
    exists|k: int| 0 <= k < changes.len() && change_asset(#[trigger] changes[k], asset_id) == id
}

/// Only full books and changes touch the books, and no message touches the books of tokens
/// that it does not name or that the market does not have.
pub proof fn only_books_and_changes_touch_books(s: PolyView, msg: JsonView)
    ensures
        event_type_of(msg) != "book"@ && event_type_of(msg) != "price_change"@ ==> poly_step(
            s,
            msg,
        ).0.books == s.books,
        poly_step(s, msg).0.books.dom() == s.books.dom(),
        event_type_of(msg) == "book"@ ==> forall|id: Text|
            id != asset_of(msg) && #[trigger] s.books.contains_key(id) ==> poly_step(
                s,
                msg,
            ).0.books[id] == s.books[id],
        event_type_of(msg) == "price_change"@ ==> forall|id: Text| #[trigger]
            s.books.contains_key(id) && !changes_name(changes_of(msg), asset_of(msg), id)
                ==> poly_step(s, msg).0.books[id] == s.books[id],
        poly_step(s, msg).0.seen == s.seen,
        poly_step(s, msg).0.token_ids == s.token_ids,
        poly_step(s, msg).0.hasher == s.hasher,
{
    lemma_touched_are_known(s, changes_of(msg), asset_of(msg));
    lemma_changes_keep_the_rest(s, changes_of(msg), asset_of(msg));
    assert(poly_step(s, msg).0.books.dom() =~= s.books.dom());
    if event_type_of(msg) == "price_change"@ {
        reveal_strlit("book");
        reveal_strlit("price_change");
        assert("book"@.len() != "price_change"@.len());
        assert forall|id: Text| #[trigger]
            s.books.contains_key(id) && !changes_name(
                changes_of(msg),
                asset_of(msg),
                id,
            ) implies poly_step(s, msg).0.books[id] == s.books[id] by {
            lemma_changes_keep_other_books(s, changes_of(msg), asset_of(msg), id);
        }
    }
}

proof fn lemma_changes_keep_other_books(
    s: PolyView,
    changes: Seq<JsonView>,
    asset_id: Text,
    id: Text,
)
    requires
        s.books.contains_key(id),
        !changes_name(changes, asset_id, id),
    ensures
        changes_applied(s, changes, asset_id).0.books.contains_key(id),
        changes_applied(s, changes, asset_id).0.books[id] == s.books[id],
    decreases changes.len(),
{
    if changes.len() > 0 {
        let fewer = changes.drop_last();
        assert(!changes_name(fewer, asset_id, id)) by {
            if changes_name(fewer, asset_id, id) {
                let k: int = choose|k: int|
                    0 <= k < fewer.len() && change_asset(#[trigger] fewer[k], asset_id) == id;
                assert(change_asset(changes[k], asset_id) == id);
            }
        }
        lemma_changes_keep_other_books(s, fewer, asset_id, id);
        assert(change_asset(changes[changes.len() - 1], asset_id) != id);
    }
}

proof fn lemma_changes_keep_the_rest(s: PolyView, changes: Seq<JsonView>, asset_id: Text)
    ensures
        changes_applied(s, changes, asset_id).0.seen == s.seen,
        changes_applied(s, changes, asset_id).0.hasher == s.hasher,
        changes_applied(s, changes, asset_id).0.token_ids == s.token_ids,
        changes_applied(s, changes, asset_id).0.last_trade == s.last_trade,
    decreases changes.len(),
{
    if changes.len() > 0 {
        lemma_changes_keep_the_rest(s, changes.drop_last(), asset_id);
    }
}

/// The state of a market with other keys.
pub open spec fn with_seen(s: PolyView, seen: Set<u64>) -> PolyView {
    PolyView { seen, ..s }
}

/// What a message does does not depend on the keys that were seen.
pub proof fn keys_do_not_matter_to_a_message(s: PolyView, seen: Set<u64>, msg: JsonView)
    ensures
        poly_step(with_seen(s, seen), msg) == (
            with_seen(poly_step(s, msg).0, seen),
            poly_step(s, msg).1,
            poly_step(s, msg).2,
        ),
{
    let changes = changes_of(msg);
    let (after, touched) = changes_applied(s, changes, asset_of(msg));
    lemma_changes_ignore_keys(s, seen, changes, asset_of(msg));
    lemma_touched_events_ignore_keys(after, seen, touched, changes.len() as int);
}

proof fn lemma_changes_ignore_keys(
    s: PolyView,
    seen: Set<u64>,
    changes: Seq<JsonView>,
    asset_id: Text,
)
    ensures
        changes_applied(with_seen(s, seen), changes, asset_id) == (
            with_seen(changes_applied(s, changes, asset_id).0, seen),
            changes_applied(s, changes, asset_id).1,
        ),
    decreases changes.len(),
{
    if changes.len() > 0 {
        lemma_changes_ignore_keys(s, seen, changes.drop_last(), asset_id);
    }
}

proof fn lemma_touched_events_ignore_keys(
    s: PolyView,
    seen: Set<u64>,
    touched: Seq<Text>,
    count: int,
)
    ensures
        touched_events(with_seen(s, seen), touched, count) == touched_events(s, touched, count),
    decreases touched.len(),
{
    if touched.len() > 0 {
        lemma_touched_events_ignore_keys(s, seen, touched.drop_last(), count);
    }
}

/// What a change of a level says: a token, a side, a price and a size.
pub struct Told {
    pub id: Text,
    pub side: Text,
    pub price: Text,
    pub size: Text,
}

/// A change says something of a token, which it names itself or leaves to its message.
pub open spec fn change_says(j: JsonView, told: Told, msg: JsonView) -> bool {
    &&& json::field(j, "asset_id"@) == JsonView::Str(told.id) || (!(json::field(j, "asset_id"@) is Str)
        && json::field(msg, "asset_id"@) == JsonView::Str(told.id))
    &&& json::field(j, "side"@) == JsonView::Str(told.side)
    &&& json::field(j, "price"@) == JsonView::Str(told.price)
    &&& json::field(j, "size"@) == JsonView::Str(told.size)
}

/// Prices and sizes that are told of a token, of purchases or of the other side, in their order.
pub open spec fn told_of(told: Seq<Told>, id: Text, buys: bool) -> Seq<(Text, Text)>
    decreases told.len(),
{
    if told.len() == 0 {
        seq![]
    } else {
        let t = told.last();
        if t.id == id && (t.side == "BUY"@) == buys {
            told_of(told.drop_last(), id, buys).push((t.price, t.size))
        } else {
            told_of(told.drop_last(), id, buys)
        }
    }
}

/// A message that changes levels, and what its changes say.
pub open spec fn changes_say(msg: JsonView, told: Seq<Told>) -> bool {
    &&& json::field(msg, "event_type"@) == JsonView::Str("price_change"@)
    &&& json::get(msg, "price_changes"@) matches Some(JsonView::Array(items)) && items.len()
        == told.len() && forall|k: int|
        0 <= k < told.len() ==> change_says(#[trigger] items[k], told[k], msg)
}

proof fn lemma_changes_by_side(s: PolyView, items: Seq<JsonView>, told: Seq<Told>, msg: JsonView, id: Text)
    requires
        items.len() == told.len(),
        forall|k: int| 0 <= k < told.len() ==> change_says(#[trigger] items[k], told[k], msg),
        s.books.contains_key(id),
    ensures
        ({
            let (after, touched) = changes_applied(s, items, asset_of(msg));
            &&& after.books.contains_key(id)
            &&& after.books[id].bids == levels::after_all(
                s.books[id].bids,
                told_of(told, id, true),
                1_000_000,
            )
            &&& after.books[id].asks == levels::after_all(
                s.books[id].asks,
                told_of(told, id, false),
                1_000_000,
            )
            &&& touched.contains(id) <==> exists|k: int|
                0 <= k < told.len() && (#[trigger] told[k]).id == id
        }),
    decreases items.len(),
{
    if items.len() > 0 {
        let fewer = items.drop_last();
        let less = told.drop_last();
        assert forall|k: int| 0 <= k < less.len() implies change_says(
            #[trigger] fewer[k],
            less[k],
            msg,
        ) by {
            assert(change_says(items[k], told[k], msg));
        }
        lemma_changes_by_side(s, fewer, less, msg, id);
        let n = told.len() - 1;
        let t = told[n];
        assert(change_says(items[n], t, msg));
        assert(change_asset(items.last(), asset_of(msg)) == t.id);
        let (before, touched) = changes_applied(s, fewer, asset_of(msg));
        let (after, now) = changes_applied(s, items, asset_of(msg));
        let some_before = told_of(less, id, t.side == "BUY"@);
        if t.id == id {
            assert(told_of(told, id, t.side == "BUY"@) =~= some_before.push((t.price, t.size)));
            assert(told_of(told, id, t.side == "BUY"@).drop_last() =~= some_before);
            assert(now.contains(id)) by {
                if !touched.contains(id) {
                    assert(now == touched.push(id));
                    assert(now[touched.len() as int] == id);
                }
            }
        } else {
            assert(now.contains(id) <==> touched.contains(id)) by {
                if touched.contains(id) && now != touched {
                    let k = touched.index_of(id);
                    assert(now[k] == id);
                }
                if now.contains(id) && now != touched {
                    let k = now.index_of(id);
                    assert(touched[k] == id);
                }
            }
        }
        if exists|k: int| 0 <= k < less.len() && (#[trigger] less[k]).id == id {
            let k = choose|k: int| 0 <= k < less.len() && (#[trigger] less[k]).id == id;
            assert(told[k].id == id);
        }
        if exists|k: int| 0 <= k < told.len() && (#[trigger] told[k]).id == id {
            let k = choose|k: int| 0 <= k < told.len() && (#[trigger] told[k]).id == id;
            if k < n {
                assert(less[k].id == id);
            }
        }
    }
}

/// Every change of a message sets its level, or removes it where the size is zero, in the book of
/// the token that it is about and on the side that it names: purchases among the bids, all others
/// among the asks. The last change of a level decides; levels that none is about stay.
pub proof fn price_changes_set_every_level(
    s: PolyView,
    msg: JsonView,
    told: Seq<Told>,
    id: Text,
    key: i64,
)
    requires
        changes_say(msg, told),
        s.books.contains_key(id),
    ensures
        ({
            let after = poly_step(s, msg).0;
            &&& after.books.contains_key(id)
            &&& levels::shows_changes(
                s.books[id].bids,
                after.books[id].bids,
                told_of(told, id, true),
                1_000_000,
                key,
            )
            &&& levels::shows_changes(
                s.books[id].asks,
                after.books[id].asks,
                told_of(told, id, false),
                1_000_000,
                key,
            )
        }),
{
    reveal_strlit("book");
    reveal_strlit("price_change");
    assert("book"@.len() != "price_change"@.len());
    lemma_changes_by_side(s, changes_of(msg), told, msg, id);
    levels::applied_entries_are_shown(s.books[id].bids, told_of(told, id, true), 1_000_000, key);
    levels::applied_entries_are_shown(s.books[id].asks, told_of(told, id, false), 1_000_000, key);
}

/// The book of every token that a message changes is recorded as it is after all changes, and the
/// best prices are told anew.
pub proof fn changed_books_are_recorded(s: PolyView, msg: JsonView, told: Seq<Told>, k: int)
    requires
        changes_say(msg, told),
        0 <= k < told.len(),
        s.books.contains_key(told[k].id),
    ensures
        ({
            let (after, events, prices) = poly_step(s, msg);
            let id = told[k].id;
            &&& prices
            &&& events[0].event_type == "price_change_raw"@
            &&& exists|i: int|
                0 <= i < events.len() && #[trigger] records_book(
                    events[i],
                    after.books[id],
                    id,
                    opt_trade(s.last_trade, id),
                    "price_change"@,
                )
        }),
{
    reveal_strlit("book");
    reveal_strlit("price_change");
    assert("book"@.len() != "price_change"@.len());
    let id = told[k].id;
    let changes = changes_of(msg);
    lemma_changes_by_side(s, changes, told, msg, id);
    lemma_changes_keep_the_rest(s, changes, asset_of(msg));
    let (after, touched) = changes_applied(s, changes, asset_of(msg));
    assert(touched.contains(id));
    let n = touched.index_of(id);
    lemma_touched_event_of(after, touched, changes.len() as int, n);
    let events = poly_step(s, msg).1;
    let all = touched_events(after, touched, changes.len() as int);
    assert(poly_step(s, msg).0 == after);
    assert(events.len() == 1 + all.len());
    assert(events[2 * n + 2] == all[2 * n + 1]);
    assert(0 <= 2 * n + 2 < events.len());
    assert(records_book(
        events[2 * n + 2],
        poly_step(s, msg).0.books[id],
        id,
        opt_trade(s.last_trade, id),
        "price_change"@,
    ));
}

/// An event records the book of a token, with the price of its last trade and what led to it.
pub open spec fn records_book(
    e: EventView,
    book: LocalView,
    id: Text,
    trade: Option<Text>,
    trigger: Text,
) -> bool {
    e.event_type == "book_state"@ && e.normalized == RawView::Raw(
        json::json_text(poly_state_json(poly_state(book, id, trade, trigger))),
    )
}

proof fn lemma_touched_event_of(s: PolyView, touched: Seq<Text>, count: int, n: int)
    requires
        0 <= n < touched.len(),
    ensures
        touched_events(s, touched, count).len() == 2 * touched.len(),
        touched_events(s, touched, count)[2 * n + 1] == book_state_event(
            s,
            touched[n],
            "price_change"@,
        ),
    decreases touched.len(),
{
    lemma_touched_events_len(s, touched, count);
    lemma_touched_events_len(s, touched.drop_last(), count);
    if n < touched.len() - 1 {
        lemma_touched_event_of(s, touched.drop_last(), count, n);
    }
}

/// An entry of a full book says a price and a size: an object that names them, or an array that
/// starts with them.
pub open spec fn entry_says(j: JsonView, price: Text, size: Text) -> bool {
    ||| j is Object && json::field(j, "price"@) == JsonView::Str(price) && json::field(j, "size"@)
        == JsonView::Str(size)
    ||| j matches JsonView::Array(items) && items.len() >= 2 && items[0] == JsonView::Str(price)
        && items[1] == JsonView::Str(size)
}

/// A field of a full book lists entries.
pub open spec fn lists(msg: JsonView, key: Text, entries: Seq<(Text, Text)>) -> bool {
    json::field(msg, key) matches JsonView::Array(items) && items.len() == entries.len() && forall|
        k: int,
    |
        0 <= k < entries.len() ==> entry_says(#[trigger] items[k], entries[k].0, entries[k].1)
}

/// A side shows the entries that a full book lists, and nothing else: under each key the last
/// entry with it, as it was written.
pub open spec fn shows_list(side: Map<i64, LevelView>, entries: Seq<(Text, Text)>, key: i64) -> bool {
    &&& forall|i: int| #[trigger]
        levels::decides(entries, 1_000_000, key, i) ==> side.contains_pair(
            key,
            LevelView { price: entries[i].0, qty: entries[i].1 },
        )
    &&& levels::silent(entries, 1_000_000, key) ==> !side.contains_key(key)
}

proof fn lemma_listed_side(items: Seq<JsonView>, entries: Seq<(Text, Text)>, key: i64)
    requires
        items.len() == entries.len(),
        forall|k: int|
            0 <= k < entries.len() ==> entry_says(#[trigger] items[k], entries[k].0, entries[k].1),
    ensures
        shows_list(replaced_side(items), entries, key),
    decreases items.len(),
{
    if items.len() > 0 {
        let fewer = items.drop_last();
        let less = entries.drop_last();
        assert forall|k: int| 0 <= k < less.len() implies entry_says(
            #[trigger] fewer[k],
            less[k].0,
            less[k].1,
        ) by {
            assert(entry_says(items[k], entries[k].0, entries[k].1));
        }
        lemma_listed_side(fewer, less, key);
        let n = items.len() - 1;
        let e = entries[n];
        assert(entry_says(items[n], e.0, e.1));
        assert(entry_of(items.last()) == Some((e.0, e.1)));
        let side = replaced_side(items);
        assert forall|i: int| #[trigger]
            levels::decides(entries, 1_000_000, key, i) implies side.contains_pair(
            key,
            LevelView { price: entries[i].0, qty: entries[i].1 },
        ) by {
            if i < n {
                assert(levels::price_key(entries[n].0, 1_000_000) != key);
                assert(less[i] == entries[i]);
                assert forall|j: int| i < j < less.len() implies levels::price_key(
                    (#[trigger] less[j]).0,
                    1_000_000,
                ) != key by {
                    assert(entries[j] == less[j]);
                }
                assert(levels::decides(less, 1_000_000, key, i));
            }
        }
        if levels::silent(entries, 1_000_000, key) {
            assert(levels::price_key(entries[n].0, 1_000_000) != key);
            assert forall|j: int| 0 <= j < less.len() implies levels::price_key(
                (#[trigger] less[j]).0,
                1_000_000,
            ) != key by {
                assert(entries[j] == less[j]);
            }
        }
    }
}

/// A full book of a token sets every level that it lists, bids among the bids and asks among the
/// asks, and leaves no other. It is recorded as it is then, and the best prices are told anew.
pub proof fn full_books_set_every_level(
    s: PolyView,
    msg: JsonView,
    id: Text,
    bids: Seq<(Text, Text)>,
    asks: Seq<(Text, Text)>,
    key: i64,
)
    requires
        json::field(msg, "event_type"@) == JsonView::Str("book"@),
        json::field(msg, "asset_id"@) == JsonView::Str(id),
        lists(msg, "bids"@, bids),
        lists(msg, "asks"@, asks),
        s.books.contains_key(id),
    ensures
        ({
            let (after, events, prices) = poly_step(s, msg);
            &&& after.books.contains_key(id)
            &&& shows_list(after.books[id].bids, bids, key)
            &&& shows_list(after.books[id].asks, asks, key)
            &&& prices
            &&& events.len() == 2 && events[0].event_type == "book_raw"@
            &&& records_book(
                events[1],
                after.books[id],
                id,
                opt_trade(after.last_trade, id),
                "book"@,
            )
        }),
{
    lemma_listed_side(json::field(msg, "bids"@)->Array_0, bids, key);
    lemma_listed_side(json::field(msg, "asks"@)->Array_0, asks, key);
}

/// The price of a trade is remembered for the token that the message names, and for no other.
pub proof fn trades_are_remembered(s: PolyView, msg: JsonView, id: Text, price: Text, other: Text)
    requires
        json::field(msg, "event_type"@) == JsonView::Str("last_trade_price"@),
        json::field(msg, "asset_id"@) == JsonView::Str(id),
        json::field(msg, "price"@) == JsonView::Str(price),
        other != id,
    ensures
        ({
            let (after, events, prices) = poly_step(s, msg);
            &&& opt_trade(after.last_trade, id) == Some(price)
            &&& opt_trade(after.last_trade, other) == opt_trade(s.last_trade, other)
            &&& after.books == s.books && !prices
            &&& events.len() == 1 && events[0].event_type == "last_trade_price_raw"@
            &&& events[0].raw == RawView::Raw(json::json_text(msg))
        }),
{
    reveal_strlit("book");
    reveal_strlit("price_change");
    reveal_strlit("last_trade_price");
    assert("book"@.len() == 4 && "price_change"@.len() == 12 && "last_trade_price"@.len() == 16);
}

/// What is remembered of the last trade of a token is changed only by messages that name it.
pub proof fn other_trades_stay(s: PolyView, msg: JsonView, other: Text)
    requires
        json::field(msg, "asset_id"@) != JsonView::Str(other),
        other.len() > 0,
    ensures
        opt_trade(poly_step(s, msg).0.last_trade, other) == opt_trade(s.last_trade, other),
{
    lemma_changes_keep_the_rest(s, changes_of(msg), asset_of(msg));
    assert(asset_of(msg) != other) by {
        reveal_strlit("");
        assert(""@.len() == 0);
    }
}

/// A recorded book of a token tells its highest bid and its lowest ask, counts the levels of both
/// sides, and lists them all, the best ones first.
pub proof fn recorded_token_books_tell_the_best_levels(
    book: LocalView,
    id: Text,
    trade: Option<Text>,
    trigger: Text,
)
    requires
        book.bids.dom().finite(),
        book.asks.dom().finite(),
    ensures
        ({
            let s = poly_state(book, id, trade, trigger);
            &&& s.asset_id == id && s.last_trade_price == trade && s.trigger_event_type == trigger
            &&& s.bid_count == book.bids.dom().len() && s.ask_count == book.asks.dom().len()
            &&& s.bids == levels::descending(book.bids) && s.asks == levels::ascending(book.asks)
            &&& s.best_bid is None <==> book.bids.dom().len() == 0
            &&& s.best_ask is None <==> book.asks.dom().len() == 0
            &&& s.best_bid is Some ==> levels::is_highest_price(book.bids, s.best_bid->0)
            &&& s.best_ask is Some ==> levels::is_lowest_price(book.asks, s.best_ask->0)
        }),
{
    levels::best_prices_are_those_of_best_levels(book.bids);
    levels::best_prices_are_those_of_best_levels(book.asks);
    levels::listing_is_sorted(book.bids);
    levels::listing_is_sorted(book.asks);
}

/// Prices are the best ones of a book: the highest bid and the lowest ask, and none where the side
/// is empty or there is no book.
pub open spec fn are_best_of(
    bid: Option<Text>,
    ask: Option<Text>,
    s: PolyView,
    i: int,
) -> bool {
    if i < s.token_ids.len() && s.books.contains_key(s.token_ids[i]) {
        let book = s.books[s.token_ids[i]];
        &&& bid is None <==> book.bids.dom().len() == 0
        &&& ask is None <==> book.asks.dom().len() == 0
        &&& bid is Some ==> levels::is_highest_price(book.bids, bid->0)
        &&& ask is Some ==> levels::is_lowest_price(book.asks, ask->0)
    } else {
        bid is None && ask is None
    }
}

/// Each published price belongs to its own token: those of the first one are the best of the book
/// of the first token, those of the second one the best of the book of the second.
pub proof fn best_prices_belong_to_their_tokens(s: PolyView)
    requires
        forall|id: Text| #[trigger]
            s.books.contains_key(id) ==> s.books[id].bids.dom().finite()
                && s.books[id].asks.dom().finite(),
    ensures
        are_best_of(bba_of(s).yes_best_bid, bba_of(s).yes_best_ask, s, 0),
        are_best_of(bba_of(s).no_best_bid, bba_of(s).no_best_ask, s, 1),
{
    if 0 < s.token_ids.len() && s.books.contains_key(s.token_ids[0]) {
        levels::best_prices_are_those_of_best_levels(s.books[s.token_ids[0]].bids);
        levels::best_prices_are_those_of_best_levels(s.books[s.token_ids[0]].asks);
    }
    if 1 < s.token_ids.len() && s.books.contains_key(s.token_ids[1]) {
        levels::best_prices_are_those_of_best_levels(s.books[s.token_ids[1]].bids);
        levels::best_prices_are_those_of_best_levels(s.books[s.token_ids[1]].asks);
    }
}

/// The best prices of a token depend on its own book alone, whatever the book of the other token.
pub proof fn best_prices_depend_on_one_book(s: PolyView, t: PolyView)
    requires
        s.token_ids.len() == 2,
        t.token_ids.len() == 2,
    ensures
        s.token_ids[0] == t.token_ids[0] && s.books.contains_key(s.token_ids[0])
            && t.books.contains_key(s.token_ids[0]) && s.books[s.token_ids[0]]
            == t.books[s.token_ids[0]] ==> bba_of(s).yes_best_bid == bba_of(t).yes_best_bid
            && bba_of(s).yes_best_ask == bba_of(t).yes_best_ask,
        s.token_ids[1] == t.token_ids[1] && s.books.contains_key(s.token_ids[1])
            && t.books.contains_key(s.token_ids[1]) && s.books[s.token_ids[1]]
            == t.books[s.token_ids[1]] ==> bba_of(s).no_best_bid == bba_of(t).no_best_bid
            && bba_of(s).no_best_ask == bba_of(t).no_best_ask,
{
}

/// The quotation marks round a text are taken off, and nothing else of it.
pub proof fn quotes_are_taken_off(s: Text)
    requires
        s.len() > 0 ==> s[0] != '"' && s.last() != '"',
    ensures
        unquoted(s) == s,
        unquoted(seq!['"'] + s + seq!['"']) == s,
{
    let q = seq!['"'] + s + seq!['"'];
    let rest = s.push('"');
    assert(q.drop_first() =~= rest);
    assert(rest.drop_last() =~= s);
    assert(q[0] == '"');
    assert(without_leading_quotes(q) == without_leading_quotes(rest));
    assert(without_trailing_quotes(s) == s);
    assert(without_trailing_quotes(rest) == s);
    if s.len() == 0 {
        assert(s =~= seq![]);
        assert(rest.drop_first() =~= s);
        assert(rest[0] == '"');
        assert(without_leading_quotes(s) == s);
        assert(without_leading_quotes(rest) == s);
    } else {
        assert(rest[0] == s[0]);
        assert(without_leading_quotes(rest) == rest);
    }
}

/// The book of a token is recorded with how many levels each side has, the first of them, its best
/// prices, its token, its last trade and what led to it, each under its name.
pub proof fn token_books_are_recorded_by_name(s: PolyStateView)
    ensures
        ({
            let j = poly_state_json(s);
            &&& json::field(j, "bid_count"@) == json::num(s.bid_count as int)
            &&& json::field(j, "ask_count"@) == json::num(s.ask_count as int)
            &&& json::field(j, "bids"@) == binance::levels_json(s.bids)
            &&& json::field(j, "asks"@) == binance::levels_json(s.asks)
            &&& json::field(j, "best_bid"@) == json::text_or_null(s.best_bid)
            &&& json::field(j, "best_ask"@) == json::text_or_null(s.best_ask)
            &&& json::field(j, "asset_id"@) == JsonView::Str(s.asset_id)
            &&& json::field(j, "last_trade_price"@) == json::text_or_null(s.last_trade_price)
            &&& json::field(j, "trigger_event_type"@) == JsonView::Str(s.trigger_event_type)
        }),
{
    reveal_strlit("bid_count");
    reveal_strlit("ask_count");
    reveal_strlit("bids");
    reveal_strlit("asks");
    reveal_strlit("best_bid");
    reveal_strlit("best_ask");
    reveal_strlit("asset_id");
    reveal_strlit("last_trade_price");
    reveal_strlit("trigger_event_type");
    assert("bid_count"@.len() == 9 && "bid_count"@[0] == 'b' && "ask_count"@.len() == 9
        && "ask_count"@[0] == 'a' && "bids"@.len() == 4 && "bids"@[0] == 'b' && "asks"@.len() == 4
        && "asks"@[0] == 'a');
    assert("best_bid"@.len() == 8 && "best_bid"@[5] == 'b' && "best_bid"@[0] == 'b'
        && "best_ask"@.len() == 8 && "best_ask"@[5] == 'a' && "best_ask"@[0] == 'b'
        && "asset_id"@.len() == 8 && "asset_id"@[0] == 'a');
    assert("last_trade_price"@.len() == 16 && "trigger_event_type"@.len() == 18);
    let fields = poly_state_json(s)->Object_0;
    json::first_fields_are_found(fields, 0);
    json::first_fields_are_found(fields, 1);
    json::first_fields_are_found(fields, 2);
    json::first_fields_are_found(fields, 3);
    json::first_fields_are_found(fields, 4);
    json::first_fields_are_found(fields, 5);
    json::first_fields_are_found(fields, 6);
    json::first_fields_are_found(fields, 7);
    json::first_fields_are_found(fields, 8);
}

} // verus!
