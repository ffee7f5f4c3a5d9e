//! What the collectors record is what a replay reads.

use vstd::prelude::*;
use vstd::string::*;

use crate::binance;
use crate::binance::{BookStateView, TickerView, TradeView};
use crate::binance_sync;
use crate::binance_sync::LocalBest;
use crate::fair_value;
use crate::fair_value::{Double, FairValueSnapshot};
use crate::json;
use crate::json::{JsonView, NumberView};
use crate::levels::LevelView;
use crate::polymarket;
use crate::polymarket::PolyStateView;
use crate::sim::market_data;
use crate::sim::market_data::{
    ClobLineView, DepthLineView, FvLine, IdsView, NumTextView, TokenSide, TradeSide,
};
use crate::text::Text;

verus! {

/// Two values have the same fields, in whatever order.
pub open spec fn same_fields(a: JsonView, b: JsonView) -> bool {
    forall|key: Text| #[trigger] json::field(a, key) == json::field(b, key)
}

/// A line records a value of some kind at some time.
pub open spec fn records(v: JsonView, ts_ms: i64, kind: Text, normalized: JsonView) -> bool {
    &&& json::field(v, "event_type"@) == JsonView::Str(kind)
    &&& json::field(v, "ts_recv_ms"@) == json::num(ts_ms as int)
    &&& same_fields(json::field(v, "normalized"@), normalized)
}

/// The texts of the first levels of a list.
pub open spec fn first_levels(list: Seq<LevelView>, max: int) -> Seq<(Text, Text)> {
    list.take(if list.len() < max { list.len() as int } else { max }).map_values(
        |l: LevelView| (l.price, l.qty),
    )
}

/// A price that is recorded as text or not at all.
pub open spec fn price_text(p: Option<Text>) -> NumTextView {
    match p {
        Some(p) => NumTextView::Text(p),
        None => NumTextView::Missing,
    }
}

proof fn lemma_levels_among(list: Seq<LevelView>)
    ensures
        market_data::levels_among(list.map_values(|l: LevelView| binance::level_json(l)))
            == list.map_values(|l: LevelView| (l.price, l.qty)),
    decreases list.len(),
{
    let items = list.map_values(|l: LevelView| binance::level_json(l));
    let texts = list.map_values(|l: LevelView| (l.price, l.qty));
    if list.len() == 0 {
        assert(texts =~= seq![]);
    } else {
        lemma_levels_among(list.drop_last());
        assert(items.drop_last() =~= list.drop_last().map_values(
            |l: LevelView| binance::level_json(l),
        ));
        assert(market_data::level_of(items.last()) == Some(
            (list.last().price, list.last().qty),
        ));
        assert(texts =~= texts.drop_last().push(texts.last()));
        assert(texts.drop_last() =~= list.drop_last().map_values(
            |l: LevelView| (l.price, l.qty),
        ));
    }
}

proof fn lemma_levels(list: Seq<LevelView>, max: int)
    requires
        0 <= max,
    ensures
        market_data::levels_in(binance::levels_json(list), max) == first_levels(list, max),
{
    let n = if list.len() < max { list.len() as int } else { max };
    let items = list.map_values(|l: LevelView| binance::level_json(l));
    assert(items.take(n) =~= list.take(n).map_values(|l: LevelView| binance::level_json(l)));
    lemma_levels_among(list.take(n));
}

/// None of the first `i` fields is called `key`.
spec fn differ(fields: Seq<(Text, JsonView)>, i: int, key: Text) -> bool
    decreases i,
{
    i <= 0 || (fields[i - 1].0 != key && differ(fields, i - 1, key))
}

proof fn lemma_differ(fields: Seq<(Text, JsonView)>, i: int, key: Text, j: int)
    requires
        differ(fields, i, key),
        0 <= j < i,
    ensures
        fields[j].0 != key,
    decreases i,
{
    if j < i - 1 {
        lemma_differ(fields, i - 1, key, j);
    }
}

proof fn lemma_first(fields: Seq<(Text, JsonView)>, i: int)
    requires
        0 <= i < fields.len(),
        forall|j: int| 0 <= j < i ==> (#[trigger] fields[j]).0 != fields[i].0,
    ensures
        json::lookup(fields, fields[i].0) == Some(fields[i].1),
    decreases i,
{
    if i > 0 {
        let rest = fields.drop_first();
        assert forall|j: int| 0 <= j < i - 1 implies (#[trigger] rest[j]).0 != rest[i - 1].0 by {
            assert(rest[j] == fields[j + 1]);
        }
        lemma_first(rest, i - 1);
        assert(fields[0].0 != fields[i].0);
    }
}

proof fn lemma_found(fields: Seq<(Text, JsonView)>, i: int)
    requires
        0 <= i < fields.len(),
        differ(fields, i, fields[i].0),
    ensures
        json::field(JsonView::Object(fields), fields[i].0) == fields[i].1,
{
    assert forall|j: int| 0 <= j < i implies (#[trigger] fields[j]).0 != fields[i].0 by {
        lemma_differ(fields, i, fields[i].0, j);
    }
    lemma_first(fields, i);
}

proof fn lemma_poly_fields(s: PolyStateView)
    ensures
        ({
            let j = polymarket::poly_state_json(s);
            &&& json::field(j, "bids"@) == binance::levels_json(s.bids)
            &&& json::field(j, "asks"@) == binance::levels_json(s.asks)
            &&& json::field(j, "best_bid"@) == json::text_or_null(s.best_bid)
            &&& json::field(j, "best_ask"@) == json::text_or_null(s.best_ask)
            &&& json::field(j, "asset_id"@) == JsonView::Str(s.asset_id)
        }),
{
    reveal_strlit("bid_count");
    reveal_strlit("ask_count");
    reveal_strlit("bids");
    reveal_strlit("asks");
    reveal_strlit("best_bid");
    reveal_strlit("best_ask");
    reveal_strlit("asset_id");
    assert("bid_count"@.len() == 9 && "ask_count"@.len() == 9);
    assert("bids"@.len() == 4 && "asks"@.len() == 4 && "best_bid"@.len() == 8);
    assert("bids"@[0] == 'b' && "asks"@[0] == 'a');
    assert("best_bid"@[5] == 'b' && "best_ask"@[5] == 'a' && "best_bid"@[0] == 'b'
        && "best_ask"@[0] == 'b' && "asset_id"@[0] == 'a');
    reveal_with_fuel(differ, 8);
    let fields = polymarket::poly_state_json(s)->Object_0;
    lemma_found(fields, 2);
    lemma_found(fields, 3);
    lemma_found(fields, 4);
    lemma_found(fields, 5);
    lemma_found(fields, 6);
}

/// The book of a token that a collector recorded is read as it was recorded: the best prices,
/// and the first fifty levels of each side.
pub proof fn recorded_books_are_read(
    v: JsonView,
    ts_ms: i64,
    s: PolyStateView,
    ids: IdsView,
    token: TokenSide,
)
    requires
        records(v, ts_ms, "book_state"@, polymarket::poly_state_json(s)),
        market_data::token_named(s.asset_id, ids) == Some(token),
    ensures
        market_data::clob_line(v, ids) == (
            ids,
            ClobLineView::Book {
                ts_ms,
                token,
                best_bid: price_text(s.best_bid),
                best_ask: price_text(s.best_ask),
                bids: first_levels(s.bids, 50),
                asks: first_levels(s.asks, 50),
            },
        ),
{
    lemma_poly_fields(s);
    lemma_levels(s.bids, 50);
    lemma_levels(s.asks, 50);
    reveal_strlit("book_state");
    reveal_strlit("market_lookup");
    assert("book_state"@.len() != "market_lookup"@.len());
}

proof fn lemma_state_fields(s: BookStateView)
    ensures
        json::field(binance::state_json(s), "bids"@) == binance::levels_json(s.bids),
        json::field(binance::state_json(s), "asks"@) == binance::levels_json(s.asks),
{
    reveal_strlit("update_id");
    reveal_strlit("best_bid_price");
    reveal_strlit("best_bid_qty");
    reveal_strlit("best_ask_price");
    reveal_strlit("best_ask_qty");
    reveal_strlit("spread");
    reveal_strlit("bid_count");
    reveal_strlit("ask_count");
    reveal_strlit("bids");
    reveal_strlit("asks");
    assert("update_id"@.len() == 9 && "best_bid_price"@.len() == 14 && "best_bid_qty"@.len() == 12);
    assert("best_ask_price"@.len() == 14 && "best_ask_qty"@.len() == 12 && "spread"@.len() == 6);
    assert("bid_count"@.len() == 9 && "ask_count"@.len() == 9);
    assert("bids"@.len() == 4 && "asks"@.len() == 4);
    assert("bids"@[0] == 'b' && "asks"@[0] == 'a');
    reveal_with_fuel(differ, 11);
    let fields = binance::state_json(s)->Object_0;
    lemma_found(fields, 8);
    lemma_found(fields, 9);
}

/// The kinds of lines of the file of the exchange are told apart.
proof fn lemma_kinds()
    ensures
        "book_ticker_normalized"@ != "trade_normalized"@,
        "book_ticker_normalized"@ != "book_state"@,
        "book_ticker_normalized"@ != "system"@,
        "trade_normalized"@ != "book_state"@,
        "trade_normalized"@ != "system"@,
        "book_state"@ != "system"@,
{
    reveal_strlit("book_ticker_normalized");
    reveal_strlit("trade_normalized");
    reveal_strlit("book_state");
    reveal_strlit("system");
    assert("book_ticker_normalized"@.len() == 22 && "trade_normalized"@.len() == 16);
    assert("book_state"@.len() == 10 && "system"@.len() == 6);
}

/// The book of the exchange that a collector recorded is read as it was recorded: the first
/// twenty levels of each side.
pub proof fn recorded_depths_are_read(v: JsonView, ts_ms: i64, s: BookStateView)
    requires
        records(v, ts_ms, "book_state"@, binance::state_json(s)),
    ensures
        market_data::depth_line(v) == (DepthLineView::Depth {
            ts_ms,
            bids: first_levels(s.bids, 20),
            asks: first_levels(s.asks, 20),
        }),
{
    lemma_kinds();
    lemma_state_fields(s);
    lemma_levels(s.bids, 20);
    lemma_levels(s.asks, 20);
}

/// A trade that a collector recorded is read as it came: its price, its size, and who started
/// it.
pub proof fn recorded_trades_are_read(v: JsonView, ts_ms: i64, t: TradeView)
    requires
        records(v, ts_ms, "trade_normalized"@, binance_sync::trade_json(t)),
    ensures
        market_data::depth_line(v) == (DepthLineView::Trade {
            ts_ms,
            price: NumTextView::Text(t.p),
            qty: NumTextView::Text(t.q),
            is_buy: !t.m,
        }),
{
    lemma_kinds();
    reveal_strlit("price");
    reveal_strlit("qty");
    reveal_strlit("side");
    reveal_strlit("BUY");
    reveal_strlit("SELL");
    assert("price"@.len() == 5 && "qty"@.len() == 3 && "side"@.len() == 4);
    assert("BUY"@.len() == 3 && "SELL"@.len() == 4);
    reveal_with_fuel(differ, 4);
    let fields = binance_sync::trade_json(t)->Object_0;
    lemma_found(fields, 0);
    lemma_found(fields, 1);
    lemma_found(fields, 2);
}

/// The best prices that a collector recorded are read as they came, whatever is known of the
/// local book.
pub proof fn recorded_prices_are_read(
    v: JsonView,
    ts_ms: i64,
    t: TickerView,
    local: Option<LocalBest>,
)
    requires
        records(v, ts_ms, "book_ticker_normalized"@, binance_sync::ticker_json(t, local)),
    ensures
        market_data::depth_line(v) == (DepthLineView::Ticker {
            ts_ms,
            bid: NumTextView::Text(t.b),
            bid_qty: NumTextView::Text(t.bid_qty),
            ask: NumTextView::Text(t.a),
            ask_qty: NumTextView::Text(t.ask_qty),
        }),
{
    lemma_kinds();
    reveal_strlit("bid_price");
    reveal_strlit("bid_qty");
    reveal_strlit("ask_price");
    reveal_strlit("ask_qty");
    assert("bid_price"@.len() == 9 && "bid_qty"@.len() == 7);
    assert("ask_price"@.len() == 9 && "ask_qty"@.len() == 7);
    assert("bid_price"@[0] == 'b' && "ask_price"@[0] == 'a');
    assert("bid_qty"@[0] == 'b' && "ask_qty"@[0] == 'a');
    reveal_with_fuel(differ, 5);
    let fields = binance_sync::ticker_json(t, local)->Object_0;
    assert(fields[0].0 == "bid_price"@ && fields[1].0 == "bid_qty"@);
    assert(fields[2].0 == "ask_price"@ && fields[3].0 == "ask_qty"@);
    lemma_found(fields, 0);
    lemma_found(fields, 1);
    lemma_found(fields, 2);
    lemma_found(fields, 3);
}

/// The strike price that a collector recorded is the one that is read.
pub proof fn recorded_strikes_are_read(
    v: JsonView,
    ts_ms: i64,
    price: Text,
    bid: Text,
    ask: Text,
    market_start: i64,
)
    requires
        records(v, ts_ms, "system"@, binance_sync::strike_json(price, bid, ask, market_start)),
        json::field(v, "system_type"@) == JsonView::Str("strike_price"@),
    ensures
        market_data::depth_line(v) == (DepthLineView::Strike { price: NumTextView::Text(price) }),
{
    lemma_kinds();
    reveal_with_fuel(differ, 2);
    let fields = binance_sync::strike_json(price, bid, ask, market_start)->Object_0;
    lemma_found(fields, 0);
}

proof fn lemma_none(fields: Seq<(Text, JsonView)>, key: Text)
    requires
        forall|j: int| 0 <= j < fields.len() ==> (#[trigger] fields[j]).0 != key,
    ensures
        json::lookup(fields, key) is None,
    decreases fields.len(),
{
    if fields.len() > 0 {
        let rest = fields.drop_first();
        assert forall|j: int| 0 <= j < rest.len() implies (#[trigger] rest[j]).0 != key by {
            assert(rest[j] == fields[j + 1]);
        }
        lemma_none(rest, key);
        assert(fields[0].0 != key);
    }
}

proof fn lemma_absent(fields: Seq<(Text, JsonView)>, key: Text)
    requires
        differ(fields, fields.len() as int, key),
    ensures
        json::field(JsonView::Object(fields), key) == JsonView::Null,
{
    assert forall|j: int| 0 <= j < fields.len() implies (#[trigger] fields[j]).0 != key by {
        lemma_differ(fields, fields.len() as int, key, j);
    }
    lemma_none(fields, key);
}

/// A number that is recorded where it is finite.
pub open spec fn finite_number(d: Double) -> Option<NumberView> {
    market_data::plain_number(fair_value::double_of(d))
}

/// A number that is recorded where it is known and finite.
pub open spec fn known_number(d: Option<Double>) -> Option<NumberView> {
    match d {
        Some(d) => finite_number(d),
        None => None,
    }
}

proof fn lemma_sample_names()
    ensures
        ({
            &&& "tau"@.len() == 3
            &&& "microprice"@.len() == 10
            &&& "depth_microprice"@.len() == 16
            &&& "blended_spot"@.len() == 12 && "blended_spot"@[0] == 'b'
            &&& "strike_price"@.len() == 12 && "strike_price"@[0] == 's'
            &&& "rv_1s"@.len() == 5
            &&& "rv_5s"@.len() == 5
            &&& "rv_15s"@.len() == 6
            &&& "sigma_returns"@.len() == 13 && "sigma_returns"@[0] == 's'
            &&& "sigma_dollars"@.len() == 13 && "sigma_dollars"@[0] == 's'
            &&& "trade_imbalance"@.len() == 15
            &&& "book_imbalance"@.len() == 14
            &&& "mu"@.len() == 2
            &&& "z_score"@.len() == 7 && "z_score"@[0] == 'z'
            &&& "fair_yes"@.len() == 8
            &&& "fair_no"@.len() == 7 && "fair_no"@[0] == 'f'
            &&& "lstm_fair_yes"@.len() == 13 && "lstm_fair_yes"@[0] == 'l'
            &&& "lstm_fair_no"@.len() == 12 && "lstm_fair_no"@[0] == 'l'
        }),
{
    reveal_strlit("tau");
    reveal_strlit("microprice");
    reveal_strlit("depth_microprice");
    reveal_strlit("blended_spot");
    reveal_strlit("strike_price");
    reveal_strlit("rv_1s");
    reveal_strlit("rv_5s");
    reveal_strlit("rv_15s");
    reveal_strlit("sigma_returns");
    reveal_strlit("sigma_dollars");
    reveal_strlit("trade_imbalance");
    reveal_strlit("book_imbalance");
    reveal_strlit("mu");
    reveal_strlit("z_score");
    reveal_strlit("fair_yes");
    reveal_strlit("fair_no");
    reveal_strlit("lstm_fair_yes");
    reveal_strlit("lstm_fair_no");
}

proof fn lemma_sample_fields(s: FairValueSnapshot)
    ensures
        ({
            let j = fair_value::snapshot_json(s);
            &&& json::field(j, "tau"@) == fair_value::double_of(s.tau)
            &&& json::field(j, "sigma_returns"@) == fair_value::double_of(s.sigma_returns)
            &&& json::field(j, "trade_imbalance"@) == fair_value::double_of(s.trade_imbalance)
            &&& json::field(j, "book_imbalance"@) == fair_value::double_of(s.book_imbalance)
            &&& json::field(j, "z_score"@) == fair_value::double_of(s.z_score)
            &&& json::field(j, "fair_yes"@) == fair_value::double_of(s.fair_yes)
            &&& json::field(j, "fair_no"@) == fair_value::double_of(s.fair_no)
            &&& market_data::plain_number(json::field(j, "lstm_fair_yes"@)) == known_number(
                s.lstm_fair_yes,
            )
            &&& market_data::plain_number(json::field(j, "lstm_fair_no"@)) == known_number(
                s.lstm_fair_no,
            )
        }),
{
    lemma_sample_names();
    reveal_with_fuel(differ, 19);
    let fields = fair_value::snapshot_json(s)->Object_0;
    assert(fields[0].0 == "tau"@ && fields[1].0 == "microprice"@);
    assert(fields[2].0 == "depth_microprice"@ && fields[3].0 == "blended_spot"@);
    assert(fields[4].0 == "strike_price"@ && fields[5].0 == "rv_1s"@);
    assert(fields[6].0 == "rv_5s"@ && fields[7].0 == "rv_15s"@);
    assert(fields[8].0 == "sigma_returns"@ && fields[9].0 == "sigma_dollars"@);
    assert(fields[10].0 == "trade_imbalance"@ && fields[11].0 == "book_imbalance"@);
    assert(fields[12].0 == "mu"@ && fields[13].0 == "z_score"@);
    assert(fields[14].0 == "fair_yes"@ && fields[15].0 == "fair_no"@);
    lemma_found(fields, 0);
    lemma_found(fields, 8);
    lemma_found(fields, 10);
    lemma_found(fields, 11);
    lemma_found(fields, 13);
    lemma_found(fields, 14);
    lemma_found(fields, 15);
    if s.lstm_fair_yes is Some {
        assert(fields[16].0 == "lstm_fair_yes"@);
        lemma_found(fields, 16);
        if s.lstm_fair_no is Some {
            assert(fields[17].0 == "lstm_fair_no"@);
            lemma_found(fields, 17);
        } else {
            assert(fields.len() == 17);
            lemma_absent(fields, "lstm_fair_no"@);
        }
    } else if s.lstm_fair_no is Some {
        assert(fields.len() == 17);
        assert(fields[16].0 == "lstm_fair_no"@);
        lemma_found(fields, 16);
        lemma_absent(fields, "lstm_fair_yes"@);
    } else {
        assert(fields.len() == 16);
        lemma_absent(fields, "lstm_fair_yes"@);
        lemma_absent(fields, "lstm_fair_no"@);
    }
}

/// A sample of the fair value that was recorded is read as it was taken: every number that is
/// finite, and the predictions where there were any.
pub proof fn recorded_samples_are_read(
    v: JsonView,
    ts_ms: i64,
    s: FairValueSnapshot,
    l: FvLine,
)
    requires
        records(v, ts_ms, "fv_sample"@, fair_value::snapshot_json(s)),
        market_data::is_fv_line(l, v),
    ensures
        l.ts_ms == ts_ms,
        market_data::opt_number(l.fair_yes) == finite_number(s.fair_yes),
        market_data::opt_number(l.fair_no) == finite_number(s.fair_no),
        market_data::opt_number(l.lstm_fair_yes) == known_number(s.lstm_fair_yes),
        market_data::opt_number(l.lstm_fair_no) == known_number(s.lstm_fair_no),
        market_data::opt_number(l.tau) == finite_number(s.tau),
        market_data::opt_number(l.z_score) == finite_number(s.z_score),
        market_data::opt_number(l.trade_imbalance) == finite_number(s.trade_imbalance),
        market_data::opt_number(l.book_imbalance) == finite_number(s.book_imbalance),
        market_data::opt_number(l.sigma_returns) == finite_number(s.sigma_returns),
{
    lemma_sample_fields(s);
}

/// A trade of a token that a collector recorded is read as the message told it: its token, its
/// price, its size and its side.
pub proof fn recorded_token_trades_are_read(
    s: polymarket::PolyView,
    msg: JsonView,
    v: JsonView,
    ts_ms: i64,
    ids: IdsView,
    price: Text,
    size: Text,
    buys: bool,
    token: TokenSide,
)
    requires
        json::field(msg, "event_type"@) == JsonView::Str("last_trade_price"@),
        json::field(msg, "asset_id"@) == JsonView::Str(
            if token == TokenSide::Up {
                ids.up
            } else {
                ids.down
            },
        ),
        json::field(msg, "price"@) == JsonView::Str(price),
        json::field(msg, "size"@) == JsonView::Str(size),
        json::field(msg, "side"@) == JsonView::Str(
            if buys {
                "BUY"@
            } else {
                "SELL"@
            },
        ),
        ids.up != ids.down,
        json::field(v, "event_type"@) == JsonView::Str(polymarket::poly_step(s, msg).1[0].event_type),
        json::field(v, "ts_recv_ms"@) == json::num(ts_ms as int),
        same_fields(json::field(v, "raw"@), msg),
    ensures
        market_data::clob_line(v, ids) == (
            ids,
            ClobLineView::Trade {
                ts_ms,
                token,
                price: NumTextView::Text(price),
                size: NumTextView::Text(size),
                side: if buys {
                    TradeSide::Buy
                } else {
                    TradeSide::Sell
                },
            },
        ),
{
    let id = if token == TokenSide::Up { ids.up } else { ids.down };
    let raw = json::field(v, "raw"@);
    assert(json::field(raw, "asset_id"@) == json::field(msg, "asset_id"@));
    assert(json::field(raw, "price"@) == json::field(msg, "price"@));
    assert(json::field(raw, "size"@) == json::field(msg, "size"@));
    assert(json::field(raw, "side"@) == json::field(msg, "side"@));
    reveal_strlit("book");
    reveal_strlit("price_change");
    reveal_strlit("last_trade_price");
    assert("book"@.len() == 4 && "price_change"@.len() == 12 && "last_trade_price"@.len() == 16);
    assert(polymarket::poly_step(s, msg).1[0].event_type == "last_trade_price_raw"@);
    market_data::trades_are_read_as_told(v, ids, id, price, size, ts_ms);
}

/// A recorded book belongs to the token whose name it bears: the first name stands for up, the
/// second for down, and any other for none.
pub proof fn recorded_books_are_told_apart(v: JsonView, ts_ms: i64, s: PolyStateView, ids: IdsView)
    requires
        records(v, ts_ms, "book_state"@, polymarket::poly_state_json(s)),
        ids.up != ids.down,
    ensures
        ({
            let (after, line) = market_data::clob_line(v, ids);
            &&& after == ids
            &&& s.asset_id == ids.up ==> line is Book && line->Book_token == TokenSide::Up
            &&& s.asset_id == ids.down ==> line is Book && line->Book_token == TokenSide::Down
            &&& s.asset_id != ids.up && s.asset_id != ids.down ==> line is Nothing
            &&& line is Book ==> line->Book_best_bid == price_text(s.best_bid)
                && line->Book_best_ask == price_text(s.best_ask) && line->Book_bids
                == first_levels(s.bids, 50) && line->Book_asks == first_levels(s.asks, 50)
                && line->Book_ts_ms == ts_ms
        }),
{
    lemma_poly_fields(s);
    lemma_levels(s.bids, 50);
    lemma_levels(s.asks, 50);
    reveal_strlit("book_state");
    reveal_strlit("market_lookup");
    assert("book_state"@.len() != "market_lookup"@.len());
}

} // verus!
