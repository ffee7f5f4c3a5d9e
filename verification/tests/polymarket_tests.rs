use bookview_collector::config::Next;
use bookview_collector::json::Json;
use bookview_collector::poly_feed::{dedup_hash, subscription, PolyConnection};
use bookview_collector::poly_gamma::{
    parse_market_meta, parse_string_or_vec, plan_market, slug_for_epoch, validate_market,
    GammaLookup, LookupOutcome,
};
use bookview_collector::polymarket::{strip_quotes, LocalBook, PolySession};
use bookview_collector::types::{Event, RawJson};

fn text(s: &str) -> Json {
    Json::text(s)
}

fn object(fields: Vec<(&str, Json)>) -> Json {
    Json::object(fields.into_iter().map(|(k, v)| (k.to_string(), v)).collect())
}

fn list(items: &[&str]) -> Json {
    Json::Array(items.iter().map(|s| text(s)).collect())
}

fn dicts(levels: &[(&str, &str)]) -> Json {
    Json::Array(
        levels.iter().map(|(p, s)| object(vec![("price", text(p)), ("size", text(s))])).collect(),
    )
}

fn arrays(levels: &[(&str, &str)]) -> Json {
    Json::Array(levels.iter().map(|(p, s)| list(&[p, s])).collect())
}

fn size_at(book: &LocalBook, price: &str) -> Option<String> {
    book.bids.values().find(|l| l.price == price).map(|l| l.qty.clone())
}

fn names(events: &[Event]) -> Vec<String> {
    events
        .iter()
        .map(|e| match &e.system_type {
            Some(s) => s.clone(),
            None => e.event_type.clone(),
        })
        .collect()
}

fn value_text(r: &RawJson) -> String {
    match r {
        RawJson::Null => "null".to_string(),
        RawJson::Raw(s) => s.clone(),
        RawJson::Value(j) => j.to_text(),
    }
}

#[test]
fn replace_with_dict_format() {
    let mut book = LocalBook::new();
    book.replace(
        Some(&dicts(&[("0.55", "1200"), ("0.54", "800")])),
        Some(&dicts(&[("0.56", "1000"), ("0.57", "500")])),
    );
    assert_eq!(book.bids.len(), 2);
    assert_eq!(book.asks.len(), 2);
    assert_eq!(size_at(&book, "0.55").unwrap(), "1200");
    let snap = book.state("1", None, "book");
    assert_eq!(snap.best_bid.unwrap(), "0.55");
    assert_eq!(snap.best_ask.unwrap(), "0.56");
    assert_eq!(snap.bid_count, 2);
}

#[test]
fn replace_with_array_format() {
    let mut book = LocalBook::new();
    book.replace(
        Some(&arrays(&[("0.55", "1200"), ("0.54", "800")])),
        Some(&arrays(&[("0.56", "1000")])),
    );
    assert_eq!(book.bids.len(), 2);
    assert_eq!(book.asks.len(), 1);
    assert_eq!(size_at(&book, "0.55").unwrap(), "1200");
}

#[test]
fn apply_delta_buy_sell() {
    let mut book = LocalBook::new();
    book.replace(Some(&dicts(&[("0.55", "1200")])), Some(&dicts(&[("0.56", "1000")])));

    book.apply_delta("BUY", "0.54", "500");
    assert_eq!(book.bids.len(), 2);
    assert_eq!(size_at(&book, "0.54").unwrap(), "500");

    book.apply_delta("BUY", "0.55", "0");
    assert_eq!(book.bids.len(), 1);
    assert!(size_at(&book, "0.55").is_none());

    book.apply_delta("SELL", "0.57", "300");
    assert_eq!(book.asks.len(), 2);

    book.apply_delta("SELL", "0.56", "0");
    assert_eq!(book.asks.len(), 1);
}

#[test]
fn snapshot_sort_order() {
    let mut book = LocalBook::new();
    book.replace(
        Some(&dicts(&[("0.50", "100"), ("0.55", "200"), ("0.52", "150")])),
        Some(&dicts(&[("0.60", "100"), ("0.56", "200"), ("0.58", "150")])),
    );
    let snap = book.state("1", None, "book");
    let bids: Vec<&str> = snap.bids.iter().map(|l| l.price.as_str()).collect();
    assert_eq!(bids, vec!["0.55", "0.52", "0.50"]);
    let asks: Vec<&str> = snap.asks.iter().map(|l| l.price.as_str()).collect();
    assert_eq!(asks, vec!["0.56", "0.58", "0.60"]);
}

#[test]
fn dedup_same_content_same_hash() {
    let msg1 = object(
        vec![("event_type", text("book")), ("asset_id", text("abc")), ("price", text("0.55"))],
    );
    let msg2 = object(
        vec![("asset_id", text("abc")), ("event_type", text("book")), ("price", text("0.55"))],
    );
    assert_eq!(
        dedup_hash(&msg1),
        dedup_hash(&msg2),
        "Same content with different key order must produce same hash"
    );
}

#[test]
fn dedup_different_content_different_hash() {
    let msg1 = object(vec![("event_type", text("book")), ("asset_id", text("abc"))]);
    let msg2 = object(vec![("event_type", text("book")), ("asset_id", text("def"))]);
    assert_ne!(dedup_hash(&msg1), dedup_hash(&msg2));
}

fn market(closed: bool, outcomes: Json, ids: Json) -> Json {
    object(
        vec![
            ("slug", text("btc-updown-5m-123")),
            ("closed", Json::Bool(closed)),
            ("enableOrderBook", Json::Bool(true)),
            ("outcomes", outcomes),
            ("clobTokenIds", ids),
        ],
    )
}

#[test]
fn validate_valid_market() {
    let data = market(false, list(&["Up", "Down"]), list(&["id1", "id2"]));
    assert!(validate_market(&data, "btc-updown-5m-123").is_none());
}

#[test]
fn validate_closed_market() {
    let data = market(true, list(&["Up", "Down"]), list(&["id1", "id2"]));
    assert_eq!(validate_market(&data, "btc-updown-5m-123").unwrap(), "market is closed");
}

#[test]
fn validate_string_encoded_arrays() {
    let data = market(false, text("[\"Up\", \"Down\"]"), text("[\"id1\", \"id2\"]"));
    assert!(validate_market(&data, "btc-updown-5m-123").is_none());
}

#[test]
fn validate_wrong_outcome_count() {
    let data = market(false, list(&["Up", "Down", "Sideways"]), list(&["id1", "id2"]));
    assert!(
        validate_market(&data, "btc-updown-5m-123").unwrap().contains("expected 2 outcomes")
    );
}

#[test]
fn validate_slug_mismatch() {
    let data = object(
        vec![
            ("slug", text("wrong-slug")),
            ("closed", Json::Bool(false)),
            ("enableOrderBook", Json::Bool(true)),
            ("outcomes", list(&["Up", "Down"])),
            ("clobTokenIds", list(&["id1", "id2"])),
        ],
    );
    let fault = validate_market(&data, "btc-updown-5m-123").unwrap();
    assert!(fault.contains("slug mismatch"));
    assert_eq!(fault, "slug mismatch: expected btc-updown-5m-123, got Some(\"wrong-slug\")");
}

#[test]
fn validate_other_faults() {
    let slug = "btc-updown-5m-123";
    assert_eq!(validate_market(&Json::Null, slug).unwrap(), "empty response");
    assert_eq!(validate_market(&object(vec![]), slug).unwrap(), "empty response");
    assert_eq!(
        validate_market(&object(vec![("x", Json::Null)]), slug).unwrap(),
        "slug mismatch: expected btc-updown-5m-123, got None",
    );
    assert_eq!(
        validate_market(&object(vec![("slug", text(slug))]), slug).unwrap(),
        "order book not enabled",
    );
    assert_eq!(
        validate_market(&market(false, text("Up, Down"), list(&["a", "b"])), slug).unwrap(),
        "cannot parse outcomes: \"Up, Down\"",
    );
    assert_eq!(
        validate_market(&market(false, list(&["Up", "Down"]), list(&["a"])), slug).unwrap(),
        "expected 2 clobTokenIds, got 1",
    );
    assert_eq!(
        validate_market(&market(false, list(&["Up", "Down"]), Json::whole(5)), slug).unwrap(),
        "cannot parse clobTokenIds: 5",
    );
}

#[test]
fn lists_come_plain_or_encoded() {
    let mixed = Json::Array(vec![text("a"), Json::whole(1), text("b")]);
    assert_eq!(parse_string_or_vec(Some(&mixed)).unwrap(), vec!["a", "b"]);
    assert_eq!(parse_string_or_vec(Some(&text("[\"x\",\"y\"]"))).unwrap(), vec!["x", "y"]);
    assert!(parse_string_or_vec(Some(&text("[1]"))).is_none());
    assert!(parse_string_or_vec(Some(&Json::Null)).is_none());
    assert!(parse_string_or_vec(None).is_none());
}

#[test]
fn collected_markets_are_valid() {
    assert_eq!(slug_for_epoch(123), "btc-updown-5m-123");
    let data = object(
        vec![
            ("slug", text("btc-updown-5m-123")),
            ("conditionId", text("0xc")),
            ("closed", Json::Bool(false)),
            ("enableOrderBook", Json::Bool(true)),
            ("outcomes", list(&["Up", "Down"])),
            ("clobTokenIds", text("[\"id1\",\"id2\"]")),
        ],
    );
    assert!(parse_market_meta(&data).to_text().contains("\"clob_token_ids\":[\"id1\",\"id2\"]"));
    let plan = plan_market(Some(data), 123);
    assert_eq!(plan.event.event_type, "market_lookup");
    let info = plan.info.unwrap();
    assert_eq!(info.condition_id, "0xc");
    assert_eq!(info.clob_token_ids, vec!["id1", "id2"]);
    assert_eq!(info.market_start, 123);
    let closed = market(true, list(&["Up", "Down"]), list(&["id1", "id2"]));
    let plan = plan_market(Some(closed), 123);
    assert!(plan.info.is_none());
    assert_eq!(
        value_text(&plan.event.normalized),
        "{\"reason\":\"market is closed\",\"slug\":\"btc-updown-5m-123\"}",
    );
    let plan = plan_market(None, 123);
    assert!(plan.info.is_none());
    assert!(value_text(&plan.event.normalized).contains("deadline exceeded"));
}

#[test]
fn lookups_end_ten_seconds_after_the_start() {
    let mut l = GammaLookup::new(600);
    assert_eq!(
        l.next_attempt(609).unwrap(),
        "https://gamma-api.polymarket.com/markets/slug/btc-updown-5m-600",
    );
    let mut waits = vec![];
    for _ in 0..5 {
        let (_, wait) = l.retry(&LookupOutcome::Failed("refused".to_string()));
        waits.push(wait);
    }
    assert_eq!(waits, vec![1, 2, 4, 8, 8]);
    let (e, _) = l.retry(&LookupOutcome::Status { status: 404, body: "no".to_string() });
    assert_eq!(value_text(&e.raw), "{\"attempt\":1,\"body\":\"no\",\"status\":404}");
    assert!(l.next_attempt(610).is_none());
}

fn tokens() -> Vec<String> {
    vec!["yes".to_string(), "no".to_string()]
}

fn book_msg(asset: &str) -> Json {
    object(
        vec![
            ("event_type", text("book")),
            ("asset_id", text(asset)),
            ("bids", dicts(&[("0.40", "10"), ("0.41", "20")])),
            ("asks", dicts(&[("0.45", "30")])),
        ],
    )
}

#[test]
fn book_messages_replace_the_book() {
    let mut s = PolySession::new(tokens());
    let (events, changed) = s.process_poly_message(&book_msg("yes"));
    assert!(changed);
    assert_eq!(names(&events), vec!["book_raw", "book_state"]);
    let p = s.best_prices();
    assert_eq!(p.yes_best_bid.unwrap(), "0.41");
    assert_eq!(p.yes_best_ask.unwrap(), "0.45");
    assert!(p.no_best_bid.is_none());
}

#[test]
fn price_changes_touch_their_own_token() {
    let mut s = PolySession::new(tokens());
    s.process_poly_message(&book_msg("yes"));
    s.process_poly_message(&book_msg("no"));
    let change = object(
        vec![
            ("event_type", text("price_change")),
            (
                "price_changes",
                Json::Array(
                    vec![
                        object(
                            vec![
                                ("asset_id", text("no")),
                                ("price", text("0.43")),
                                ("size", text("5")),
                                ("side", text("BUY")),
                            ],
                        ),
                    ],
                ),
            ),
        ],
    );
    let (events, changed) = s.process_poly_message(&change);
    assert!(changed);
    assert!(names(&events).contains(&"price_change_raw".to_string()));
    let p = s.best_prices();
    assert_eq!(p.no_best_bid.unwrap(), "0.43");
    assert_eq!(p.yes_best_bid.unwrap(), "0.41");
}

#[test]
fn last_trade_price_is_remembered() {
    let mut s = PolySession::new(tokens());
    let trade = object(
        vec![
            ("event_type", text("last_trade_price")),
            ("asset_id", text("yes")),
            ("price", text("0.44")),
        ],
    );
    let (events, changed) = s.process_poly_message(&trade);
    assert!(!changed);
    assert_eq!(names(&events), vec!["last_trade_price_raw"]);
    let (events, _) = s.process_poly_message(&book_msg("yes"));
    assert!(value_text(&events[1].normalized).contains("\"last_trade_price\":\"0.44\""));
    let (events, _) = s.process_poly_message(&book_msg("no"));
    assert!(value_text(&events[1].normalized).contains("\"last_trade_price\":null"));
}

#[test]
fn other_messages_are_recorded() {
    let mut s = PolySession::new(tokens());
    for kind in ["best_bid_ask", "tick_size_change", "market_resolved", "novelty"] {
        let msg = object(vec![("event_type", text(kind)), ("asset_id", text("yes"))]);
        let (events, changed) = s.process_poly_message(&msg);
        assert!(!changed);
        assert_eq!(names(&events), vec![format!("{}_raw", kind)]);
    }
    let (events, _) = s.process_poly_message(&object(vec![("x", Json::Null)]));
    assert_eq!(names(&events), vec!["unknown_raw"]);
}

#[test]
fn keys_are_new_once() {
    let mut s = PolySession::new(tokens());
    assert!(s.first_sight(5));
    assert!(!s.first_sight(5));
    assert!(s.first_sight(6));
}

#[test]
fn quotes_are_stripped() {
    assert_eq!(strip_quotes("\"0.5\""), "0.5");
    assert_eq!(strip_quotes("\"\"a\"b\"\""), "a\"b");
    assert_eq!(strip_quotes("\"\"\""), "");
}

#[test]
fn copies_are_dropped() {
    let mut s = PolySession::new(tokens());
    let mut a = PolyConnection::new(0);
    let mut b = PolyConnection::new(1);
    let batch = Json::Array(vec![book_msg("yes"), book_msg("no")]);
    let (events, changed) = a.receive(&mut s, &batch);
    assert!(changed);
    assert_eq!(events.len(), 4);
    let (events, changed) = b.receive(&mut s, &batch);
    assert!(!changed);
    assert!(events.is_empty());
    assert_eq!((a.msgs_received, a.msgs_deduped), (2, 0));
    assert_eq!((b.msgs_received, b.msgs_deduped), (2, 2));
    let (closing, next) = b.closed(false);
    assert_eq!(next, Next::Connect { after_secs: 0 });
    assert_eq!(names(&closing), vec!["ws_disconnected", "ws_reconnecting"]);
    assert_eq!(
        value_text(&closing[0].normalized),
        "{\"conn_id\":1,\"msgs_deduped\":2,\"msgs_received\":2}",
    );
}

#[test]
fn single_messages_are_taken_too() {
    let mut s = PolySession::new(tokens());
    let mut c = PolyConnection::new(3);
    let (events, _) = c.receive(&mut s, &book_msg("yes"));
    assert_eq!(names(&events), vec!["book_raw", "book_state"]);
    let (again, _) = c.take(&mut s, &book_msg("no"));
    assert_eq!(again.len(), 2);
    let (none, _) = c.take(&mut s, &book_msg("yes"));
    assert!(none.is_empty());
    assert_eq!((c.msgs_received, c.msgs_deduped), (3, 1));
    assert_eq!(s.key_of(&book_msg("yes")), dedup_hash(&book_msg("yes")));
    assert_ne!(s.key_of(&book_msg("yes")), s.key_of(&book_msg("no")));
}

#[test]
fn connections_tell_what_they_do() {
    assert_eq!(
        subscription(&tokens()).to_text(),
        "{\"assets_ids\":[\"yes\",\"no\"],\"custom_feature_enabled\":true,\"type\":\"market\"}",
    );
    let mut c = PolyConnection::new(2);
    assert!(value_text(&c.connecting().normalized).contains("wss://ws-subscriptions-clob"));
    let e = c.subscribed(&tokens());
    assert_eq!(value_text(&e.normalized), "{\"conn_id\":2,\"token_ids\":[\"yes\",\"no\"]}");
    assert!(value_text(&e.raw).contains("assets_ids"));
    let (events, wait) = c.failed("refused", false);
    assert_eq!(wait, Next::Connect { after_secs: 1 });
    assert_eq!(names(&events), vec!["error", "ws_reconnecting"]);
    assert_eq!(value_text(&events[1].normalized), "{\"backoff\":1.0,\"conn_id\":2}");
    assert_eq!(c.failed("refused", false).1, Next::Connect { after_secs: 2 });
    c.connected();
    assert_eq!(c.failed("refused", true).1, Next::Stop);
    let (events, next) = c.closed(true);
    assert_eq!(names(&events), vec!["ws_disconnected"]);
    assert_eq!(next, Next::Stop);
}

#[test]
fn texts_are_decoded_and_taken() {
    let mut s = PolySession::new(tokens());
    let mut c = PolyConnection::new(2);
    let (events, changed) = c.receive_text(&mut s, "{oops").unwrap();
    assert!(!changed);
    assert_eq!(names(&events), vec!["error"]);
    assert_eq!(value_text(&events[0].raw), "{\"conn_id\":2,\"raw\":\"{oops\"}");
    assert_eq!(
        value_text(&events[0].normalized),
        "{\"conn_id\":2,\"reason\":\"json_decode_error\"}",
    );
    assert_eq!((c.msgs_received, c.msgs_deduped), (0, 0));
    let batch = Json::Array(vec![book_msg("yes"), book_msg("no"), book_msg("yes")]).to_text();
    let (events, changed) = c.receive_text(&mut s, &batch).unwrap();
    assert!(changed);
    assert_eq!(names(&events), vec!["book_raw", "book_state", "book_raw", "book_state"]);
    assert_eq!((c.msgs_received, c.msgs_deduped), (3, 1));
    c.msgs_received = u64::MAX;
    assert!(c.receive_text(&mut s, &batch).is_none());
    assert_eq!((c.msgs_received, c.msgs_deduped), (u64::MAX, 1));
    assert!(c.receive_text(&mut s, "[]").is_some());
}

#[test]
fn each_content_counts_once() {
    let batch = |ids: &[&str]| Json::Array(ids.iter().map(|id| book_msg(id)).collect());
    let mut s = PolySession::new(tokens());
    let mut a = PolyConnection::new(0);
    let mut b = PolyConnection::new(1);
    let mut told = a.receive(&mut s, &batch(&["yes", "yes", "no"])).0;
    told.extend(b.receive(&mut s, &batch(&["no", "other", "yes"])).0);
    let mut once = PolySession::new(tokens());
    let mut c = PolyConnection::new(2);
    let wanted = c.receive(&mut once, &batch(&["yes", "no", "other"])).0;
    assert_eq!(names(&told), names(&wanted));
    let texts = |events: &[Event]| events.iter().map(|e| value_text(&e.normalized)).collect::<Vec<_>>();
    assert_eq!(texts(&told), texts(&wanted));
    assert_eq!((a.msgs_received, a.msgs_deduped), (3, 1));
    assert_eq!((b.msgs_received, b.msgs_deduped), (3, 2));
    assert_eq!(c.msgs_deduped, 0);
}

#[test]
fn changes_leave_the_books_of_other_tokens() {
    let mut s = PolySession::new(tokens());
    s.process_poly_message(&book_msg("yes"));
    s.process_poly_message(&book_msg("no"));
    let change = object(
        vec![
            ("event_type", text("price_change")),
            ("asset_id", text("no")),
            ("price_changes", Json::parse(
                "[{\"price\":\"0.41\",\"size\":\"0\",\"side\":\"BUY\"},{\"asset_id\":\"gone\",\"price\":\"0.9\",\"size\":\"1\",\"side\":\"BUY\"}]",
            ).unwrap()),
        ],
    );
    s.process_poly_message(&change);
    let p = s.best_prices();
    assert_eq!(p.no_best_bid.unwrap(), "0.40");
    assert_eq!(p.yes_best_bid.unwrap(), "0.41");
    assert_eq!(p.yes_best_ask.unwrap(), "0.45");
}
