use bookview_collector::binance::{
    parse_msg, read_msg, which_stream, BinanceBook, DepthUpdateMsg, Msg, Stream,
};
use bookview_collector::binance_sync::{
    snapshot_event, strike_text, BinanceLink, BinanceSession, Feed, SnapshotOutcome, Step,
};
use bookview_collector::config::Next;
use bookview_collector::json::Json;
use bookview_collector::json_struct::{name_literals, pick_slots, read_record, written_names};
use bookview_collector::types::{Event, RawJson};
use rust_decimal::Decimal;

fn text(s: &str) -> Json {
    Json::text(s)
}

fn object(fields: Vec<(&str, Json)>) -> Json {
    Json::object(fields.into_iter().map(|(k, v)| (k.to_string(), v)).collect())
}

fn side(levels: &[(&str, &str)]) -> Json {
    Json::Array(
        levels.iter().map(|(p, q)| Json::Array(vec![text(p), text(q)])).collect(),
    )
}

fn snapshot_of(id: i64, bids: &[(&str, &str)], asks: &[(&str, &str)]) -> Json {
    object(vec![("lastUpdateId", Json::whole(id)), ("bids", side(bids)), ("asks", side(asks))])
}

fn pairs(levels: &[(&str, &str)]) -> Vec<(String, String)> {
    levels.iter().map(|(p, q)| (p.to_string(), q.to_string())).collect()
}

fn diff(first: i64, last: i64, b: &[(&str, &str)], a: &[(&str, &str)]) -> DepthUpdateMsg {
    DepthUpdateMsg { first_update_id: first, last_update_id: last, b: pairs(b), a: pairs(a) }
}

fn names(events: &[Event]) -> Vec<String> {
    events
        .iter()
        .map(|e| match &e.system_type {
            Some(s) => s.clone(),
            None => e.event_type.clone(),
        })
        .collect()
}

fn value_text(r: &RawJson) -> String {
    match r {
        RawJson::Null => "null".to_string(),
        RawJson::Raw(s) => s.clone(),
        RawJson::Value(j) => j.to_text(),
    }
}

fn send(s: &mut BinanceSession, d: DepthUpdateMsg) -> Step {
    s.on_message(RawJson::Null, Msg::Depth(d), 0)
}

/// A session whose book stands at `id`.
fn session_at(id: i64) -> BinanceSession {
    let mut s = BinanceSession::new(1_777_506_000);
    send(&mut s, diff(id, id, &[], &[]));
    let step = s.on_snapshot(&snapshot_of(id, &[("96000.00", "1.0")], &[("96001.00", "1.0")]));
    assert!(s.synced);
    assert!(names(&step.events).contains(&"sync_ready".to_string()));
    s
}

#[test]
fn load_snapshot_and_sort() {
    let mut book = BinanceBook::new();
    book.load_snapshot(
        &snapshot_of(
            12345,
            &[("96000.50", "1.5"), ("96001.00", "2.0"), ("95999.00", "0.5")],
            &[("96002.00", "1.0"), ("96001.50", "3.0"), ("96003.00", "0.1")],
        ),
    );
    assert_eq!(book.update_id, 12345);
    assert_eq!(book.bids.len(), 3);
    assert_eq!(book.asks.len(), 3);
    let best_bid = book.bids.iter().next_back().unwrap();
    assert_eq!(best_bid.1.price, "96001.00");
    let best_ask = book.asks.iter().next().unwrap();
    assert_eq!(best_ask.1.price, "96001.50");
    assert_eq!(book.best_bid_price().unwrap(), "96001.00");
    assert_eq!(book.best_ask_price().unwrap(), "96001.50");
}

#[test]
fn apply_diff_removes_zero_qty() {
    let mut book = BinanceBook::new();
    book.load_snapshot(
        &snapshot_of(
            100,
            &[("96000.00", "1.0"), ("95999.00", "2.0")],
            &[("96001.00", "1.0")],
        ),
    );
    book.apply_diff(
        &diff(
            101,
            101,
            &[("96000.00", "0"), ("95998.00", "3.0")],
            &[("96001.00", "0.00000000")],
        ),
    );
    assert_eq!(book.update_id, 101);
    assert_eq!(book.bids.len(), 2);
    assert!(!book.bids.values().any(|l| l.price == "96000.00"));
    assert!(book.bids.values().any(|l| l.price == "95998.00"));
    assert_eq!(book.asks.len(), 0);
}

#[test]
fn sync_validation_snapshot_spans_buffer() {
    let mut s = BinanceSession::new(1_777_506_000);
    let step = send(&mut s, diff(100, 105, &[("10", "2")], &[]));
    assert_eq!(step.fetch.unwrap().attempt, 1);
    let step = s.on_snapshot(&snapshot_of(100, &[("9", "1")], &[("11", "1")]));
    assert!(s.synced);
    assert_eq!(s.book.update_id, 105);
    assert_eq!(s.book.best_bid_price().unwrap(), "10");
    assert!(s.buffer.is_empty());
    assert_eq!(
        names(&step.events),
        vec!["snapshot_loaded", "book_state", "depth_applied", "book_state", "sync_ready"],
    );
}

#[test]
fn sync_validation_gap_detected() {
    let mut s = BinanceSession::new(1_777_506_000);
    send(&mut s, diff(90, 95, &[], &[]));
    send(&mut s, diff(102, 110, &[], &[]));
    let step = s.on_snapshot(&snapshot_of(100, &[], &[]));
    assert!(!s.synced);
    assert!(s.buffer.is_empty());
    assert_eq!(names(&step.events), vec!["error"]);
    assert_eq!(
        value_text(&step.events[0].raw),
        "{\"first_U\":102,\"first_u\":110,\"lastUpdateId\":100}",
    );
}

#[test]
fn sync_validation_snapshot_covers_all() {
    let mut s = BinanceSession::new(1_777_506_000);
    send(&mut s, diff(190, 195, &[], &[]));
    send(&mut s, diff(196, 200, &[], &[]));
    assert_eq!(s.buffer.len(), 2);
    let step = s.on_snapshot(&snapshot_of(200, &[("1", "1")], &[("2", "1")]));
    assert!(s.buffer.is_empty());
    assert!(s.synced);
    assert_eq!(s.book.update_id, 200);
    assert!(!names(&step.events).contains(&"depth_applied".to_string()));
}

#[test]
fn replay_stops_at_a_gap() {
    let mut s = BinanceSession::new(1_777_506_000);
    send(&mut s, diff(99, 101, &[("10", "2")], &[]));
    send(&mut s, diff(105, 106, &[("12", "7")], &[]));
    let step = s.on_snapshot(&snapshot_of(100, &[("9", "1")], &[("15", "1")]));
    assert!(!s.synced);
    assert_eq!(s.sync_cycle, 2);
    assert!(s.buffer.is_empty());
    assert!(step.feeds.is_empty());
    assert_eq!(
        names(&step.events),
        vec![
            "snapshot_loaded", "book_state", "depth_applied", "book_state", "gap_detected",
            "resync_started",
        ],
    );
    let again = send(&mut s, diff(107, 108, &[], &[]));
    assert_eq!(again.fetch.unwrap().reason, "resync_after_gap");
}

#[test]
fn replay_follows_a_chain_of_changes() {
    let mut s = BinanceSession::new(1_777_506_000);
    send(&mut s, diff(99, 101, &[("10", "2")], &[]));
    send(&mut s, diff(100, 101, &[("10", "99")], &[]));
    send(&mut s, diff(102, 103, &[("11", "3")], &[]));
    send(&mut s, diff(103, 106, &[("12", "4")], &[]));
    let step = s.on_snapshot(&snapshot_of(100, &[("9", "1")], &[("15", "1")]));
    assert!(s.synced);
    assert_eq!(s.book.update_id, 106);
    assert_eq!(s.book.best_bid_price().unwrap(), "12");
    let applied = names(&step.events).iter().filter(|n| *n == "depth_applied").count();
    assert_eq!(applied, 3);
}

#[test]
fn gap_detection_in_steady_state() {
    let mut s = session_at(500);
    let step = send(&mut s, diff(502, 503, &[], &[]));
    assert!(!s.synced);
    assert_eq!(s.sync_cycle, 2);
    assert!(!names(&step.events).contains(&"depth_applied".to_string()));

    let mut s = session_at(500);
    let step = send(&mut s, diff(501, 503, &[("95000", "4")], &[]));
    assert!(s.synced);
    assert_eq!(s.book.update_id, 503);
    assert!(names(&step.events).contains(&"depth_applied".to_string()));
}

#[test]
fn stale_event_skip() {
    let mut s = session_at(500);
    let step = send(&mut s, diff(498, 499, &[("96000.00", "0")], &[]));
    assert!(s.synced);
    assert_eq!(s.book.update_id, 500);
    assert_eq!(s.book.best_bid_price().unwrap(), "96000.00");
    assert!(!names(&step.events).contains(&"depth_applied".to_string()));

    let step = send(&mut s, diff(501, 501, &[("96000.00", "0")], &[]));
    assert_eq!(s.book.update_id, 501);
    assert!(s.book.best_bid_price().is_none());
    assert!(names(&step.events).contains(&"depth_applied".to_string()));
}

#[test]
fn old_snapshot_is_fetched_again() {
    let mut s = BinanceSession::new(1_777_506_000);
    let first = send(&mut s, diff(300, 301, &[], &[]));
    assert_eq!(first.fetch.unwrap().reason, "startup");
    let step = s.on_snapshot(&snapshot_of(299, &[], &[]));
    assert!(!s.synced);
    assert_eq!(s.buffer.len(), 1);
    assert!(step.events.is_empty());
    let again = send(&mut s, diff(302, 303, &[], &[]));
    assert_eq!(again.fetch.unwrap().attempt, 2);
}

#[test]
fn gap_is_announced_and_resync_completes() {
    let mut s = session_at(500);
    let step = send(&mut s, diff(510, 512, &[], &[]));
    let fetch = step.fetch;
    assert!(names(&step.events).iter().any(|n| n.contains("gap") || n == "error"));
    let cycle_two = match fetch {
        Some(f) => f,
        None => send(&mut s, diff(513, 514, &[], &[])).fetch.unwrap(),
    };
    assert_eq!(cycle_two.reason, "resync_after_gap");
    let step = s.on_snapshot(&snapshot_of(600, &[], &[]));
    assert!(s.synced);
    let all = names(&step.events);
    assert_eq!(&all[all.len() - 2..], &["sync_ready".to_string(), "resync_completed".to_string()]);
}

#[test]
fn reconnection_forgets_the_book() {
    let mut s = session_at(500);
    s.reconnected();
    assert!(!s.synced);
    assert!(s.buffer.is_empty());
    assert_eq!(s.book.bids.len(), 0);
}

fn ticker(b: &str, a: &str, u: i64) -> Json {
    object(
        vec![
            ("stream", text("btcusdt@bookTicker")),
            (
                "data",
                object(
                    vec![
                        ("u", Json::whole(u)),
                        ("s", text("BTCUSDT")),
                        ("b", text(b)),
                        ("B", text("2.5")),
                        ("a", text(a)),
                        ("A", text("3.5")),
                    ],
                ),
            ),
        ],
    )
}

#[test]
fn strike_is_recorded_once_at_the_start() {
    let start = 1_777_506_000;
    let mut s = BinanceSession::new(start);
    let early = s.on_message(RawJson::Null, parse_msg(&ticker("96000", "96001", 7).to_text()).unwrap(), start - 1);
    assert!(!names(&early.events).contains(&"strike_price".to_string()));
    let due = s.on_message(RawJson::Null, parse_msg(&ticker("96000", "96002", 8).to_text()).unwrap(), start);
    let strike = due.events.iter().find(|e| e.system_type.as_deref() == Some("strike_price")).unwrap();
    assert_eq!(
        value_text(&strike.normalized),
        "{\"strike_price\":\"96001\",\"strike_bid\":\"96000\",\"strike_ask\":\"96002\",\"market_start\":1777506000}",
    );
    assert!(due.feeds.iter().any(|f| matches!(
        f,
        Feed::Strike { price, market_start_ms, market_end_ms }
            if price == "96001" && *market_start_ms == start * 1000
                && *market_end_ms == (start + 300) * 1000
    )));
    let later = s.on_message(RawJson::Null, parse_msg(&ticker("1", "2", 9).to_text()).unwrap(), start + 1);
    assert!(!names(&later.events).contains(&"strike_price".to_string()));
}

#[test]
fn strike_is_the_exact_middle() {
    for (bid, ask) in [("96000.10", "96000.15"), ("1", "3"), ("0.1", "0.2"), ("96000", "96001")] {
        let b: Decimal = bid.parse().unwrap();
        let a: Decimal = ask.parse().unwrap();
        assert_eq!(strike_text(bid, ask).unwrap(), ((b + a) / Decimal::from(2)).to_string());
    }
    assert_eq!(strike_text("1", "3").unwrap(), "2");
    for whole in ["1", "-7", "18446744073709551615", "0.000000000000000000000000003", "3e-27"] {
        let half: Decimal = strike_text("0", whole).unwrap().parse().unwrap();
        let sum = whole.parse::<Decimal>().unwrap_or_default();
        assert_eq!(half * Decimal::from(2), sum);
    }
    assert_eq!(strike_text("0", "-96000.4").unwrap(), "-48000.2");
    assert_eq!(strike_text("0", "0.00").unwrap(), "0");
    assert_eq!(strike_text("x", "4").unwrap(), "2");
    assert!(
        strike_text("79228162514264337593543950335", "79228162514264337593543950335").is_none()
    );
}

#[test]
fn trade_message_is_normalized() {
    let msg = object(
        vec![
            ("stream", text("btcusdt@trade")),
            (
                "data",
                object(
                    vec![
                        ("e", text("trade")),
                        ("E", Json::whole(1002)),
                        ("t", Json::whole(55)),
                        ("p", text("96000.5")),
                        ("q", text("0.25")),
                        ("T", Json::whole(1001)),
                        ("m", Json::Bool(true)),
                    ],
                ),
            ),
        ],
    );
    let mut s = BinanceSession::new(1_777_506_000);
    let step = s.on_message(RawJson::Null, parse_msg(&msg.to_text()).unwrap(), 0);
    assert_eq!(names(&step.events), vec!["trade_raw", "trade_normalized"]);
    assert_eq!(
        value_text(&step.events[1].normalized),
        "{\"price\":\"96000.5\",\"qty\":\"0.25\",\"side\":\"SELL\",\"trade_id\":55,\"trade_time\":1001,\"event_time\":1002}",
    );
    assert!(matches!(&step.feeds[0], Feed::Trade { qty, is_buy } if qty == "0.25" && !*is_buy));
}

fn trade_text(data: &str) -> String {
    format!("{{\"stream\":\"btcusdt@trade\",\"data\":{}}}", data)
}

const TRADE: &str = "\"p\":\"1.5\",\"q\":\"2\",\"t\":3,\"T\":4,\"E\":5,\"m\":false";

#[test]
fn records_name_each_field_once() {
    assert!(parse_msg(&trade_text(&format!("{{{}}}", TRADE))).is_some());
    // Fields that are not read may be repeated, and hold anything.
    let deep = format!("{}{}", "[".repeat(300), "]".repeat(300));
    for more in ["\"x\":1,\"x\":2".to_string(), format!("\"x\":{}", deep), "\"x\":1e999".to_string()] {
        assert!(parse_msg(&trade_text(&format!("{{{},{}}}", TRADE, more))).is_some());
    }
    // A field that is read may neither be repeated, not even in another spelling, nor missing.
    for more in ["\"p\":\"1.5\"", "\"\\u0070\":\"1.5\"", "\"m\":false"] {
        assert!(parse_msg(&trade_text(&format!("{{{},{}}}", TRADE, more))).is_none());
    }
    assert!(parse_msg(&trade_text("{\"p\":\"1.5\",\"q\":\"2\",\"t\":3,\"T\":4,\"E\":5}")).is_none());
    assert!(parse_msg(&trade_text(&format!("{{{},\"x\":{{\"p\":\"9\"}}}}", TRADE))).is_some());
    // Spelled with an escape, a field is still that field.
    let spelled = TRADE.replace("\"p\"", "\"\\u0070\"");
    assert!(parse_msg(&trade_text(&format!("{{{}}}", spelled))).is_some());
    let twice = "{\"stream\":\"a@trade\",\"stream\":\"a@trade\",\"data\":{}}";
    assert!(parse_msg(twice).is_none());
}

#[test]
fn records_may_be_written_as_arrays() {
    let trade = |m: Option<Msg>| match m {
        Some(Msg::Trade(t)) => (t.p, t.q, t.t, t.trade_time, t.event_time, t.m),
        _ => panic!("a trade"),
    };
    let wanted = ("1.5".to_string(), "2".to_string(), 3, 4, 5, false);
    assert_eq!(trade(parse_msg(&trade_text("[\"1.5\",\"2\",3,4,5,false]"))), wanted);
    assert_eq!(trade(parse_msg("[\"x@trade\",[\"1.5\",\"2\",3,4,5,false]]")), wanted);
    assert!(parse_msg(&trade_text("[\"1.5\",\"2\",3,4,5]")).is_none());
    assert!(parse_msg(&trade_text("[\"1.5\",\"2\",3,4,5,false,6]")).is_none());
    match parse_msg("[\"x@depth\", [7, 8, [[\"1\",\"2\"]], []] ]") {
        Some(Msg::Depth(d)) => {
            assert_eq!((d.first_update_id, d.last_update_id), (7, 8));
            assert_eq!(d.b, pairs(&[("1", "2")]));
            assert!(d.a.is_empty());
        }
        _ => panic!("a change"),
    }
}

#[test]
fn stream_names_hold_no_escapes() {
    let data = format!("{{{}}}", TRADE);
    let named = |name: &str| format!("{{\"stream\":\"{}\",\"data\":{}}}", name, data);
    assert!(parse_msg(&named("x@trade")).is_some());
    assert!(parse_msg(&named("x\\u0040trade")).is_none());
    assert!(parse_msg(&format!("{{\"stream\":5,\"data\":{}}}", data)).is_none());
}

#[test]
fn messages_are_read_from_values() {
    let values = vec![text("1"), text("2"), text("3"), text("4"), Json::whole(5)];
    match read_msg(Stream::BookTicker, &values) {
        Some(Msg::BookTicker(t)) => {
            assert_eq!((t.b, t.bid_qty, t.a, t.ask_qty, t.u), ("1".into(), "2".into(), "3".into(), "4".into(), 5));
        }
        _ => panic!("prices"),
    }
    assert!(read_msg(Stream::Trade, &values).is_none());
    assert!(read_msg(Stream::Depth, &values).is_none());
}

#[test]
fn fields_are_picked_by_name() {
    let owned = |list: &[&str]| list.iter().map(|s| s.to_string()).collect::<Vec<_>>();
    let literals = name_literals("{\"a\\\"b\": {\"c\": [\"d:\"]}, \"e\":\":\", \"e\" : 1}");
    assert_eq!(literals, owned(&["\"a\\\"b\"", "\"e\"", "\"e\""]));
    assert_eq!(written_names("{\"\\u0065\":1,\"f\":{\"g\":2}}"), owned(&["e", "f"]));
    let fields = pairs(&[("a", "1"), ("b", "2"), ("c", "3")]);
    let written = owned(&["a", "b", "c", "c"]);
    assert_eq!(pick_slots(&fields, &written, &vec!["b", "a"]).unwrap(), owned(&["2", "1"]));
    assert!(pick_slots(&fields, &written, &vec!["a", "c"]).is_none());
    assert!(pick_slots(&fields, &written, &vec!["d"]).is_none());
    assert_eq!(read_record("{\"b\": [1, 2] ,\"a\":0}", &vec!["a", "b"]).unwrap(), owned(&["0", "[1, 2]"]));
    assert_eq!(read_record(" [ 0 , {} ] ", &vec!["a", "b"]).unwrap(), owned(&["0", "{}"]));
    assert!(read_record("5", &vec!["a"]).is_none());
}

#[test]
fn unknown_streams_are_no_messages() {
    assert!(parse_msg(&object(vec![("stream", text("btcusdt@kline"))]).to_text()).is_none());
    assert!(parse_msg("null").is_none());
    assert!(which_stream("btcusdt@kline").is_none());
    assert_eq!(which_stream("btcusdt@depth@100ms"), Some(Stream::Depth));
    assert_eq!(which_stream("depth@bookTicker"), Some(Stream::BookTicker));
    assert_eq!(which_stream("depth@bookTicker@trade"), Some(Stream::Trade));
    assert!(parse_msg("{\"stream\":\"btcusdt@kline\",\"data\":{}}").is_none());
    assert!(parse_msg("{\"stream\":").is_none());
    assert!(parse_msg("").is_none());
}

#[test]
fn book_state_lists_levels_and_spread() {
    let mut book = BinanceBook::new();
    book.load_snapshot(&snapshot_of(5, &[("10", "1"), ("9.5", "2")], &[("10.25", "3")]));
    let state = book.state(4, 5);
    assert_eq!(state.spread.unwrap(), "0.25");
    assert_eq!(state.best_bid_qty.unwrap(), "1");
    assert_eq!(state.bid_count, 2);
    assert_eq!(
        value_text(&book.snapshot(4, 5)),
        "{\"update_id\":5,\"best_bid_price\":\"10\",\"best_bid_qty\":\"1\",\"best_ask_price\":\"10.25\",\"best_ask_qty\":\"3\",\"spread\":\"0.25\",\"bid_count\":2,\"ask_count\":1,\"bids\":[[\"10\",\"1\"],[\"9.5\",\"2\"]],\"asks\":[[\"10.25\",\"3\"]],\"trigger_event\":{\"U\":4,\"u\":5}}",
    );
}

#[test]
fn snapshot_replaces_all_levels() {
    let mut book = BinanceBook::new();
    book.load_snapshot(&snapshot_of(1, &[("1", "1")], &[("2", "1")]));
    book.load_snapshot(&snapshot_of(2, &[("3", "1")], &[("4", "1")]));
    assert_eq!(book.bids.len(), 1);
    assert_eq!(book.best_bid_price().unwrap(), "3");
    assert_eq!(book.best_ask_price().unwrap(), "4");
    let (bids, asks) = book.top_levels(1);
    assert_eq!((bids.len(), asks.len()), (1, 1));
}

#[test]
fn failed_fetches_are_recorded() {
    let status = SnapshotOutcome::Status { status: 429, body: "slow down".to_string() };
    let e = snapshot_event(&status, "startup", 3);
    assert_eq!(e.event_type, "error");
    assert!(value_text(&e.raw).contains("429"));
    assert!(value_text(&e.raw).contains("slow down"));
    let failed = snapshot_event(&SnapshotOutcome::Failed("no route".to_string()), "startup", 1);
    assert!(value_text(&failed.raw).contains("no route"));
    let bad = snapshot_event(&SnapshotOutcome::BadJson("eof".to_string()), "startup", 1);
    assert!(value_text(&bad.raw).contains("eof"));
    let good = snapshot_event(
        &SnapshotOutcome::Loaded(snapshot_of(7, &[("1", "1")], &[])),
        "startup",
        1,
    );
    assert!(value_text(&good.normalized).contains("\"lastUpdateId\":7"));
}

#[test]
fn link_backs_off_and_recovers() {
    let mut link = BinanceLink::new();
    assert_eq!(link.connecting().system_type.unwrap(), "ws_connecting");
    let mut waits = vec![];
    let mut told = vec![];
    for _ in 0..7 {
        let (events, wait) = link.failed("refused", false);
        waits.push(wait);
        told.push(value_text(&events[1].normalized));
    }
    assert_eq!(told[0], "{\"backoff\":1.0}");
    assert_eq!(told[3], "{\"backoff\":8.0}");
    assert_eq!(told[6], "{\"backoff\":16.0}");
    let wanted = [1, 2, 4, 8, 16, 16, 16].map(|after_secs| Next::Connect { after_secs });
    assert_eq!(waits, wanted);
    link.connected();
    assert_eq!(link.failed("refused", false).1, Next::Connect { after_secs: 1 });
    assert_eq!(link.failed("refused", true).1, Next::Stop);
}

#[test]
fn only_a_stop_ends_the_link() {
    let link = BinanceLink::new();
    let (events, next) = link.closed(false);
    let told: Vec<_> = events.iter().map(|e| e.system_type.clone().unwrap()).collect();
    assert_eq!(told, vec!["ws_disconnected", "ws_reconnecting"]);
    assert_eq!(next, Next::Connect { after_secs: 0 });
    let (events, next) = link.closed(true);
    assert!(events.is_empty());
    assert_eq!(next, Next::Stop);
}
