use bookview_collector::binance::{BookTickerMsg, Msg, TradeMsg};
use bookview_collector::binance_sync::BinanceSession;
use bookview_collector::fair_value::{Double, FairValueSnapshot};
use bookview_collector::json::{Json, JsonNumber};
use bookview_collector::polymarket::LocalBook;
use bookview_collector::sim::market_data::{
    read_clob_line, read_depth_line, read_fair_value_line, ClobLine, DepthLine, NumText, TokenIds,
    TokenSide,
};
use bookview_collector::types::{Event, RawJson};
use bookview_collector::writer::Journal;

/// The line of an event, written and parsed.
fn written(event: Event) -> Json {
    let mut journal = Journal::new(1_777_506_300, "test", 7);
    let text = journal.stamp(event, 1_777_506_301_234).to_text();
    Json::parse(&text).unwrap()
}

fn is_text(n: &NumText, wanted: &str) -> bool {
    matches!(n, NumText::Text(s) if s == wanted)
}

#[test]
fn books_are_read_back() {
    let level = |p: &str, q: &str| {
        Json::object(vec![
            ("price".to_string(), Json::text(p)),
            ("size".to_string(), Json::text(q)),
        ])
    };
    let mut book = LocalBook::new();
    let bids = Json::Array(vec![level("0.40", "10"), level("0.42", "5")]);
    let asks = Json::Array((0..60).map(|i| level(&format!("0.{}", 50 + i), "1")).take(49).collect());
    book.replace(Some(&bids), Some(&asks));
    let line = written(Event::data(
        "book_state",
        RawJson::Null,
        book.snapshot_full("up", Some("0.41"), "book"),
    ));
    let mut ids = TokenIds { up: "up".to_string(), down: "down".to_string() };
    match read_clob_line(&line, &mut ids) {
        ClobLine::Book { ts_ms, token, best_bid, best_ask, bids, asks } => {
            assert_eq!((ts_ms, token), (1_777_506_301_234, TokenSide::Up));
            assert!(is_text(&best_bid, "0.42") && is_text(&best_ask, "0.50"));
            assert_eq!(bids[0], ("0.42".to_string(), "5".to_string()));
            assert_eq!(bids[1], ("0.40".to_string(), "10".to_string()));
            assert_eq!(asks.len(), 49);
        }
        _ => panic!("no book"),
    }
}

#[test]
fn prices_trades_and_strikes_are_read_back() {
    let mut session = BinanceSession::new(1_777_506_300);
    let ticker = BookTickerMsg {
        u: 5,
        b: "96000.10".to_string(),
        bid_qty: "1.5".to_string(),
        a: "96000.20".to_string(),
        ask_qty: "2".to_string(),
    };
    let step = session.on_message(RawJson::Null, Msg::BookTicker(ticker), 1_777_506_300);
    let lines: Vec<Json> = step.events.into_iter().map(written).collect();
    assert!(matches!(read_depth_line(&lines[0]), DepthLine::Nothing));
    match read_depth_line(&lines[1]) {
        DepthLine::Ticker { bid, bid_qty, ask, ask_qty, .. } => {
            assert!(is_text(&bid, "96000.10") && is_text(&bid_qty, "1.5"));
            assert!(is_text(&ask, "96000.20") && is_text(&ask_qty, "2"));
        }
        _ => panic!("no prices"),
    }
    match read_depth_line(&lines[2]) {
        DepthLine::Strike { price } => assert!(is_text(&price, "96000.15")),
        _ => panic!("no strike"),
    }
    let trade = TradeMsg {
        t: 9,
        p: "96000.15".to_string(),
        q: "0.25".to_string(),
        m: true,
        trade_time: 1,
        event_time: 2,
    };
    let step = session.on_message(RawJson::Null, Msg::Trade(trade), 1_777_506_300);
    let lines: Vec<Json> = step.events.into_iter().map(written).collect();
    match read_depth_line(&lines[1]) {
        DepthLine::Trade { price, qty, is_buy, .. } => {
            assert!(is_text(&price, "96000.15") && is_text(&qty, "0.25") && !is_buy);
        }
        _ => panic!("no trade"),
    }
}

#[test]
fn samples_are_read_back() {
    let d = |x: f64| Double { bits: x.to_bits(), text: serde_json::to_string(&x).unwrap() };
    let sample = FairValueSnapshot {
        tau: d(120.5),
        microprice: d(1.0),
        depth_microprice: d(2.0),
        blended_spot: d(3.0),
        strike_price: d(4.0),
        rv_1s: d(0.1),
        rv_5s: d(0.2),
        rv_15s: d(0.3),
        sigma_returns: d(0.004),
        sigma_dollars: d(5.0),
        trade_imbalance: d(-0.5),
        book_imbalance: d(0.25),
        mu: d(0.0),
        z_score: d(f64::NAN),
        fair_yes: d(0.625),
        fair_no: d(0.375),
        lstm_fair_yes: Some(d(0.75)),
        lstm_fair_no: None,
    };
    let line = read_fair_value_line(&written(sample.event())).unwrap();
    let value = |n: &Option<JsonNumber>| match n {
        Some(JsonNumber::Float { bits, .. }) => Some(f64::from_bits(*bits)),
        _ => None,
    };
    assert_eq!(line.ts_ms, 1_777_506_301_234);
    assert_eq!(value(&line.tau), Some(120.5));
    assert_eq!(value(&line.fair_yes), Some(0.625));
    assert_eq!(value(&line.fair_no), Some(0.375));
    assert_eq!(value(&line.lstm_fair_yes), Some(0.75));
    assert_eq!(value(&line.lstm_fair_no), None);
    assert_eq!(value(&line.z_score), None);
    assert_eq!(value(&line.trade_imbalance), Some(-0.5));
    assert_eq!(value(&line.book_imbalance), Some(0.25));
    assert_eq!(value(&line.sigma_returns), Some(0.004));
}
