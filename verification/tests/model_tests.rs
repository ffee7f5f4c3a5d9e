use bookview_collector::backtest::{
    fv_line, read_mid_line, sample_due, BinanceEvent, MidLine, PolyMids, Tape,
};
use bookview_collector::decimal::Dec;
use bookview_collector::fair_value::{
    blends_depth, can_sample, depth_stale, move_counts, vol_label, Double, FairValueRun,
    FairValueSnapshot, Latest, VolTimescale,
};
use bookview_collector::float::{
    absolute, at_most, finite, less, negated, number, positive, same,
};
use bookview_collector::json::{Json, JsonNumber};
use bookview_collector::levels::{change_level, list_ascending, set_level};
use bookview_collector::lstm_inference::{read_stats, NUM_FEATURES};
use bookview_collector::number::{parse_i64, parse_u64};
use bookview_collector::sim::market_data::PriceLevel;
use bookview_collector::text::{
    contains_text, ends_with_text, is_before, same_text, u64_text,
};
use bookview_collector::types::RawJson;
use std::collections::BTreeMap;

fn b(x: f64) -> u64 {
    x.to_bits()
}

#[test]
fn doubles_are_ordered_as_numbers() {
    let all = [
        0.0,
        -0.0,
        1.0,
        -1.0,
        0.5,
        f64::MIN_POSITIVE,
        5e-324,
        f64::MAX,
        f64::MIN,
        f64::INFINITY,
        f64::NEG_INFINITY,
        f64::NAN,
        -f64::NAN,
    ];
    for x in all {
        assert_eq!(number(b(x)), !x.is_nan());
        assert_eq!(finite(b(x)), x.is_finite());
        assert_eq!(positive(b(x)), x > 0.0);
        assert_eq!(absolute(b(x)), b(x.abs()));
        assert_eq!(negated(b(x)), b(-x));
        for y in all {
            assert_eq!(less(b(x), b(y)), x < y);
            assert_eq!(at_most(b(x), b(y)), x <= y);
            assert_eq!(same(b(x), b(y)), x == y);
        }
    }
}

#[test]
fn numbers_are_parsed_as_by_the_standard_library() {
    for s in ["", "0", "42", "+7", "-1", "--1", "+", "-", " 1", "1 ", "007", "18446744073709551615",
        "18446744073709551616", "9223372036854775807", "9223372036854775808",
        "-9223372036854775808", "-9223372036854775809", "1e3", "１"]
    {
        assert_eq!(parse_u64(s), s.parse::<u64>().ok(), "{}", s);
        assert_eq!(parse_i64(s), s.parse::<i64>().ok(), "{}", s);
    }
}

#[test]
fn texts_are_compared() {
    assert!(same_text("ab", "ab") && !same_text("ab", "abc"));
    assert!(contains_text("xabcx", "abc") && contains_text("x", "") && !contains_text("ab", "abc"));
    assert!(ends_with_text("abc", "bc") && !ends_with_text("abc", "ab"));
    assert_eq!(u64_text(u64::MAX), u64::MAX.to_string());
    let words = ["", "a", "ab", "b", "é", "Z"];
    for x in words {
        for y in words {
            assert_eq!(is_before(x, y), x < y);
        }
    }
}

#[test]
fn decimals_are_written_with_their_scale() {
    for (m, s, t) in [(10, 0, "10"), (5, 2, "0.05"), (-1250, 3, "-1.250"), (0, 2, "0.00")] {
        assert_eq!(Dec { mantissa: m, scale: s }.to_text(), t);
        assert_eq!(
            rust_decimal::Decimal::from_i128_with_scale(m, s).to_string(),
            t,
        );
    }
}

#[test]
fn levels_are_keyed_by_price() {
    let mut side = BTreeMap::new();
    set_level(&mut side, 1_000_000, "0.5", "1");
    set_level(&mut side, 1_000_000, "0.50", "2");
    change_level(&mut side, 1_000_000, "0.4", "3");
    assert_eq!(
        list_ascending(&side).iter().map(|l| (l.price.clone(), l.qty.clone())).collect::<Vec<_>>(),
        vec![("0.4".to_string(), "3".to_string()), ("0.50".to_string(), "2".to_string())],
    );
    change_level(&mut side, 1_000_000, "0.500", "0.0");
    assert_eq!(list_ascending(&side).len(), 1);
    change_level(&mut side, 1_000_000, "0.9", "0");
    assert_eq!(list_ascending(&side).len(), 1);
}

#[test]
fn books_out_of_step_are_stale() {
    let stale = |bid, ask| depth_stale(b(bid), b(ask), b(100.0), b(101.0), false);
    assert!(!stale(100.0, 101.0));
    assert!(stale(99.0, 101.0));
    assert!(stale(100.0, 102.0));
    assert!(stale(101.5, 101.0));
    assert!(stale(100.0, 99.5));
    assert!(depth_stale(b(1.0), b(2.0), b(0.0), b(3.0), true));
    assert!(!depth_stale(b(1.0), b(2.0), b(0.0), b(3.0), false));
    assert!(move_counts(b(1.0), 10, 11) && !move_counts(b(1.0), 10, 10));
    assert!(move_counts(b(1.0), 1, 5000) && !move_counts(b(1.0), 1, 5001));
    assert!(!move_counts(b(0.0), 10, 11) && !move_counts(b(1.0), 0, 11));
    assert!(blends_depth(false, b(1.0)) && !blends_depth(true, b(1.0)) && !blends_depth(false, b(0.0)));
    assert!(can_sample(true, b(1.0), 1, 2) && !can_sample(true, b(1.0), 2, 2));
    assert!(!can_sample(false, b(1.0), 1, 2) && !can_sample(true, b(0.0), 1, 2));
    assert_eq!(vol_label(VolTimescale::Rv1s), "rv1s");
    assert_eq!(vol_label(VolTimescale::Rv5s), "rv5s");
    assert_eq!(vol_label(VolTimescale::Rv15s), "rv15s");
}

fn latest(bba: i64, strike: bool) -> Latest {
    Latest {
        bba_ts: Some(bba),
        depth_ts: None,
        trade_ts: Some(5),
        strike: if strike { Some((b(96000.5), "96000.5".to_string())) } else { None },
    }
}

fn value_text(r: &RawJson) -> String {
    match r {
        RawJson::Null => "null".to_string(),
        RawJson::Raw(s) => s.clone(),
        RawJson::Value(j) => j.to_text(),
    }
}

#[test]
fn samples_lie_in_the_market() {
    let mut r = FairValueRun::new(1000);
    assert_eq!(r.market_end_ms(), 1_300_000);
    assert_eq!(
        value_text(&r.warmup_event().normalized),
        "{\"market_end_ms\":1300000,\"market_start\":1000}",
    );
    let step = r.tick(999_999, &latest(10, true));
    assert!(step.take_bba && step.take_trade && !step.take_depth && !step.sample);
    let step = r.tick(1_000_000, &latest(10, false));
    assert!(!step.take_bba && !step.take_trade && !step.sample);
    let step = r.tick(1_000_100, &latest(11, true));
    assert!(step.take_bba && step.sample);
    assert_eq!(value_text(&step.events[0].normalized), "{\"strike_price\":96000.5}");
    let step = r.tick(1_300_000, &latest(11, true));
    assert!(step.sample && step.events.is_empty());
    let step = r.tick(1_300_001, &latest(12, true));
    assert!(step.stop && !step.sample);
    assert_eq!(value_text(&step.events[0].normalized), "{\"reason\":\"market_expired\"}");
}

fn d(x: f64) -> Double {
    Double { bits: b(x), text: serde_json::to_string(&x).unwrap() }
}

fn snapshot() -> FairValueSnapshot {
    FairValueSnapshot {
        tau: d(120.5),
        microprice: d(1.0),
        depth_microprice: d(2.0),
        blended_spot: d(3.0),
        strike_price: d(4.0),
        rv_1s: d(0.1),
        rv_5s: d(0.2),
        rv_15s: d(0.3),
        sigma_returns: d(0.4),
        sigma_dollars: d(0.5),
        trade_imbalance: d(-0.5),
        book_imbalance: d(0.25),
        mu: d(0.0),
        z_score: Double { bits: b(f64::NAN), text: "NaN".to_string() },
        fair_yes: d(0.6),
        fair_no: d(0.4),
        lstm_fair_yes: None,
        lstm_fair_no: Some(d(0.3)),
    }
}

#[test]
fn snapshots_are_recorded() {
    let s = snapshot().to_json().to_text();
    let v: serde_json::Value = serde_json::from_str(&s).unwrap();
    assert_eq!(v["tau"].as_f64(), Some(120.5));
    assert!(v["z_score"].is_null());
    assert_eq!(v["lstm_fair_no"].as_f64(), Some(0.3));
    assert_eq!(snapshot().event().event_type, "fv_sample");
    let line = fv_line(1000, 5100, &d(5.1), 3, &snapshot()).to_text();
    let v: serde_json::Value = serde_json::from_str(&line).unwrap();
    assert_eq!(v["seq"].as_u64(), Some(3));
    assert_eq!(v["ts_recv_ms"].as_i64(), Some(5100));
    assert_eq!(v["normalized"]["fair_yes"].as_f64(), Some(0.6));
}

#[test]
fn samples_are_a_tenth_of_a_second_apart() {
    let trade = |ts_ms| BinanceEvent::Trade { ts_ms, qty: b(1.0), is_buy: true };
    assert_eq!(sample_due(&trade(1000), 1000, 2000, 900), Some(1000));
    assert_eq!(sample_due(&trade(1000), 1000, 2000, 901), None);
    assert_eq!(sample_due(&trade(999), 1000, 2000, 0), None);
    assert_eq!(sample_due(&trade(2001), 1000, 2000, 0), None);
    let depth = BinanceEvent::Depth { bids: vec![], asks: vec![] };
    assert_eq!(sample_due(&depth, 0, 2000, 0), None);
}

#[test]
fn tapes_tell_the_outcome() {
    let mut t = Tape::new(1000);
    assert_eq!(t.outcome().err().unwrap(), "No strike price");
    t.add_strike(b(0.0));
    t.add_strike(b(100.0));
    t.add_ticker(1, b(99.0), b(1.0), b(103.0), b(1.0), b(101.0));
    t.add_ticker(1_320_001, b(9.0), b(1.0), b(11.0), b(1.0), b(10.0));
    assert_eq!(t.outcome().ok(), Some((b(100.0), true)));
    t.add_ticker(2, b(99.0), b(1.0), b(101.0), b(1.0), b(100.0));
    assert_eq!(t.outcome().ok(), Some((b(100.0), false)));
    t.add_trade(3, b(0.0), true);
    t.add_trade(3, b(1.0), true);
    t.add_depth(vec![], vec![PriceLevel { price: b(1.0), size: b(1.0) }]);
    assert_eq!(t.events.len(), 4);
}

#[test]
fn middle_prices_are_found() {
    let mut p = PolyMids::new();
    p.add(1000, b(0.4), b(0.6), b(0.5));
    p.add(1400, b(0.5), b(0.7), b(0.6));
    p.add(1200, b(0.0), b(0.7), b(0.35));
    assert_eq!(p.find_nearest_poly_mid(1100), Some(b(0.5)));
    assert_eq!(p.find_nearest_poly_mid(1300), Some(b(0.6)));
    assert_eq!(p.find_nearest_poly_mid(500), Some(b(0.5)));
    assert_eq!(p.find_nearest_poly_mid(499), None);
    assert_eq!(p.find_nearest_poly_mid(1900), Some(b(0.6)));
    assert_eq!(p.find_nearest_poly_mid(1901), None);
}

fn object(fields: Vec<(&str, Json)>) -> Json {
    Json::object(fields.into_iter().map(|(k, v)| (k.to_string(), v)).collect())
}

#[test]
fn prices_of_the_first_token_are_read() {
    let mut up = None;
    let state = object(vec![
        ("event_type", Json::text("book_state")),
        ("ts_recv_ms", Json::whole(9)),
        (
            "normalized",
            object(vec![("asset_id", Json::text("u")), ("best_bid", Json::text("0.4"))]),
        ),
    ]);
    assert!(matches!(read_mid_line(&state, &mut up), MidLine::Nothing));
    let lookup = object(vec![
        ("event_type", Json::text("market_lookup")),
        ("raw", object(vec![("clobTokenIds", Json::Array(vec![Json::text("u"), Json::text("d")]))])),
    ]);
    read_mid_line(&lookup, &mut up);
    assert_eq!(up.as_deref(), Some("u"));
    match read_mid_line(&state, &mut up) {
        MidLine::Prices { ts_ms, bid, ask } => {
            assert_eq!((ts_ms, bid.as_deref(), ask.as_deref()), (9, Some("0.4"), None));
        }
        _ => panic!("prices"),
    }
}

fn list(n: usize) -> Json {
    Json::Array((0..n).map(|i| Json::count(i as u64)).collect())
}

#[test]
fn statistics_are_checked() {
    let s = read_stats(&object(vec![("means", list(NUM_FEATURES)), ("stds", list(NUM_FEATURES))]))
        .ok()
        .unwrap();
    assert_eq!(s.means.len(), 14);
    assert!(matches!(s.stds[3], Some(JsonNumber::PosInt(3))));
    let fault = |j: Json| read_stats(&j).err().unwrap();
    assert_eq!(fault(object(vec![])), "missing means");
    assert_eq!(fault(object(vec![("means", list(14))])), "missing stds");
    assert_eq!(
        fault(object(vec![("means", list(14)), ("stds", list(13))])),
        "feature stats have wrong dimensions: 14/13",
    );
}
