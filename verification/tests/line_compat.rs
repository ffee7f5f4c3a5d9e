use bookview_collector::json::{Json, JsonNumber};
use bookview_collector::polymarket::LocalBook;
use bookview_collector::types::{
    is_zero_decimal, make_line, make_system_line, parse_decimal_key, push_seconds, Event, RawJson,
};
use bookview_collector::writer::{Journal, SeqCounter};

fn object(fields: Vec<(&str, Json)>) -> Json {
    Json::object(fields.into_iter().map(|(k, v)| (k.to_string(), v)).collect())
}

#[test]
fn system_line_matches_python_format() {
    let normalized = object(
        vec![
            ("market_start", Json::whole(1777506000)),
            ("pid", Json::whole(19090)),
            ("stop_at", Json::whole(1777506320)),
        ],
    );
    let line = make_system_line(
        1777505930193,
        19090,
        1777506000,
        "polymarket",
        1,
        RawJson::of(normalized),
        "worker_started",
    );
    let serialized = line.to_text();
    assert!(serialized.contains("\"raw\":null"), "raw should be null, not absent");
    assert!(
        serialized.contains("\"system_type\":\"worker_started\""),
        "system_type should be present"
    );
    assert!(
        serialized.contains("\"ts_recv_unix\":1777505930.193"),
        "ts_recv_unix should have 3 decimal places"
    );
    assert_eq!(
        serialized,
        "{\"ts_recv_ms\":1777505930193,\"ts_recv_unix\":1777505930.193,\"market_start\":1777506000,\"collector_pid\":19090,\"source\":\"polymarket\",\"event_type\":\"system\",\"seq\":1,\"raw\":null,\"normalized\":{\"market_start\":1777506000,\"pid\":19090,\"stop_at\":1777506320},\"system_type\":\"worker_started\"}",
    );
}

#[test]
fn non_system_line_omits_system_type() {
    let line = make_line(
        1777505930193,
        19090,
        1777506000,
        "polymarket",
        "book_raw",
        1,
        RawJson::of(object(vec![("some", Json::text("data"))])),
        RawJson::of(object(vec![("asset_id", Json::text("abc"))])),
    );
    let serialized = line.to_text();
    assert!(
        !serialized.contains("system_type"),
        "system_type should be absent when None"
    );
    assert!(serialized.contains("\"raw\":{\"some\":\"data\"}"));
    assert!(serialized.contains("\"normalized\":{\"asset_id\":\"abc\"}"));
}

fn seconds(ms: u64) -> String {
    let mut s = String::new();
    push_seconds(&mut s, ms);
    s
}

#[test]
fn ts_recv_unix_precision() {
    assert_eq!(seconds(1777505930193), "1777505930.193");
    assert_eq!(seconds(1777505930100), "1777505930.1");
}

#[test]
fn seconds_are_written_as_doubles_are() {
    for ms in [0u64, 1, 5, 10, 50, 100, 120, 999, 1000, 1001, 1777505930000, 1777505930090] {
        let shortest = serde_json::to_string(&(ms as f64 / 1000.0)).unwrap();
        assert_eq!(seconds(ms), shortest);
    }
}

#[test]
fn prices_as_strings() {
    let mut book = LocalBook::new();
    book.apply_delta("BUY", "0.55", "1200");
    book.apply_delta("BUY", "0.54", "800");
    book.apply_delta("SELL", "0.56", "1000");
    book.apply_delta("SELL", "0.57", "500");
    let serialized = book.state("12345", Some("0.55"), "book").to_json().to_text();
    assert!(serialized.contains("\"0.55\""), "Prices must be strings");
    assert!(!serialized.contains(":0.55"), "Prices must NOT be bare numbers");
}

#[test]
fn text_is_escaped_as_json() {
    for s in ["plain", "a\"b\\c", "tab\tline\nret\r", "\u{8}\u{c}\u{1}\u{1f}", "höhe €", "\u{7f}"] {
        assert_eq!(Json::text(s).to_text(), serde_json::to_string(s).unwrap());
    }
    let j = object(
        vec![
            ("z", Json::Null),
            ("b", Json::Array(vec![Json::Bool(true), Json::whole(-5), Json::count(u64::MAX)])),
            ("a", Json::double(0.1f64.to_bits(), "0.1")),
        ],
    );
    let parsed: serde_json::Value = serde_json::from_str(&j.to_text()).unwrap();
    assert_eq!(j.to_text(), "{\"a\":0.1,\"b\":[true,-5,18446744073709551615],\"z\":null}");
    assert_eq!(j.to_text(), parsed.to_string());
}

#[test]
fn texts_are_read_as_values() {
    let text = " {\"z\": [1, -2, 0.5, 1e3, null, true, 18446744073709551616], \"a\": {\"b\": \"x\\u00e9\"}} ";
    let j = Json::parse(text).unwrap();
    assert_eq!(
        j.to_text(),
        "{\"a\":{\"b\":\"xé\"},\"z\":[1,-2,0.5,1000.0,null,true,1.8446744073709552e+19]}",
    );
    match j.get("z") {
        Some(Json::Array(items)) => {
            assert!(matches!(items[0], Json::Number(JsonNumber::PosInt(1))));
            assert!(matches!(items[1], Json::Number(JsonNumber::NegInt(-2))));
            assert!(matches!(
                &items[2],
                Json::Number(JsonNumber::Float { bits, text }) if *bits == 0.5f64.to_bits() && text == "0.5"
            ));
        }
        _ => panic!("a list"),
    }
    assert_eq!(Json::parse("{\"a\":1,\"a\":2}").unwrap().to_text(), "{\"a\":2}");
    assert_eq!(
        Json::parse("[1").err().unwrap(),
        serde_json::from_str::<serde_json::Value>("[1").unwrap_err().to_string(),
    );
    let value: serde_json::Value = serde_json::from_str(text).unwrap();
    assert_eq!(Json::from_value(&value).to_text(), j.to_text());
}

#[test]
fn field_order_does_not_matter() {
    let a = object(vec![("x", Json::whole(1)), ("y", Json::whole(2)), ("x", Json::whole(3))]);
    let b = object(vec![("y", Json::whole(2)), ("x", Json::whole(3))]);
    assert_eq!(a.to_text(), b.to_text());
    assert_eq!(a.to_text(), "{\"x\":3,\"y\":2}");
}

#[test]
fn doubles_without_a_value_are_null() {
    assert_eq!(Json::double(f64::NAN.to_bits(), "NaN").to_text(), "null");
    assert_eq!(Json::double(f64::INFINITY.to_bits(), "inf").to_text(), "null");
    assert_eq!(Json::double(1.5f64.to_bits(), "1.5").to_text(), "1.5");
}

#[test]
fn truth_of_values() {
    assert!(!Json::Null.is_truthy());
    assert!(!Json::whole(0).is_truthy());
    assert!(!Json::text("").is_truthy());
    assert!(!Json::Array(vec![]).is_truthy());
    assert!(Json::whole(2).is_truthy());
    assert!(Json::text("false").is_truthy());
    assert!(!Json::Bool(false).is_truthy());
}

#[test]
fn raw_text_is_kept_as_it_came() {
    let odd = "{ \"b\" : 1,  \"a\":2 }".to_string();
    match RawJson::from_string(odd.clone()) {
        RawJson::Raw(s) => assert_eq!(s, odd),
        _ => panic!("valid JSON is kept"),
    }
    assert!(matches!(RawJson::from_string("{broken".to_string()), RawJson::Null));
    assert!(matches!(RawJson::of(Json::Null), RawJson::Null));
}

#[test]
fn decimal_keys_are_fixed_point() {
    assert_eq!(parse_decimal_key("96001.50", 100_000_000), 9_600_150_000_000);
    assert_eq!(parse_decimal_key("0.55", 1_000_000), 550_000);
    assert_eq!(parse_decimal_key("0.123456789", 1_000_000), 123_456);
    assert_eq!(parse_decimal_key("7", 1_000_000), 7_000_000);
    assert_eq!(parse_decimal_key("0.5", 1_000_000), parse_decimal_key("00.500000", 1_000_000));
    let rising = ["0", ".000001", "0.1", "0.15", "0.2", "1", "9.99", "10", "96000.1", "96000.10001"];
    for pair in rising.windows(2) {
        assert!(parse_decimal_key(pair[0], 1_000_000) < parse_decimal_key(pair[1], 1_000_000));
    }
    assert_eq!(parse_decimal_key("0.0000001", 1_000_000), 0);
    assert!(!is_zero_decimal("0.0000001"));
    assert_eq!(parse_decimal_key("", 1_000_000), 0);
}

#[test]
fn zero_sizes() {
    for s in ["0", "0.0", "0.00000000", "00", ".", ""] {
        assert!(is_zero_decimal(s), "{}", s);
    }
    for s in ["1", "0.01", "10"] {
        assert!(!is_zero_decimal(s), "{}", s);
    }
}

#[test]
fn numbers_of_lines_have_no_gaps() {
    let mut c = SeqCounter::new();
    assert_eq!(c.left(), u64::MAX);
    assert_eq!((c.next(), c.next(), c.next()), (1, 2, 3));
    let mut journal = Journal::new(1777506000, "binance", 7);
    let lines = journal.stamp_all(
        vec![
            Event::data("trade_raw", RawJson::Null, RawJson::Null),
            Event::system("ws_connected", RawJson::Null),
        ],
        1777505930193,
    );
    assert_eq!(lines.iter().map(|l| l.seq).collect::<Vec<_>>(), vec![1, 2]);
    assert_eq!(lines[1].system_type.as_deref(), Some("ws_connected"));
    assert_eq!(lines[0].source, "binance");
    let next = journal.stamp(Event::data("x", RawJson::Null, RawJson::Null), 5);
    assert_eq!((next.seq, next.ts_recv_ms, next.collector_pid), (3, 5, 7));
}
