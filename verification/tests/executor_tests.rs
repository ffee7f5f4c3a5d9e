use alloy::primitives::Address;
use bookview_collector::decimal::Dec;
use bookview_collector::executor::auth::{key_digits, AuthError};
use bookview_collector::executor::clob::{
    post_only_outcome, token_id, token_or_failure, token_pair, ClobError, LimitOrderParams,
    OrderResponse, OrderState, PostAnswer,
};
use bookview_collector::executor::config::{
    parse_bool, AppConfig, ConfigError, EnvVars, SecretString, SignatureType,
};
use bookview_collector::executor::fv_convergence::{
    AskQuote, BidQuote, BuyQuote, Fill, FvConvergenceStrategy, HeldQuote, Phase, Tick,
};
use bookview_collector::executor::order_manager::{
    buy_no_market, buy_yes_market, place_limit, OrderPlan,
};
use bookview_collector::executor::risk::{check_order, Moment, OrderParams, RiskError};
use bookview_collector::executor::runner::{
    action_event, action_log, active_event, check_fill, finish_cancel, finish_cancel_all,
    finish_order, finish_register, finish_split, plan_action, read_report, registers_after_split,
    rehearsed_fill_event,
    started_event, stopped_event, ActionPlan, ExecutorRun, FillCheck, Incident, OrderReport,
    Reaction, Stage, StopReason,
};
use bookview_collector::executor::state::{update_position, ExecutorState, Position};
use bookview_collector::executor::strategy::{
    Action, ActionResult, NoopStrategy, Num, OrderSide, Strategy, TokenSide,
};
use bookview_collector::poly_gamma::MarketInfo;
use bookview_collector::types::RawJson;
use rust_decimal::Decimal;

const WALLET: &str = "0xd8dA6BF26964aF9D7eEd9e03E53415D37aA96045";
const START: i64 = 1_777_506_000;

fn num(x: f64) -> Num {
    let d = Decimal::try_from(x).unwrap_or_default();
    Num {
        bits: x.to_bits(),
        dec: Dec { mantissa: d.mantissa(), scale: d.scale() },
        shown: x.to_string(),
        json: serde_json::to_string(&x).unwrap(),
    }
}

fn dec(s: &str) -> Dec {
    let d: Decimal = s.parse().unwrap();
    Dec { mantissa: d.mantissa(), scale: d.scale() }
}

fn env() -> EnvVars {
    EnvVars {
        private_key: Some("0xabc".to_string()),
        wallet_address: Some(WALLET.to_string()),
        funder_address: None,
        signature_type: None,
        clob_host: None,
        gamma_host: None,
        bridge_host: None,
        rpc_url: None,
        relayer_host: None,
        relayer_api_key: None,
        relayer_api_secret: None,
        relayer_passphrase: None,
        chain_id: None,
        dry_run: None,
        enable_test_order: None,
        max_order_size: None,
        max_position_size: None,
        order_price_min: None,
        order_price_max: None,
        strategy: None,
        split_amount: None,
        order_size: Some(num(5.0)),
        max_markets: None,
    }
}

fn live() -> AppConfig {
    let mut v = env();
    v.dry_run = Some("false".to_string());
    AppConfig::try_from_env(&v).unwrap()
}

fn rehearsal() -> AppConfig {
    AppConfig::try_from_env(&env()).unwrap()
}

fn info() -> MarketInfo {
    MarketInfo {
        condition_id: "0xc0".to_string(),
        clob_token_ids: vec!["11".to_string(), "22".to_string()],
        slug: "btc-updown-5m-1777506000".to_string(),
        market_start: START,
    }
}

fn state() -> ExecutorState {
    ExecutorState {
        market_info: Some(info()),
        open_orders: vec![],
        position: Position::new(),
        last_bba_update_ms: Some(0),
    }
}

fn moment(now: i64, age: Option<u64>) -> Moment {
    Moment {
        now,
        bba_age_ms: age,
        bba_age_text: format!("{:.1}", age.unwrap_or(0) as f64 / 1000.0),
    }
}

fn value_text(r: &RawJson) -> String {
    match r {
        RawJson::Null => "null".to_string(),
        RawJson::Raw(s) => s.clone(),
        RawJson::Value(j) => j.to_text(),
    }
}

#[test]
fn settings_have_defaults() {
    let c = rehearsal();
    assert_eq!(c.private_key.expose(), "0xabc");
    let expected: Address = WALLET.parse().unwrap();
    assert_eq!(c.wallet_address, expected.to_vec());
    assert!(c.funder_address.is_none());
    assert_eq!(c.signature_type, SignatureType::Eoa);
    assert_eq!(c.clob_host, "https://clob.polymarket.com");
    assert_eq!(c.gamma_host, "https://gamma-api.polymarket.com");
    assert_eq!(c.bridge_host, "https://bridge.polymarket.com");
    assert_eq!(c.rpc_url, "https://polygon-rpc.com");
    assert_eq!(c.relayer_host, "https://relayer-v2.polymarket.com");
    assert_eq!(c.chain_id, 137);
    assert!(c.dry_run);
    assert!(!c.enable_test_order);
    assert_eq!(c.max_order_size.to_text(), "10");
    assert_eq!(c.max_position_size.to_text(), "50");
    assert_eq!(c.order_price_min.to_text(), "0.05");
    assert_eq!(c.order_price_max.to_text(), "0.95");
    assert_eq!(c.strategy_name, "noop");
    assert_eq!((c.split_amount, c.max_markets), (10, 0));
}

#[test]
fn settings_are_read() {
    let mut v = env();
    v.signature_type = Some("proxy".to_string());
    v.funder_address = Some(WALLET.to_string());
    v.relayer_api_key = Some("k".to_string());
    v.relayer_api_secret = Some(String::new());
    v.chain_id = Some("80002".to_string());
    v.max_order_size = Some("2.50".to_string());
    v.strategy = Some("fv_convergence".to_string());
    let c = AppConfig::from_env(&v).ok().unwrap();
    assert_eq!(c.signature_type, SignatureType::Proxy);
    assert_eq!(c.funder_address.unwrap().len(), 20);
    assert_eq!(c.relayer_api_key.unwrap().expose(), "k");
    assert!(c.relayer_api_secret.is_none());
    assert_eq!(c.chain_id, 80002);
    assert_eq!(c.max_order_size.to_text(), "2.50");
    assert_eq!(c.strategy_name, "fv_convergence");
}

#[test]
fn faulty_settings_are_refused() {
    let spoil: Vec<fn(&mut EnvVars)> = vec![
        |v| v.private_key = None,
        |v| v.wallet_address = None,
        |v| v.wallet_address = Some("0x12".to_string()),
        |v| v.signature_type = Some("9".to_string()),
        |v| v.chain_id = Some("abc".to_string()),
        |v| v.dry_run = Some("yes".to_string()),
        |v| v.max_order_size = Some("0".to_string()),
        |v| v.max_order_size = Some("x".to_string()),
        |v| v.order_price_min = Some("0.95".to_string()),
        |v| v.order_price_min = Some("0".to_string()),
        |v| v.order_price_max = Some("1".to_string()),
        |v| v.order_size = None,
        |v| v.split_amount = Some("-1".to_string()),
    ];
    for f in spoil {
        let mut v = env();
        f(&mut v);
        assert!(AppConfig::try_from_env(&v).is_none());
        match AppConfig::from_env(&v) {
            Err(e) => assert_eq!(
                e.message(),
                "missing required env var: PRIVATE_KEY or POLYMARKET_WALLET_ADDRESS",
            ),
            Ok(_) => panic!("accepted"),
        }
    }
}

#[test]
fn secrets_do_not_show() {
    assert_eq!(SecretString::new("hush").shown(), "[REDACTED]");
    let mut v = env();
    v.relayer_api_key = Some("k1".to_string());
    let a = AppConfig::try_from_env(&v).unwrap();
    v.relayer_api_key = Some("k2".to_string());
    v.private_key = Some("other".to_string());
    let b = AppConfig::try_from_env(&v).unwrap();
    assert_eq!(a.shown("5.0"), b.shown("5.0"));
    let wallet: Address = WALLET.parse().unwrap();
    assert_eq!(
        a.shown("5.0"),
        format!(
            "AppConfig {{ private_key: [REDACTED], wallet_address: {:?}, funder_address: None, signature_type: Eoa, clob_host: \"https://clob.polymarket.com\", gamma_host: \"https://gamma-api.polymarket.com\", bridge_host: \"https://bridge.polymarket.com\", rpc_url: \"https://polygon-rpc.com\", chain_id: 137, dry_run: true, enable_test_order: false, max_order_size: 10, max_position_size: 50, order_price_min: 0.05, order_price_max: 0.95, relayer_host: \"https://relayer-v2.polymarket.com\", relayer_api_key: Some(\"[SET]\"), relayer_api_secret: None, relayer_passphrase: None, strategy_name: \"noop\", split_amount: 10, strategy_order_size: 5.0, max_markets: 0 }}",
            wallet,
        ),
    );
}

#[test]
fn words_of_settings() {
    assert_eq!(SignatureType::parse("2").ok(), Some(SignatureType::GnosisSafe));
    assert_eq!(SignatureType::parse("POLY1271").ok(), Some(SignatureType::Poly1271));
    match SignatureType::parse("Proxy") {
        Err(e) => assert_eq!(
            e.message(),
            "invalid value for SIGNATURE_TYPE: unknown signature type: Proxy",
        ),
        Ok(_) => panic!("accepted"),
    }
    assert_eq!(parse_bool("true"), Some(true));
    assert_eq!(parse_bool("True"), None);
    let e = ConfigError::InvalidAddress { name: "A".to_string(), value: "b".to_string() };
    assert_eq!(e.message(), "invalid address format for A: b");
    assert_eq!(AuthError::InvalidPrivateKey.message(), "invalid private key");
    assert_eq!(AuthError::AuthFailed("x".to_string()).message(), "authentication failed: x");
    assert_eq!(key_digits(&rehearsal()), "abc");
}

fn check(price: &str, size: &str, st: &ExecutorState, c: &AppConfig, m: &Moment) -> Result<(), String> {
    let p = OrderParams { price: dec(price), size: dec(size) };
    check_order(&p, st, c, m).unwrap().map_err(|e| e.message())
}

#[test]
fn orders_are_checked() {
    let c = live();
    let m = moment(START, Some(500));
    assert!(check("0.50", "5", &state(), &c, &m).is_ok());
    assert_eq!(
        check("0.50", "5", &state(), &rehearsal(), &m).unwrap_err(),
        "dry run active — order not submitted",
    );
    let mut none = state();
    none.market_info = None;
    assert_eq!(check("0.50", "5", &none, &c, &m).unwrap_err(), "no active market");
    assert_eq!(
        check("0.50", "10.01", &state(), &c, &m).unwrap_err(),
        "max order size exceeded: 10.01 > 10",
    );
    let mut full = state();
    full.position.yes_shares = dec("30");
    full.position.no_shares = dec("15.5");
    assert_eq!(
        check("0.50", "5", &full, &c, &m).unwrap_err(),
        "max position size exceeded: 50.5 > 50",
    );
    assert_eq!(
        check("0.96", "5", &state(), &c, &m).unwrap_err(),
        "price out of bounds: 0.96 not in [0.05, 0.95]",
    );
    assert_eq!(
        check("0.5", "5", &state(), &c, &moment(START, Some(10_001))).unwrap_err(),
        "orderbook stale (10.0s since last update)",
    );
    assert!(check("0.5", "5", &state(), &c, &moment(START, Some(10_000))).is_ok());
    assert_eq!(
        check("0.5", "5", &state(), &c, &moment(START + 271, None)).unwrap_err(),
        "too close to market expiry (29s remaining)",
    );
    assert!(check("0.5", "5", &state(), &c, &moment(START + 270, None)).is_ok());
}

#[test]
fn uncountable_exposure_is_no_answer() {
    let mut st = state();
    st.position.yes_shares = dec("79228162514264337593543950335");
    let p = OrderParams { price: dec("0.5"), size: dec("5") };
    assert!(check_order(&p, &st, &live(), &moment(START, None)).is_none());
    assert!(st.position.total_exposure().is_some());
}

#[test]
fn fills_change_one_side() {
    let mut p = Position::new();
    assert!(update_position(&mut p, TokenSide::Yes, OrderSide::Buy, dec("5.5")));
    assert!(update_position(&mut p, TokenSide::No, OrderSide::Buy, dec("2")));
    assert_eq!((p.yes_shares.to_text(), p.no_shares.to_text()), ("5.5".to_string(), "2".to_string()));
    assert!(update_position(&mut p, TokenSide::Yes, OrderSide::Sell, dec("9")));
    assert_eq!(p.yes_shares.to_text(), "0");
    assert_eq!(p.total_exposure().unwrap().to_text(), "2");
}

fn planned(a: &Action, c: &AppConfig) -> ActionPlan {
    plan_action(a, &info(), &state(), c, &moment(START, Some(1))).unwrap()
}

#[test]
fn rehearsals_send_nothing() {
    let c = rehearsal();
    let cases = vec![
        (Action::SplitUsdc { amount: 10 }, "would split 10 USDC"),
        (Action::RegisterPositions, "would register positions"),
        (
            Action::PlacePostOnlyBuyYes { price: num(0.5), size: num(5.0) },
            "would post-only buy YES at 0.5 x5",
        ),
        (
            Action::PlacePostOnlySellNo { price: num(0.5), size: num(5.5) },
            "would post-only sell NO at 0.5 x5.5",
        ),
        (Action::PlaceLimitBuyNo { price: num(0.4), size: num(5.0) }, "would limit buy at 0.4 x5"),
        (Action::PlaceLimitSellYes { price: num(0.4), size: num(5.0) }, "would limit sell at 0.4 x5"),
        (Action::CancelOrder { order_id: "o1".to_string() }, "would cancel order o1"),
        (Action::CancelAll, "would cancel all orders"),
    ];
    for (a, words) in cases {
        match planned(&a, &c) {
            ActionPlan::Done(ActionResult::DryRun { description }) => assert_eq!(description, words),
            _ => panic!("{} was sent", words),
        }
    }
}

#[test]
fn live_actions_are_sent() {
    let c = live();
    match planned(&Action::PlacePostOnlyBuyNo { price: num(0.42), size: num(5.0) }, &c) {
        ActionPlan::PostOnly(p) => {
            assert_eq!(p.token_id, "22");
            assert!(matches!(p.side, OrderSide::Buy));
            assert_eq!(p.price.to_text(), "0.42");
        }
        _ => panic!("no order"),
    }
    match planned(&Action::PlaceLimitSellYes { price: num(0.42), size: num(5.0) }, &c) {
        ActionPlan::Limit(p) => assert_eq!(p.token_id, "11"),
        _ => panic!("no order"),
    }
    assert!(matches!(planned(&Action::SplitUsdc { amount: 7 }, &c), ActionPlan::Split { amount: 7 }));
    assert!(matches!(planned(&Action::RegisterPositions, &c), ActionPlan::Register));
    assert!(matches!(planned(&Action::CancelAll, &c), ActionPlan::CancelAll));
    let big = Action::PlaceLimitBuyYes { price: num(0.42), size: num(11.0) };
    match planned(&big, &c) {
        ActionPlan::Done(ActionResult::Error { reason }) => {
            assert_eq!(reason, "max order size exceeded: 11 > 10")
        }
        _ => panic!("the order is too large"),
    }
    let mut few = info();
    few.clob_token_ids = vec!["11".to_string()];
    let no = Action::PlaceLimitBuyNo { price: num(0.42), size: num(5.0) };
    match plan_action(&no, &few, &state(), &c, &moment(START, None)).unwrap() {
        ActionPlan::Done(ActionResult::Error { reason }) => assert_eq!(reason, "missing token ID"),
        _ => panic!("there is no such token"),
    }
}

#[test]
fn results_of_requests() {
    let ok = || OrderResponse { order_id: "o".to_string(), status: "Live".to_string() };
    assert!(matches!(finish_order(true, Ok(ok())), ActionResult::OrderPlaced { order_id } if order_id == "o"));
    assert!(matches!(
        finish_order(true, Err(ClobError::OrderRejected("crosses".to_string()))),
        ActionResult::Rejected { reason } if reason == "crosses"
    ));
    assert!(matches!(
        finish_order(false, Err(ClobError::OrderRejected("crosses".to_string()))),
        ActionResult::Error { reason } if reason == "order rejected: crosses"
    ));
    assert!(matches!(
        finish_order(true, Err(ClobError::RequestFailed("eof".to_string()))),
        ActionResult::Error { reason } if reason == "CLOB request failed: eof"
    ));
    assert!(matches!(finish_split(Ok("0xt".to_string())), ActionResult::Success { detail } if detail == "split tx=0xt"));
    assert!(registers_after_split::<String>(&Ok("0xt".to_string())));
    assert!(!registers_after_split(&Err("x")));
    assert!(matches!(finish_register(Ok(())), ActionResult::Success { detail } if detail == "registered"));
    assert!(matches!(finish_cancel("o", Ok(())), ActionResult::Success { detail } if detail == "cancelled o"));
    assert!(matches!(finish_cancel_all(Ok(())), ActionResult::Success { detail } if detail == "all orders cancelled"));
    assert!(matches!(finish_split(Err("x".to_string())), ActionResult::Error { reason } if reason == "x"));
}

#[test]
fn actions_are_logged() {
    let a = Action::PlacePostOnlyBuyYes { price: num(0.5), size: num(5.0) };
    let r = ActionResult::OrderPlaced { order_id: "o".to_string() };
    assert_eq!(
        action_log(&a, &r, 12, &num(0.0)).to_text(),
        "{\"action_type\":\"post_only_buy_yes\",\"latency_ms\":12,\"order_id\":\"o\",\"price\":0.5,\"reason\":null,\"result_type\":\"placed\",\"size\":5.0}",
    );
    let split = Action::SplitUsdc { amount: 10 };
    let r = ActionResult::Error { reason: "no".to_string() };
    assert_eq!(
        action_log(&split, &r, 3, &num(10.0)).to_text(),
        "{\"action_type\":\"split_usdc\",\"latency_ms\":3,\"order_id\":null,\"price\":10.0,\"reason\":\"no\",\"result_type\":\"error\",\"size\":null}",
    );
    let e = action_event(&split, &r, "SplitUsdc { amount: 10 }", "Error", 3, &num(10.0));
    assert_eq!(
        value_text(&e.raw),
        "{\"action\":\"SplitUsdc { amount: 10 }\",\"latency_ms\":3,\"result\":\"Error\"}",
    );
    assert_eq!(
        value_text(&started_event(&rehearsal()).normalized),
        format!("{{\"dry_run\":true,\"strategy\":\"noop\",\"wallet\":\"{}\"}}", WALLET),
    );
    assert_eq!(
        value_text(&active_event(&info(), &rehearsal()).normalized),
        "{\"condition_id\":\"0xc0\",\"strategy\":\"noop\"}",
    );
    for (r, w) in [
        (StopReason::MarketInfoTimeout, "market_info_timeout"),
        (StopReason::ToggleDisabled, "toggle_disabled"),
        (StopReason::MarketEnded, "market_ended"),
    ] {
        assert_eq!(value_text(&stopped_event(r).normalized), format!("{{\"reason\":\"{}\"}}", w));
    }
}

#[test]
fn placed_orders_are_tracked_until_filled() {
    let mut run = ExecutorRun::new();
    let duties: Vec<(bool, bool)> = (0..4)
        .map(|_| {
            let d = run.next_tick();
            (d.check_toggle, d.check_fills)
        })
        .collect();
    assert_eq!(duties, vec![(false, false), (false, true), (false, false), (true, true)]);
    let a = Action::PlacePostOnlyBuyNo { price: num(0.5), size: num(5.0) };
    run.track(&a, &ActionResult::OrderPlaced { order_id: "o".to_string() });
    assert!(run.sell.is_none());
    assert!(matches!(check_fill(&run.buy, false), FillCheck::Ask(id) if id == "o"));
    assert!(matches!(check_fill(&run.buy, true), FillCheck::Nothing));
    assert!(matches!(check_fill(&run.sell, false), FillCheck::Nothing));
    let order = run.buy.take().unwrap();
    let report = |state| OrderReport { state, price: num(0.49), size: num(4.0) };
    let out = read_report(&order, &report(OrderState::Live), 9);
    assert!(out.keep && out.fill.is_none() && out.event.is_none());
    let out = read_report(&order, &report(OrderState::Canceled), 9);
    assert!(!out.keep && out.fill.is_none());
    let out = read_report(&order, &report(OrderState::Matched), 9);
    assert!(!out.keep);
    let fill = out.fill.unwrap();
    assert_eq!((fill.order_id.as_str(), fill.size.bits), ("o", 4.0f64.to_bits()));
    assert!(matches!(fill.token_side, TokenSide::No));
    assert_eq!(
        value_text(&out.event.unwrap().normalized),
        "{\"fill_price\":0.49,\"fill_size\":4.0,\"order_id\":\"o\",\"poll_latency_ms\":9}",
    );
    run.track(
        &Action::PlacePostOnlySellYes { price: num(0.5), size: num(5.0) },
        &ActionResult::OrderPlaced { order_id: "dry-run".to_string() },
    );
    match check_fill(&run.sell, true) {
        FillCheck::Rehearsed(f) => assert_eq!(
            value_text(&rehearsed_fill_event(&f).raw),
            "{\"order_id\":\"dry-run\",\"side\":\"Sell\"}",
        ),
        _ => panic!("a rehearsed order is filled"),
    }
}

#[test]
fn market_orders_are_planned_at_the_midpoint() {
    let c = live();
    let m = moment(START, Some(1));
    match buy_yes_market(Some(dec("0.6")), dec("5"), &state(), &c, &m).unwrap() {
        OrderPlan::Place(p) => assert_eq!(p.token_id, "11"),
        _ => panic!("no order"),
    }
    match buy_no_market(None, dec("5"), &state(), &c, &m).unwrap() {
        OrderPlan::Place(p) => assert_eq!(p.token_id, "22"),
        _ => panic!("no order"),
    }
    assert!(matches!(
        buy_no_market(Some(dec("0.99")), dec("5"), &state(), &c, &m).unwrap(),
        OrderPlan::Refused(RiskError::PriceOutOfBounds { .. })
    ));
    match buy_yes_market(None, dec("5"), &state(), &rehearsal(), &m).unwrap() {
        OrderPlan::Simulated(r) => assert_eq!((r.order_id.as_str(), r.status.as_str()), ("dry-run", "simulated")),
        _ => panic!("sent"),
    }
    let mut none = state();
    none.market_info = None;
    assert!(matches!(
        buy_yes_market(None, dec("5"), &none, &c, &m).unwrap(),
        OrderPlan::Impossible(w) if w == "no active market"
    ));
    let mut few = state();
    few.market_info.as_mut().unwrap().clob_token_ids = vec![];
    assert!(matches!(
        buy_yes_market(None, dec("5"), &few, &c, &m).unwrap(),
        OrderPlan::Impossible(w) if w == "no YES token ID"
    ));
    assert!(matches!(
        buy_no_market(None, dec("5"), &few, &c, &m).unwrap(),
        OrderPlan::Impossible(w) if w == "no NO token ID"
    ));
    let limit = LimitOrderParams { token_id: "11".to_string(), side: OrderSide::Sell, price: dec("0.5"), size: dec("5") };
    assert!(matches!(place_limit(limit, &state(), &c, &m).unwrap(), OrderPlan::Place(p) if p.token_id == "11"));
}

#[test]
fn token_numbers_are_words() {
    let word = token_id("258").ok().unwrap();
    assert_eq!(word.len(), 32);
    assert_eq!(&word[30..], &[1, 2]);
    assert_eq!(&word[..30], &[0u8; 30]);
    match token_id("12x") {
        Err(e) => assert!(e.message().starts_with("CLOB request failed: invalid token ID: ")),
        Ok(_) => panic!("no number"),
    }
    assert!(token_pair("1", "2").is_ok());
    match token_pair("1", "z") {
        Err(e) => assert!(e.message().contains("invalid NO token ID: ")),
        Ok(_) => panic!("no number"),
    }
    match token_or_failure(Err("bad".to_string()), "YES token ID") {
        Err(e) => assert_eq!(e.message(), "CLOB request failed: invalid YES token ID: bad"),
        Ok(_) => panic!("no number"),
    }
    let answer = |success, error_msg: Option<&str>| PostAnswer {
        success,
        order_id: "o".to_string(),
        status: "Live".to_string(),
        error_msg: error_msg.map(|s| s.to_string()),
    };
    assert!(post_only_outcome(answer(true, None)).is_ok());
    match post_only_outcome(answer(false, None)) {
        Err(e) => assert_eq!(e.message(), "order rejected: status=Live"),
        Ok(_) => panic!("rejected"),
    }
    match post_only_outcome(answer(false, Some("crosses"))) {
        Err(e) => assert_eq!(e.message(), "order rejected: crosses"),
        Ok(_) => panic!("rejected"),
    }
}

fn no_quote() -> BuyQuote {
    BuyQuote { fair: 0.5f64.to_bits(), ask: None }
}

fn tick(now: i64) -> Tick {
    Tick {
        now,
        clock_ms: 0,
        has_market_info: true,
        has_bba: true,
        has_fair_value: true,
        yes: no_quote(),
        no: no_quote(),
        held: HeldQuote {
            held: 0,
            size: num(0.0),
            entry: 0,
            sold_after: 0,
            bought: 0,
            bid: None,
            ask_gap: None,
        },
        order_size: num(5.0),
    }
}

fn quote(fair: f64, ask: f64) -> BuyQuote {
    BuyQuote {
        fair: fair.to_bits(),
        ask: Some(AskQuote {
            price: num(((ask - 0.01) * 100.0).round() / 100.0),
            edge: (fair - ask).to_bits(),
        }),
    }
}

/// A strategy in its active phase.
fn active() -> FvConvergenceStrategy {
    let mut s = FvConvergenceStrategy::new(START, 10);
    s.on_tick(&tick(START - 60));
    assert!(matches!(s.phase, Phase::PreMarket));
    let actions = s.on_tick(&tick(START - 59));
    assert!(matches!(actions[0], Action::SplitUsdc { amount: 10 }));
    s.on_action_result(&actions[0], &ActionResult::Success { detail: "t".to_string() }, 0);
    let actions = s.on_tick(&tick(START - 58));
    assert!(matches!(actions[0], Action::RegisterPositions));
    s.on_action_result(&actions[0], &ActionResult::Success { detail: "r".to_string() }, 0);
    assert!(s.on_tick(&tick(START)).is_empty());
    assert!(matches!(s.phase, Phase::Active));
    s
}

#[test]
fn convergence_buys_below_the_ask() {
    let mut s = active();
    let mut t = tick(START + 1);
    t.yes = quote(0.60, 0.50);
    match &s.on_tick(&t)[..] {
        [Action::PlacePostOnlyBuyYes { price, size }] => {
            assert_eq!((price.shown.as_str(), size.shown.as_str()), ("0.49", "5"));
        }
        _ => panic!("no purchase"),
    }
    t.yes = quote(0.54, 0.40);
    assert!(s.on_tick(&t).is_empty());
    t.yes = quote(0.60, 0.56);
    assert!(s.on_tick(&t).is_empty());
    t.no = quote(0.70, 0.60);
    assert!(matches!(&s.on_tick(&t)[..], [Action::PlacePostOnlyBuyNo { .. }]));
}

#[test]
fn pending_purchases_are_repriced_or_cancelled() {
    let mut s = active();
    let mut t = tick(START + 1);
    t.yes = quote(0.60, 0.50);
    let a = s.on_tick(&t).remove(0);
    s.on_action_result(&a, &ActionResult::OrderPlaced { order_id: "o1".to_string() }, 0);
    assert!(s.on_tick(&t).is_empty());
    t.yes = quote(0.60, 0.51);
    match &s.on_tick(&t)[..] {
        [Action::CancelOrder { order_id }, Action::PlacePostOnlyBuyYes { price, .. }] => {
            assert_eq!((order_id.as_str(), price.shown.as_str()), ("o1", "0.5"));
        }
        _ => panic!("no repricing"),
    }
    s.on_action_result(&a, &ActionResult::OrderPlaced { order_id: "o2".to_string() }, 0);
    t.yes = no_quote();
    match &s.on_tick(&t)[..] {
        [Action::CancelOrder { order_id }] => assert_eq!(order_id, "o2"),
        _ => panic!("no cancellation"),
    }
}

fn holding(bid: f64, entry: f64, gap: f64, sold_after: f64) -> HeldQuote {
    HeldQuote {
        held: 5.0f64.to_bits(),
        size: num(5.0),
        entry: entry.to_bits(),
        sold_after: sold_after.to_bits(),
        bought: 5.0f64.to_bits(),
        bid: Some(BidQuote { price: num(bid), gain: (bid - entry).to_bits() }),
        ask_gap: Some(gap.to_bits()),
    }
}

fn bought() -> FvConvergenceStrategy {
    let mut s = active();
    s.on_fill(&Fill {
        token_side: TokenSide::No,
        order_side: OrderSide::Buy,
        size: 5.0f64.to_bits(),
        held_after: 5.0f64.to_bits(),
    });
    s
}

#[test]
fn positions_are_closed() {
    let mut s = bought();
    let mut t = tick(START + 2);
    t.held = holding(0.50, 0.50, 0.5, 5.0);
    assert!(s.on_tick(&t).is_empty());
    t.held = holding(0.40, 0.50, 0.5, 5.0);
    let a = s.on_tick(&t).remove(0);
    match &a {
        Action::PlaceLimitSellNo { price, size } => {
            assert_eq!((price.shown.as_str(), size.shown.as_str()), ("0.4", "5"));
        }
        _ => panic!("no stop"),
    }
    s.on_action_result(&a, &ActionResult::OrderPlaced { order_id: "s".to_string() }, 0);
    assert!(s.on_tick(&t).is_empty());
    let mut s = bought();
    t.held = holding(0.60, 0.50, 0.01, 5.0);
    assert!(matches!(&s.on_tick(&t)[..], [Action::PlaceLimitSellNo { .. }]));
    t.held = holding(0.60, 0.50, 0.01, 5.5);
    assert!(s.on_tick(&t).is_empty());
    s.on_fill(&Fill {
        token_side: TokenSide::No,
        order_side: OrderSide::Sell,
        size: 5.0f64.to_bits(),
        held_after: 0.0f64.to_bits(),
    });
    assert!(s.held_side.is_none());
}

#[test]
fn failed_splits_are_limited() {
    let mut s = FvConvergenceStrategy::new(START, 10);
    s.on_tick(&tick(START - 60));
    let split = Action::SplitUsdc { amount: 10 };
    let mut clock = 0;
    let reasons = ["x", "HTTP 429", "quota exceeded", "y", "z"];
    let mut waits = vec![];
    for r in reasons {
        let mut t = tick(START - 50);
        t.clock_ms = clock;
        assert_eq!(s.on_tick(&t).len(), 1);
        s.on_action_result(&split, &ActionResult::Error { reason: r.to_string() }, clock);
        waits.push((s.split_retry_after_ms.unwrap() - clock) / 1000);
        t.clock_ms = s.split_retry_after_ms.unwrap() - 1;
        if waits.len() < 5 {
            assert!(s.on_tick(&t).is_empty());
        }
        clock = s.split_retry_after_ms.unwrap();
    }
    assert_eq!(waits, vec![5, 60, 60, 20, 25]);
    let mut t = tick(START - 40);
    t.clock_ms = clock;
    assert!(s.on_tick(&t).is_empty());
    assert!(matches!(s.phase, Phase::Done));
}

#[test]
fn phases_only_advance() {
    let mut s = active();
    s.on_tick(&tick(START + 179));
    assert!(matches!(s.phase, Phase::Active));
    s.on_tick(&tick(START + 180));
    assert!(matches!(s.phase, Phase::WindDown));
    s.on_tick(&tick(START + 10));
    assert!(matches!(s.phase, Phase::WindDown));
    s.on_tick(&tick(START + 300));
    assert!(matches!(s.phase, Phase::Done));
    let mut late = FvConvergenceStrategy::new(START, 10);
    late.on_tick(&tick(START + 300));
    assert!(matches!(late.phase, Phase::Done));
}

#[test]
fn failed_sales_are_limited() {
    let mut s = bought();
    let mut t = tick(START + 2);
    t.held = holding(0.40, 0.50, 0.5, 5.0);
    for _ in 0..5 {
        let a = s.on_tick(&t).remove(0);
        s.on_action_result(&a, &ActionResult::Error { reason: "no".to_string() }, 0);
    }
    assert!(s.on_tick(&t).is_empty());
}

#[test]
fn winding_down_cancels_purchases() {
    let mut s = active();
    let mut t = tick(START + 1);
    t.yes = quote(0.60, 0.50);
    let a = s.on_tick(&t).remove(0);
    s.on_action_result(&a, &ActionResult::OrderPlaced { order_id: "o1".to_string() }, 0);
    t.now = START + 180;
    match &s.on_tick(&t)[..] {
        [Action::CancelOrder { order_id }] => assert_eq!(order_id, "o1"),
        _ => panic!("no cancellation"),
    }
    assert!(s.on_tick(&t).is_empty());
}

#[test]
fn the_idle_strategy_does_nothing() {
    let mut s = NoopStrategy;
    assert!(s.on_tick(&()).is_empty());
}

#[test]
fn executors_end_by_taking_back_their_orders() {
    let nothing = Reaction { active: false, stopped: None, cancel_all: false };
    let stopped = |reason| Reaction { stopped: Some(reason), ..nothing };

    let mut stage = Stage::Waiting;
    assert_eq!(stage.meet(Incident::SwitchedOff, false), nothing);
    assert_eq!(stage.meet(Incident::MarketFound, false), nothing);
    assert_eq!(stage.meet(Incident::Connected, false), Reaction { active: true, ..nothing });
    assert_eq!(
        stage.meet(Incident::SwitchedOff, false),
        Reaction { cancel_all: true, ..stopped(StopReason::ToggleDisabled) },
    );
    assert_eq!(stage, Stage::Closing);
    assert_eq!(stage.meet(Incident::Closed, false), stopped(StopReason::MarketEnded));
    assert_eq!(stage, Stage::Over);

    let mut stage = Stage::Trading;
    assert_eq!(stage.meet(Incident::Cancelled, true), nothing);
    assert_eq!(stage, Stage::Closing);

    let mut stage = Stage::Waiting;
    assert_eq!(stage.meet(Incident::MarketTimedOut, false), stopped(StopReason::MarketInfoTimeout));
    assert_eq!(stage, Stage::Over);
    let mut stage = Stage::Connecting;
    assert_eq!(stage.meet(Incident::Refused, false), nothing);
    assert_eq!(stage, Stage::Over);
}
