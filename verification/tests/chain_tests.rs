use alloy::primitives::{keccak256, Address};
use base64::Engine;
use bookview_collector::decimal::Dec;
use bookview_collector::executor::bridge::{
    deposit_request, deposit_url, refused, BridgeError,
};
use bookview_collector::executor::bytes::{hex_of, repeat_byte, selector_of, word_of};
use bookview_collector::executor::cli::{
    batch_steps, best_ask_price, check_flow, choose_market, count_steps, live_price, order_step,
    plan_test_order, registration_step, seconds_until, split_step, FlowAction, FlowEvent,
    FlowStage, MarketChoice, MarketSearch, SearchStep, SplitFault, StepResult, TestFlow, TestOrder,
};
use bookview_collector::executor::clob::{OrderBookSummary, OrderResponse, PriceLevel};
use bookview_collector::executor::config::{AppConfig, EnvVars};
use bookview_collector::executor::ctf_ops::{
    approve_exchanges, ctf_adapter_address, merge_positions, pusd_address, redeem_positions,
    registered_token, registration_order, split_position, usdc_e_address, ChainContracts,
};
use bookview_collector::executor::gamma::{
    current_window_epoch, extract_market, judge_market, parse_outcomes, parse_token_ids,
    slugs_to_try, GammaError, GammaEvent, GammaMarket, MarketReadings, Time, Verdict,
};
use bookview_collector::executor::relayer::{
    after_poll, build_struct_hash, credentials, decode_secret, hmac_signature, http_failure,
    pick_first, poll_answer, poll_step, poll_timeout, prepare, proxy_call_data,
    proxy_factory_address, relay_hub_address, relay_payload_url, submit_request, submitted_id, text_to_sign, transaction_url,
    transaction_words, PollAnswer, PollNext, PollStep, ProxyCall, RelayPayload, RelayerResponse,
};
use bookview_collector::executor::strategy::{Num, OrderSide};
use bookview_collector::json::Json;
use hmac::{Hmac, Mac};

const WALLET: &str = "0xd8dA6BF26964aF9D7eEd9e03E53415D37aA96045";
const CONDITION: &str = "0x00000000000000000000000000000000000000000000000000000000000000ab";

fn address(s: &str) -> Vec<u8> {
    let a: Address = s.parse().unwrap();
    a.to_vec()
}

fn hex(b: &[u8]) -> String {
    b.iter().map(|x| format!("{:02x}", x)).collect()
}

fn padded(b: &[u8]) -> String {
    format!("{}{}", "0".repeat(64 - 2 * b.len()), hex(b))
}

fn word(n: u64) -> String {
    format!("{:064x}", n)
}

#[test]
fn words_are_big_endian() {
    let w = word_of(0x0102);
    assert_eq!(hex(&w), word(0x0102));
    assert_eq!(hex(&repeat_byte(0xff)), "ff".repeat(32));
    assert_eq!(hex_of(&vec![0, 10, 255]), "0x000aff");
}

#[test]
fn selectors_are_hashes_of_signatures() {
    assert_eq!(hex(&selector_of("approve(address,uint256)")), "095ea7b3");
    assert_eq!(hex(&selector_of("setApprovalForAll(address,bool)")), "a22cb465");
    assert_eq!(hex(&selector_of("transfer(address,uint256)")), "a9059cbb");
}

#[test]
fn addresses_of_contracts() {
    assert_eq!(usdc_e_address(), address("0x2791Bca1f2de4661ED88A30C99A7a9449Aa84174"));
    assert_eq!(pusd_address(), address("0xc011a7e12a19f7b1f670d46f03b03f3342e82dfb"));
    assert_eq!(ctf_adapter_address(), address("0xAdA100Db00Ca00073811820692005400218FcE1f"));
    assert_eq!(proxy_factory_address(), address("0xaB45c5A4B0c941a2F231C04C3f49182e1A254052"));
    assert_eq!(relay_hub_address(), address("0xD216153c06E857cD7f72665E0aF1d7D82172F494"));
}

fn position_data(selector: &str, amount: u64) -> String {
    format!(
        "{}{}{}{}{}{}{}{}{}",
        selector,
        padded(&usdc_e_address()),
        word(0),
        word(0xab),
        word(160),
        word(amount),
        word(2),
        word(1),
        word(2),
    )
}

#[test]
fn splits_approve_and_split() {
    let calls = split_position(CONDITION, 5).ok().unwrap();
    assert_eq!(calls.len(), 2);
    assert_eq!((calls[0].type_code, calls[0].value), (1, 0));
    assert_eq!(calls[0].to, pusd_address());
    assert_eq!(
        hex(&calls[0].data),
        format!("095ea7b3{}{}", padded(&ctf_adapter_address()), "ff".repeat(32)),
    );
    assert_eq!(calls[1].to, ctf_adapter_address());
    assert_eq!(hex(&calls[1].data), position_data("72ce4275", 5_000_000));
    assert_eq!(split_position("0x12", 5).err().unwrap(), "Invalid condition ID hex");
}

#[test]
fn merges_approve_and_merge() {
    let ctf = address(WALLET);
    let calls = merge_positions(Some(ctf.clone()), 137, CONDITION, 7).ok().unwrap();
    assert_eq!(calls[0].to, ctf);
    assert_eq!(
        hex(&calls[0].data),
        format!("a22cb465{}{}", padded(&ctf_adapter_address()), word(1)),
    );
    assert_eq!(hex(&calls[1].data), position_data("9e7212ad", 7_000_000));
    assert_eq!(
        merge_positions(None, 5, CONDITION, 7).err().unwrap(),
        "No contract config for chain 5",
    );
    assert_eq!(
        merge_positions(Some(ctf), 137, "zz", 7).err().unwrap(),
        "Invalid condition ID hex",
    );
}

#[test]
fn redemptions_approve_and_redeem() {
    let calls = redeem_positions(Some(address(WALLET)), 137, CONDITION).ok().unwrap();
    assert_eq!(
        hex(&calls[1].data),
        format!(
            "01b7037c{}{}{}{}{}{}{}",
            padded(&usdc_e_address()),
            word(0),
            word(0xab),
            word(128),
            word(2),
            word(1),
            word(2),
        ),
    );
    assert_eq!(
        redeem_positions(None, 1, CONDITION).err().unwrap(),
        "No contract config for chain 1",
    );
}

fn contracts(b: u8, exchange: Option<u8>) -> ChainContracts {
    ChainContracts {
        conditional_tokens: vec![b; 20],
        exchange_v2: exchange.map(|e| vec![e; 20]),
    }
}

#[test]
fn exchanges_are_approved() {
    let calls =
        approve_exchanges(Some(contracts(1, Some(2))), Some(contracts(3, Some(4))), 137).ok().unwrap();
    assert_eq!(calls.len(), 4);
    assert_eq!(calls[0].to, pusd_address());
    for c in &calls[1..] {
        assert_eq!(c.to, vec![1u8; 20]);
    }
    assert_eq!(hex(&calls[2].data), format!("a22cb465{}{}", padded(&[2; 20]), word(1)));
    assert_eq!(hex(&calls[3].data), format!("a22cb465{}{}", padded(&[4; 20]), word(1)));
    let fault = |p, n| approve_exchanges(p, n, 9).err().unwrap();
    assert_eq!(fault(None, None), "No contract config for chain 9");
    assert_eq!(
        fault(Some(contracts(1, Some(2))), None),
        "No neg-risk contract config for chain 9",
    );
    assert_eq!(
        fault(Some(contracts(1, None)), Some(contracts(3, Some(4)))),
        "No exchange_v2 address",
    );
    assert_eq!(
        fault(Some(contracts(1, Some(2))), Some(contracts(3, None))),
        "No neg-risk exchange_v2 address",
    );
}

#[test]
fn registrations_sell_high() {
    let o = registration_order(&vec!["77".to_string(), "88".to_string()]).ok().unwrap();
    assert_eq!(o.token_id, "77");
    assert!(matches!(o.side, OrderSide::Sell));
    assert_eq!((o.price.to_text(), o.size.to_text()), ("0.95".to_string(), "5.0".to_string()));
    assert_eq!(registration_order(&vec![]).err().unwrap(), "no YES token ID");
    assert_eq!(registered_token("x").err().unwrap(), "Invalid token ID");
    assert_eq!(registered_token("3").ok().unwrap()[31], 3);
}

#[test]
fn calls_are_encoded_for_the_proxy() {
    let call = ProxyCall { type_code: 1, to: vec![9; 20], value: 3, data: vec![0xaa, 0xbb] };
    assert_eq!(
        hex(&proxy_call_data(&vec![call])),
        format!(
            "34ee9791{}{}{}{}{}{}{}{}{}",
            word(32),
            word(1),
            word(32),
            word(1),
            padded(&[9; 20]),
            word(3),
            word(128),
            word(2),
            format!("aabb{}", "0".repeat(60)),
        ),
    );
}

#[test]
fn calls_are_laid_out_one_behind_another() {
    let call = |n: u8, data: Vec<u8>| ProxyCall { type_code: n, to: vec![n; 20], value: n as u64, data };
    let head = |n: u8, len: u64| {
        format!("{}{}{}{}{}", word(n as u64), padded(&[n; 20]), word(n as u64), word(128), word(len))
    };
    let calls = vec![call(1, vec![]), call(2, vec![5; 32]), call(3, vec![6; 33])];
    let wanted = format!(
        "34ee9791{}{}{}{}{}{}{}{}{}{}{}",
        word(32),
        word(3),
        word(96),
        word(256),
        word(448),
        head(1, 0),
        head(2, 32),
        "05".repeat(32),
        head(3, 33),
        "06".repeat(33),
        "0".repeat(62),
    );
    assert_eq!(hex(&proxy_call_data(&calls)), wanted);
    assert_eq!(hex(&proxy_call_data(&vec![])), format!("34ee9791{}{}", word(32), word(0)));
}

#[test]
fn struct_hash_covers_all_parts() {
    let signer = vec![7u8; 20];
    let relay = vec![8u8; 20];
    let data = vec![1u8, 2, 3];
    let mut packed = b"rlx:".to_vec();
    packed.extend(&signer);
    packed.extend(proxy_factory_address());
    packed.extend(&data);
    packed.extend(word_of(0));
    packed.extend(word_of(0));
    packed.extend(word_of(500_000));
    packed.extend(word_of(42));
    packed.extend(relay_hub_address());
    packed.extend(&relay);
    assert_eq!(
        build_struct_hash(&signer, &data, 500_000, "42", &relay),
        keccak256(&packed).to_vec(),
    );
    assert_eq!(
        build_struct_hash(&signer, &data, 500_000, "no number", &relay),
        build_struct_hash(&signer, &data, 500_000, "0", &relay),
    );
}

#[test]
fn secrets_come_in_three_alphabets() {
    let bytes = vec![0xfbu8, 0xff, 0xfe, 0x01];
    let general = base64::engine::general_purpose::URL_SAFE.encode(&bytes);
    let bare = base64::engine::general_purpose::URL_SAFE_NO_PAD.encode(&bytes);
    let standard = base64::engine::general_purpose::STANDARD.encode(&bytes);
    for s in [general, bare, standard] {
        assert_eq!(decode_secret(&s).unwrap(), bytes);
    }
    assert!(decode_secret("***").is_none());
    assert_eq!(pick_first(None, Some(vec![1]), Some(vec![2])).unwrap(), vec![1]);
    assert!(pick_first(None, None, None).is_none());
}

#[test]
fn requests_are_signed() {
    assert_eq!(text_to_sign(17, "POST", "/submit", Some("{}")), "17POST/submit{}");
    assert_eq!(text_to_sign(17, "GET", "/x", None), "17GET/x");
    let secret = vec![1u8, 2, 3];
    let mut mac = <Hmac<sha2::Sha256> as Mac>::new_from_slice(&secret).unwrap();
    mac.update(b"17POST/submit{}");
    let expected = base64::engine::general_purpose::URL_SAFE.encode(mac.finalize().into_bytes());
    assert_eq!(hmac_signature(&secret, 17, "POST", "/submit", Some("{}")), expected);
}

fn env() -> EnvVars {
    EnvVars {
        private_key: Some("k".to_string()),
        wallet_address: Some(WALLET.to_string()),
        funder_address: None,
        signature_type: None,
        clob_host: None,
        gamma_host: None,
        bridge_host: None,
        rpc_url: None,
        relayer_host: None,
        relayer_api_key: Some("a".to_string()),
        relayer_api_secret: Some("b".to_string()),
        relayer_passphrase: Some("c".to_string()),
        chain_id: None,
        dry_run: Some("false".to_string()),
        enable_test_order: Some("true".to_string()),
        max_order_size: None,
        max_position_size: None,
        order_price_min: None,
        order_price_max: None,
        strategy: None,
        split_amount: None,
        order_size: Some(Num {
            bits: 5.0f64.to_bits(),
            dec: Dec { mantissa: 5, scale: 0 },
            shown: "5".to_string(),
            json: "5.0".to_string(),
        }),
        max_markets: None,
    }
}

#[test]
fn credentials_have_to_be_set() {
    let c = credentials(&AppConfig::try_from_env(&env()).unwrap()).ok().unwrap();
    assert_eq!((c.key.as_str(), c.secret.as_str(), c.passphrase.as_str()), ("a", "b", "c"));
    let fault = |spoil: fn(&mut EnvVars)| {
        let mut v = env();
        spoil(&mut v);
        credentials(&AppConfig::try_from_env(&v).unwrap()).err().unwrap()
    };
    assert_eq!(
        fault(|v| v.relayer_api_key = None),
        "RELAYER_API_KEY required for proxy wallet CTF operations",
    );
    assert_eq!(
        fault(|v| v.relayer_api_secret = None),
        "RELAYER_API_SECRET required for proxy wallet CTF operations",
    );
    assert_eq!(
        fault(|v| v.relayer_passphrase = Some(String::new())),
        "RELAYER_PASSPHRASE required for proxy wallet CTF operations",
    );
}

#[test]
fn submissions_hold_all_fields() {
    let wallet = address(WALLET);
    let payload = RelayPayload { address: WALLET.to_string(), nonce: "4".to_string() };
    let calls = split_position(CONDITION, 5).ok().unwrap();
    let prepared = prepare(&calls, &wallet, &payload).unwrap();
    assert_eq!(prepared.data, proxy_call_data(&calls));
    assert_eq!(
        prepared.struct_hash,
        build_struct_hash(&wallet, &prepared.data, 500_000, "4", &wallet),
    );
    let j = submit_request(&wallet, &wallet, &prepared, &payload, &vec![0xde, 0xad], "note");
    let s = j.to_text();
    assert!(s.starts_with(&format!("{{\"type\":\"PROXY\",\"from\":\"{}\",\"to\":\"0xaB45c5A4B0c941a2F231C04C3f49182e1A254052\"", WALLET)));
    assert!(s.contains("\"signature\":\"0xdead\""));
    assert!(s.contains("\"signatureParams\":{\"gasPrice\":\"0\",\"gasLimit\":\"500000\",\"relayerFee\":\"0\",\"relayHub\":\"0xD216153c06E857cD7f72665E0aF1d7D82172F494\""));
    assert!(s.ends_with("\"metadata\":\"note\"}"));
    let bad = RelayPayload { address: "nowhere".to_string(), nonce: "4".to_string() };
    assert!(prepare(&calls, &wallet, &bad).is_none());
    assert_eq!(
        relay_payload_url("https://r", &wallet),
        format!("https://r/relay-payload?address={}&type=PROXY", WALLET),
    );
    assert_eq!(transaction_url("https://r", "t"), "https://r/transaction?id=t");
    assert_eq!(
        http_failure("relay-payload", "500", "oops"),
        "relay-payload failed (500): oops",
    );
}

fn entry(state: &str) -> Json {
    Json::object2("state", Json::text(state), "transactionHash", Json::text("0xh"))
}

fn answer(json: Json) -> PollAnswer {
    PollAnswer::Value { json, body: "B".to_string() }
}

#[test]
fn answers_are_read_from_their_body() {
    let body = "[{\"state\":\"STATE_MINED\",\"transactionHash\":\"0xh\"}]".to_string();
    assert!(matches!(poll_answer(false, body.clone()), PollAnswer::NoSuccess));
    assert!(matches!(poll_answer(true, "<p>".to_string()), PollAnswer::NoJson { body } if body == "<p>"));
    match poll_answer(true, body.clone()) {
        PollAnswer::Value { json, body: b } => {
            assert_eq!(json.to_text(), body);
            assert_eq!(b, body);
        }
        _ => panic!("a value"),
    }
}

#[test]
fn transactions_are_asked_for_only_so_often() {
    assert!(matches!(after_poll(0, PollStep::Again), PollNext::Ask { after_secs: 2 }));
    assert!(matches!(after_poll(58, PollStep::Again), PollNext::Ask { after_secs: 2 }));
    for attempt in [59, u32::MAX] {
        assert!(matches!(
            after_poll(attempt, PollStep::Again),
            PollNext::GiveUp { after_secs: 2, reason } if reason == poll_timeout()
        ));
    }
    let ended = PollStep::Finished(Err("x".to_string()));
    assert!(matches!(after_poll(59, ended), PollNext::Finished(Err(m)) if m == "x"));
}

#[test]
fn polling_ends_with_the_transaction() {
    assert!(matches!(poll_step(&PollAnswer::NoSuccess, "t"), PollStep::Again));
    assert!(matches!(poll_step(&answer(entry("STATE_NEW")), "t"), PollStep::Again));
    assert!(matches!(poll_step(&answer(Json::Array(vec![])), "t"), PollStep::Again));
    match poll_step(&answer(Json::Array(vec![entry("STATE_MINED")])), "t") {
        PollStep::Finished(Ok(r)) => {
            assert_eq!(r.tx_id(), Some("t"));
            assert_eq!(transaction_words(&r), "0xh");
        }
        _ => panic!("mined"),
    }
    assert!(matches!(
        poll_step(&answer(entry("STATE_FAILED")), "t"),
        PollStep::Finished(Err(m)) if m == "Transaction failed: B"
    ));
    assert!(matches!(
        poll_step(&answer(entry("STATE_INVALID")), "t"),
        PollStep::Finished(Err(m)) if m == "Transaction invalid: B"
    ));
    assert!(matches!(
        poll_step(&PollAnswer::NoJson { body: "<p>".to_string() }, "t"),
        PollStep::Finished(Err(m)) if m == "parsing poll response: <p>"
    ));
    assert_eq!(poll_timeout(), "Transaction did not confirm within timeout");
    let none = RelayerResponse {
        transaction_id: None,
        transaction_id_alt: None,
        state: None,
        hash: None,
        transaction_hash: None,
    };
    assert_eq!(submitted_id(&none).err().unwrap(), "no transaction ID in response");
    assert_eq!(transaction_words(&none), "pending");
    let alt = RelayerResponse { transaction_id_alt: Some("z".to_string()), ..none };
    assert_eq!(submitted_id(&alt).ok().unwrap(), "z");
}

#[test]
fn deposits_are_asked_for() {
    assert_eq!(deposit_url("https://b"), "https://b/deposit");
    let wallet: Address = WALLET.parse().unwrap();
    assert_eq!(
        deposit_request(&wallet.to_vec()).to_text(),
        format!("{{\"address\":\"{:#x}\"}}", wallet),
    );
    assert_eq!(refused("500", "x").message(), "bridge request failed: HTTP 500: x");
    assert_eq!(
        BridgeError::ParseError("p".to_string()).message(),
        "bridge response parse error: p",
    );
}

fn listed() -> GammaMarket {
    GammaMarket {
        id: Some(Json::count(7)),
        question: Some("Up?".to_string()),
        slug: Some("s".to_string()),
        condition_id: Some("0xc".to_string()),
        clob_token_ids: Some(Json::text("[\"1\",\"2\"]")),
        outcomes: None,
        start_date: Some("2026-04-29T23:35:00Z".to_string()),
        end_date: Some("2026-04-29T23:40:00.5Z".to_string()),
        active: Some(true),
        closed: None,
    }
}

fn found(m: GammaMarket, now: i64) -> Option<String> {
    let now = Time { secs: now, nanos: 0 };
    extract_market(&GammaEvent { markets: Some(vec![m]) }, now).map(|m| m.market_id)
}

#[test]
fn found_markets_are_open() {
    let end = 1777506000;
    let event = GammaEvent { markets: Some(vec![listed()]) };
    let m = extract_market(&event, Time { secs: end - 10, nanos: 0 }).unwrap();
    assert_eq!(m.market_id, "7");
    assert_eq!(m.clob_token_ids, vec!["1", "2"]);
    assert_eq!(m.outcomes, vec!["Up", "Down"]);
    assert_eq!((m.end_date.secs, m.end_date.nanos), (end, 500_000_000));
    assert_eq!(m.start_date.secs, end - 300);
    assert!(found(listed(), end).is_some());
    assert!(found(listed(), end + 1).is_none());
    let mut m = listed();
    m.closed = Some(true);
    assert!(found(m, end - 10).is_none());
    let mut m = listed();
    m.active = Some(false);
    assert!(found(m, end - 10).is_none());
    let mut m = listed();
    m.end_date = Some("soon".to_string());
    assert!(found(m, end - 10).is_none());
    let mut m = listed();
    m.id = None;
    assert_eq!(found(m, end - 10).unwrap(), "0xc");
    let mut unasked = listed();
    unasked.question = None;
    let both = GammaEvent { markets: Some(vec![unasked, listed()]) };
    assert!(extract_market(&both, Time { secs: end - 10, nanos: 0 }).is_none());
    let mut over = listed();
    over.closed = Some(true);
    let both = GammaEvent { markets: Some(vec![over, listed()]) };
    assert!(extract_market(&both, Time { secs: end - 10, nanos: 0 }).is_some());
    let readings = MarketReadings { tokens: vec![], outcomes: vec![], end: None, start: None };
    assert!(matches!(judge_market(&listed(), readings, Time { secs: 0, nanos: 0 }), Verdict::Skip));
}

#[test]
fn windows_are_five_minutes() {
    assert_eq!(current_window_epoch(1777506123), 1777506000);
    assert_eq!(current_window_epoch(-1), 0);
    assert_eq!(
        slugs_to_try(1777506123),
        vec!["btc-updown-5m-1777506000", "btc-updown-5m-1777506300"],
    );
    assert_eq!(parse_token_ids(&Json::text("nope")), Vec::<String>::new());
    assert_eq!(parse_outcomes(&Json::text("nope")), vec!["nope"]);
    assert_eq!(GammaError::RequestFailed("x".to_string()).message(), "gamma request failed: x");
    assert_eq!(GammaError::ParseError("x".to_string()).message(), "gamma response parse error: x");
}

fn order() -> OrderResponse {
    OrderResponse { order_id: "o".to_string(), status: "Live".to_string() }
}

#[test]
fn trials_are_reported() {
    assert_eq!(
        order_step("FAK Buy YES", Ok(order())).line(),
        "[COMPLETED] FAK Buy YES: order_id=o, status=Live",
    );
    assert_eq!(
        split_step(Err("x".to_string())).line(),
        "[NOT COMPLETED] Split $5: x",
    );
    assert_eq!(split_step(Ok("h".to_string())).detail, "tx=h");
    assert_eq!(registration_step(Ok(())).detail, "position registered");
    let steps = batch_steps(Ok(vec![order(), order()]));
    assert_eq!(steps[0].name, "Post-Only Buy YES");
    assert_eq!(steps[1].name, "Post-Only Buy NO");
    let failed = batch_steps(Err("x".to_string()));
    assert_eq!(failed[0].name, "Batch Post-Only");
    let all = vec![
        StepResult::ok("a", String::new()),
        StepResult::fail("b", String::new()),
        StepResult::of("c", Ok(String::new())),
    ];
    assert_eq!(count_steps(&all), (2, 1));
}

fn level(mantissa: i128, scale: u32) -> PriceLevel {
    PriceLevel { price: Dec { mantissa, scale }, size: Dec { mantissa: 1, scale: 0 } }
}

#[test]
fn the_lowest_ask_is_paid() {
    let book = OrderBookSummary {
        bids: vec![level(1, 2)],
        asks: vec![level(55, 2), level(5, 1), level(500, 3), level(7, 1)],
    };
    assert_eq!(best_ask_price(&book).unwrap().to_text(), "0.5");
    let empty = OrderBookSummary { bids: vec![], asks: vec![] };
    assert!(best_ask_price(&empty).is_none());
    assert_eq!(live_price(&empty).to_text(), "0.50");
}

#[test]
fn markets_are_chosen_by_their_time() {
    let t = |secs, nanos| Time { secs, nanos };
    assert_eq!(seconds_until(t(0, 0), t(240, 0)), 240);
    assert_eq!(seconds_until(t(0, 1), t(240, 0)), 239);
    assert_eq!(seconds_until(t(10, 0), t(8, 500_000_000)), -1);
    assert_eq!(choose_market(240), MarketChoice::UseIt);
    assert_eq!(choose_market(239), MarketChoice::WaitThenLook(249));
    assert_eq!(choose_market(0), MarketChoice::Look);
}

#[test]
fn markets_are_looked_for_sixty_times() {
    let again = |after_secs, announce| SearchStep::LookAgain { after_secs, announce };
    let mut s = MarketSearch::new();
    assert_eq!(s.look(Some(240)), SearchStep::Use);
    let mut s = MarketSearch::new();
    assert_eq!(s.look(Some(100)), again(110, false));
    assert_eq!(s.look(Some(100)), SearchStep::Use);
    let mut s = MarketSearch::new();
    assert_eq!(s.look(None), again(0, false));
    for attempt in 1..60 {
        assert_eq!(s.look(None), again(5, attempt % 6 == 1));
    }
    assert_eq!(s.look(None), SearchStep::GiveUp { after_secs: 5 });
}

fn two_tokens() -> Vec<String> {
    vec!["11".to_string(), "22".to_string()]
}

#[test]
fn a_trial_goes_through_all_steps() {
    let mut flow = TestFlow::new(&two_tokens()).ok().unwrap();
    assert!(matches!(flow.next(), FlowAction::Split { amount: 5 }));
    flow.take(FlowEvent::Registered(Ok(())));
    assert_eq!(flow.stage, FlowStage::Split);
    flow.take(FlowEvent::Split(Ok("h".to_string())));
    assert!(matches!(flow.next(), FlowAction::Connect));
    flow.take(FlowEvent::Connected(Ok(())));
    assert!(matches!(flow.next(), FlowAction::Register));
    flow.take(FlowEvent::Registered(Err("busy".to_string())));
    assert!(matches!(flow.next(), FlowAction::FetchBook { token_id } if token_id == "11"));
    flow.take(FlowEvent::Book(Ok(OrderBookSummary {
        bids: vec![],
        asks: vec![level(61, 2), level(6, 1)],
    })));
    assert!(matches!(flow.next(), FlowAction::FetchBook { token_id } if token_id == "22"));
    flow.take(FlowEvent::Book(Ok(OrderBookSummary { bids: vec![], asks: vec![] })));
    match flow.next() {
        FlowAction::FillAndKill(o) => {
            assert_eq!((o.token_id.as_str(), o.price.to_text()), ("11", "0.6".to_string()));
            assert_eq!((o.side, o.size.to_text()), (OrderSide::Buy, "5.0".to_string()));
        }
        _ => panic!("no order"),
    }
    flow.take(FlowEvent::Order(Err("killed".to_string())));
    match flow.next() {
        FlowAction::FillOrKill(o) => {
            assert_eq!((o.token_id.as_str(), o.price.to_text()), ("22", "0.50".to_string()));
        }
        _ => panic!("no order"),
    }
    flow.take(FlowEvent::Order(Ok(order())));
    match flow.next() {
        FlowAction::Batch { yes, no } => {
            assert_eq!((yes.token_id.as_str(), yes.price.to_text()), ("11", "0.20".to_string()));
            assert_eq!((no.token_id.as_str(), no.price.to_text()), ("22", "0.20".to_string()));
        }
        _ => panic!("no batch"),
    }
    flow.take(FlowEvent::Batch(Ok(vec![order(), order()])));
    assert!(matches!(flow.next(), FlowAction::Finish { summary: true, failure: None }));
    let names: Vec<&str> = flow.steps.iter().map(|s| s.name.as_str()).collect();
    assert_eq!(
        names,
        [
            "Split $5",
            "CLOB Registration",
            "FAK Buy YES",
            "FOK Buy NO",
            "Post-Only Buy YES",
            "Post-Only Buy NO",
        ],
    );
    assert_eq!(count_steps(&flow.steps), (4, 2));
}

#[test]
fn a_trial_ends_early() {
    assert_eq!(TestFlow::new(&vec![]).err().unwrap(), "no YES token ID");
    assert_eq!(TestFlow::new(&vec!["1".to_string()]).err().unwrap(), "no NO token ID");

    let mut flow = TestFlow::new(&two_tokens()).ok().unwrap();
    let fault = SplitFault { detail: "a: b".to_string(), cause: "a".to_string() };
    flow.take(FlowEvent::Split(Err(fault)));
    assert_eq!(flow.steps[0].line(), "[NOT COMPLETED] Split $5: a: b");
    match flow.next() {
        FlowAction::Finish { summary: true, failure: Some(m) } => {
            assert_eq!(m, "Split failed, cannot continue: a")
        }
        _ => panic!("the trial goes on"),
    }

    let mut flow = TestFlow::new(&two_tokens()).ok().unwrap();
    flow.take(FlowEvent::Split(Ok("h".to_string())));
    flow.take(FlowEvent::Connected(Err("refused".to_string())));
    match flow.next() {
        FlowAction::Finish { summary: false, failure: Some(m) } => assert_eq!(m, "refused"),
        _ => panic!("the trial goes on"),
    }
}

#[test]
fn test_orders_are_guarded() {
    let ids = vec!["1".to_string()];
    let c = AppConfig::try_from_env(&env()).unwrap();
    match plan_test_order(&c, &ids) {
        TestOrder::Place(o) => {
            assert_eq!((o.price.to_text(), o.size.to_text()), ("0.10".to_string(), "5.0".to_string()))
        }
        _ => panic!("no order"),
    }
    assert!(matches!(plan_test_order(&c, &vec![]), TestOrder::Refuse(m) if m == "No YES token ID found"));
    let mut v = env();
    v.enable_test_order = None;
    let c = AppConfig::try_from_env(&v).unwrap();
    assert!(matches!(
        plan_test_order(&c, &ids),
        TestOrder::Refuse(m) if m == "ENABLE_TEST_ORDER must be true to place real orders"
    ));
    v.dry_run = None;
    let c = AppConfig::try_from_env(&v).unwrap();
    assert!(matches!(plan_test_order(&c, &ids), TestOrder::Rehearse));
    assert_eq!(
        check_flow(true, 2).err().unwrap(),
        "test-flow requires DRY_RUN=false (set in .env)",
    );
    assert_eq!(check_flow(false, 0).err().unwrap(), "no YES token ID");
    assert_eq!(check_flow(false, 1).err().unwrap(), "no NO token ID");
    assert!(check_flow(false, 2).is_ok());
}
