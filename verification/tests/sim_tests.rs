use bookview_collector::json::{Json, JsonNumber};
use bookview_collector::sim::engine::{
    is_open, live_among, shares_queue, should_fill, validate_maker_only, FillAmounts, OrderWish,
    Simulation, Trade,
};
use bookview_collector::sim::market_data::{
    folder_epoch, market_end_ms, read_clob_line, read_depth_line, read_fair_value_line, ClobLine,
    DepthLine, FairSample, MarketLoad, MarketState, NumText, PriceLevel, SimEvent, Span, Tau,
    TokenIds, TokenSide, TradeSide,
};
use bookview_collector::sim::order::{next_random, LatencyQueue, Order, OrderSide, OrderStatus};
use bookview_collector::sim::output::{
    count_mentions, group_by_name, is_monkey_name, outcome_word, short_name, signal_label, truncate,
};
use bookview_collector::sim::position::{Amounts, Position, TokenInventory};
use bookview_collector::sim::strategies::fair_value::{
    FairValueStrategy, Holding, Seen as FairSeen,
};
use bookview_collector::sim::strategies::market_maker::{MarketMakerStrategy, Seen as MakerSeen};
use bookview_collector::sim::strategies::mean_revert::{MeanRevertStrategy, Seen as RevertSeen};
use bookview_collector::sim::strategies::monkey::{
    combinations, monkey_name, monkey_sources, next_combination, random_part, DataSource, MonkeyDNA,
    MonkeyStrategy,
};
use bookview_collector::sim::strategies::trend::TrendStrategy;
use bookview_collector::sim::strategy::{
    too_soon, History, Quotes, StrategyAction, TokenQuote,
};
use bookview_collector::sim::time_order::{sort_events, time_order};
use bookview_collector::sim::{FillModel, SimConfig};

fn b(x: f64) -> u64 {
    x.to_bits()
}

fn order(id: u64, submitted: i64) -> Order {
    Order {
        id,
        token: TokenSide::Up,
        side: OrderSide::Bid,
        price: b(0.5),
        size: b(10.0),
        filled: b(0.0),
        submitted_at_ms: submitted,
        live_at_ms: 0,
        status: OrderStatus::InTransit,
    }
}

#[test]
fn settings_of_the_simulation() {
    let c = SimConfig::default();
    assert_eq!(f64::from_bits(c.capital), 1000.0);
    assert_eq!(f64::from_bits(c.default_split_size), 100.0);
    assert_eq!(f64::from_bits(c.order_size), 50.0);
    assert_eq!((c.min_latency_ms, c.max_latency_ms, c.hold_cooldown_ms, c.seed), (300, 500, 8000, 42));
    assert_eq!(c.fill_model, FillModel::QueueAware);
    assert_eq!(FillModel::from_str("aggressive"), FillModel::Aggressive);
    assert_eq!(FillModel::from_str("conservative"), FillModel::Conservative);
    assert_eq!(FillModel::from_str("Aggressive"), FillModel::QueueAware);
}

#[test]
fn random_numbers_follow_their_recurrence() {
    let mut state: u64 = 42;
    for _ in 0..50 {
        let expected =
            state.wrapping_mul(6364136223846793005).wrapping_add(1442695040888963407);
        state = next_random(state);
        assert_eq!(state, expected);
    }
    let mut s: u64 = 42;
    let r = random_part(&mut s);
    assert_eq!(s, next_random(42));
    assert_eq!(r, s >> 11);
}

#[test]
fn latencies_are_bounded() {
    let mut q = LatencyQueue::new(300, 500, 42);
    for _ in 0..100 {
        let expected = 300 + (next_random(q.rng_state) >> 33) % 201;
        let l = q.random_latency();
        assert_eq!(l, expected);
        assert!((300..=500).contains(&l));
    }
}

#[test]
fn orders_are_conserved_on_their_way() {
    let mut q = LatencyQueue::new(10, 10, 1);
    for id in 0..3 {
        q.submit(order(id, 0), id as i64 * 100);
    }
    assert_eq!(q.pending.iter().map(|o| o.live_at_ms).collect::<Vec<_>>(), vec![10, 110, 210]);
    let ready = q.drain_ready(110);
    assert_eq!(ready.iter().map(|o| o.id).collect::<Vec<_>>(), vec![0, 1]);
    assert!(ready.iter().all(|o| o.status == OrderStatus::Live));
    assert!(!q.cancel_pending(1));
    assert!(q.cancel_pending(2));
    assert!(q.pending.is_empty());
}

#[test]
fn purchases_are_locked() {
    let mut inv = TokenInventory::new();
    inv.add_from_market(b(5.0), 1000, 8000);
    inv.add_from_market(b(6.0), 2000, 8000);
    assert!(inv.tick(8999).is_empty());
    assert_eq!(inv.tick(9000), vec![b(5.0)]);
    assert_eq!(inv.locked, vec![(b(6.0), 10_000)]);
    inv.sellable = b(5.0);
    assert!(inv.can_sell(b(5.0)));
    assert!(!inv.can_sell(b(5.1)));
}

#[test]
fn splits_and_settlement() {
    let mut p = Position::new(b(1000.0));
    p.apply_split(b(900.0), b(100.0), b(100.0));
    assert_eq!(f64::from_bits(p.cash), 900.0);
    assert_eq!(f64::from_bits(p.inventory(TokenSide::Down).sellable), 100.0);
    p.up.sellable = b(7.0);
    assert_eq!(p.settle(true).sellable, b(7.0));
    assert_eq!(p.settle(false).sellable, b(100.0));
}

#[test]
fn models_decide_what_fills() {
    let bid = |m, trade| should_fill(m, OrderSide::Bid, b(0.5), TradeSide::Sell, b(trade));
    let ask = |m, trade| should_fill(m, OrderSide::Ask, b(0.5), TradeSide::Buy, b(trade));
    for m in [FillModel::Aggressive, FillModel::QueueAware] {
        assert!(bid(m, 0.5) && bid(m, 0.4) && !bid(m, 0.6));
        assert!(ask(m, 0.5) && ask(m, 0.6) && !ask(m, 0.4));
    }
    let m = FillModel::Conservative;
    assert!(!bid(m, 0.5) && bid(m, 0.4) && !ask(m, 0.5) && ask(m, 0.6));
    assert!(!should_fill(m, OrderSide::Bid, b(0.5), TradeSide::Buy, b(0.1)));
    assert!(shares_queue(FillModel::QueueAware, b(0.5), b(0.5)));
    assert!(!shares_queue(FillModel::QueueAware, b(0.5), b(0.4)));
    assert!(!shares_queue(FillModel::Aggressive, b(0.5), b(0.5)));
}

fn book(token: TokenSide, ts_ms: i64, bid: f64, ask: f64) -> SimEvent {
    SimEvent::PolyBookState {
        ts_ms,
        token,
        bids: vec![PriceLevel { price: b(bid), size: b(1.0) }],
        asks: vec![],
        best_bid: b(bid),
        best_ask: b(ask),
    }
}

fn wish(side: OrderSide, price: f64, size: f64) -> OrderWish {
    OrderWish {
        token: TokenSide::Up,
        side,
        price: b(price),
        size: b(size),
        size_less: b(size - 1e-9),
    }
}

fn config(model: FillModel) -> SimConfig {
    SimConfig { min_latency_ms: 100, max_latency_ms: 100, fill_model: model, ..SimConfig::default() }
}

#[test]
fn only_resting_orders_are_accepted() {
    let mut state = MarketState::new();
    assert!(validate_maker_only(OrderSide::Bid, b(0.9), &state, TokenSide::Up));
    state.update(&book(TokenSide::Up, 1, 0.40, 0.50), 1000);
    assert!(validate_maker_only(OrderSide::Bid, b(0.49), &state, TokenSide::Up));
    assert!(!validate_maker_only(OrderSide::Bid, b(0.50), &state, TokenSide::Up));
    assert!(validate_maker_only(OrderSide::Ask, b(0.41), &state, TokenSide::Up));
    assert!(!validate_maker_only(OrderSide::Ask, b(0.40), &state, TokenSide::Up));
    assert!(validate_maker_only(OrderSide::Ask, b(0.40), &state, TokenSide::Down));

    let mut s = Simulation::new(config(FillModel::Aggressive));
    assert!(s.place(wish(OrderSide::Bid, 0.45, 10.0), &state, 1));
    assert!(!s.place(wish(OrderSide::Bid, 0.50, 10.0), &state, 1));
    assert!(!s.place(wish(OrderSide::Ask, 0.60, 10.0), &state, 1));
    assert!(!s.place(wish(OrderSide::Bid, 0.005, 10.0), &state, 1));
    assert!(!s.place(wish(OrderSide::Ask, 0.995, 0.0), &state, 1));
    assert!(!s.place(wish(OrderSide::Bid, 0.45, 0.0), &state, 1));
    assert_eq!((s.position.orders_submitted, s.position.orders_rejected), (1, 5));
    s.position.up.sellable = b(10.0);
    assert!(s.place(wish(OrderSide::Ask, 0.60, 10.0), &state, 1));
}

fn amounts(size: f64, filled: f64, order_size: f64, cash: f64) -> FillAmounts {
    FillAmounts {
        size: b(size),
        size_less: b(size - 1e-9),
        filled: b(filled),
        order_size_less: b(order_size - 1e-9),
        after: Amounts { cash: b(cash), volume: b(1.0), sellable: b(0.0) },
    }
}

#[test]
fn orders_live_are_filled_and_cancelled() {
    let state = MarketState::new();
    let mut s = Simulation::new(config(FillModel::Aggressive));
    s.place(wish(OrderSide::Bid, 0.45, 10.0), &state, 0);
    s.place(wish(OrderSide::Bid, 0.40, 10.0), &state, 0);
    s.begin(99);
    assert!(s.live_orders().is_empty());
    s.begin(100);
    assert_eq!(s.live_orders().len(), 2);
    let t = Trade { token: TokenSide::Up, price: b(0.42), side: TradeSide::Sell };
    assert_eq!(s.next_candidate(0, t), Some(0));
    assert_eq!(s.next_candidate(1, t), None);
    assert!(s.take_fill(0, 100, amounts(0.0, 0.0, 10.0, 0.0)).is_none());
    let f = s.take_fill(0, 100, amounts(4.0, 4.0, 10.0, 998.2)).unwrap();
    assert_eq!((f.order_id, f.size, f.price), (0, b(4.0), b(0.45)));
    assert_eq!(s.live[0].status, OrderStatus::Live);
    assert_eq!(s.position.up.locked, vec![(b(4.0), 8100)]);
    assert_eq!(s.position.cash, b(998.2));
    s.take_fill(0, 101, amounts(6.0, 10.0, 10.0, 995.5));
    assert_eq!(s.live[0].status, OrderStatus::Filled);
    assert_eq!(s.next_candidate(0, t), None);
    assert_eq!(s.position.fills.len(), 2);
    s.cancel_all(200);
    assert_eq!(s.cancels, vec![(1, 300)]);
    s.begin(299);
    assert_eq!(s.live_orders().len(), 1);
    s.begin(300);
    assert!(s.live_orders().is_empty());
    assert_eq!(live_among(&s.live).len(), 0);
    s.place(wish(OrderSide::Bid, 0.40, 10.0), &state, 300);
    s.cancel(2, 301);
    assert!(s.queue.pending.is_empty());
    assert!(s.cancels.is_empty());
}

#[test]
fn sales_are_covered_when_filled() {
    let state = MarketState::new();
    let mut s = Simulation::new(config(FillModel::Aggressive));
    s.position.up.sellable = b(10.0);
    s.place(wish(OrderSide::Ask, 0.60, 10.0), &state, 0);
    s.begin(100);
    s.position.up.sellable = b(3.0);
    assert!(s.take_fill(0, 100, amounts(10.0, 10.0, 10.0, 1006.0)).is_none());
    let mut a = amounts(3.0, 3.0, 10.0, 1001.8);
    a.after.sellable = b(0.0);
    assert!(s.take_fill(0, 100, a).is_some());
    assert_eq!(s.position.up.sellable, b(0.0));
}

#[test]
fn many_orders_are_cleaned_up() {
    let state = MarketState::new();
    let mut s = Simulation::new(config(FillModel::Aggressive));
    for _ in 0..101 {
        s.place(wish(OrderSide::Bid, 0.45, 10.0), &state, 0);
    }
    s.begin(100);
    s.live[0].status = OrderStatus::Filled;
    s.clean_up();
    assert_eq!(s.live.len(), 100);
    s.live[0].status = OrderStatus::Filled;
    s.clean_up();
    assert_eq!(s.live.len(), 100);
    assert!(is_open(5, 5, 9) && is_open(9, 5, 9) && !is_open(4, 5, 9) && !is_open(10, 5, 9));
}

fn sample(fair_yes: f64, tau: f64) -> FairSample {
    FairSample {
        fair_yes: b(fair_yes),
        fair_no: b(1.0 - fair_yes),
        lstm_fair_yes: Some(b(0.7)),
        lstm_fair_no: None,
        tau: b(tau),
        z_score: b(0.0),
        trade_imbalance: b(0.0),
        book_imbalance: b(0.5),
        sigma_returns: b(0.0),
    }
}

#[test]
fn state_follows_the_events() {
    let mut s = MarketState::new();
    assert_eq!(s.tau, Tau::Left(300_000));
    s.update(&book(TokenSide::Down, 400, 0.40, 0.50), 1000);
    assert_eq!(s.tau, Tau::Left(600));
    assert_eq!(s.down_best_bid(), Some(b(0.40)));
    assert_eq!(s.up_best_bid(), None);
    s.update(&book(TokenSide::Up, 2000, -1.0, 0.50), 1000);
    assert_eq!(s.tau, Tau::Left(0));
    assert_eq!(s.up_best_bid(), None);
    assert_eq!(s.up_best_ask(), Some(b(0.50)));
    assert_eq!(s.down_best_ask(), Some(b(0.50)));
    s.update(
        &SimEvent::PolyTrade { ts_ms: 7, token: TokenSide::Up, price: b(0.3), side: TradeSide::Buy, size: b(1.0) },
        1000,
    );
    assert_eq!(s.last_trade_up, Some((b(0.3), TradeSide::Buy, 7)));
    s.update(&SimEvent::BtcTicker { ts_ms: 8, bid: b(1.0), ask: b(3.0), mid: b(2.0) }, 1000);
    assert_eq!((s.btc_mid, s.btc_bid, s.btc_ask), (b(2.0), b(1.0), b(3.0)));
    s.update(&SimEvent::FairValue { ts_ms: 9, sample: sample(0.6, 12.5) }, 1000);
    assert_eq!(s.tau, Tau::Given(b(12.5)));
    assert_eq!(s.fair.unwrap().fair_yes, b(0.6));
    assert!(s.tau.below(Span { ms: 13_000, secs: b(13.0) }));
    assert!(!s.tau.below(Span { ms: 12_000, secs: b(12.0) }));
    assert!(Tau::Left(4_999).below(Span { ms: 5_000, secs: b(5.0) }));
    assert!(!Tau::Left(5_000).below(Span { ms: 5_000, secs: b(5.0) }));
}

#[test]
fn sorted_times_never_fall() {
    assert_eq!(time_order(&vec![5, 3, 5, 1, 3]), vec![3, 1, 4, 0, 2]);
    let events = vec![
        book(TokenSide::Up, 5, 0.1, 0.2),
        book(TokenSide::Down, 3, 0.1, 0.2),
        book(TokenSide::Up, 3, 0.1, 0.2),
    ];
    let sorted = sort_events(&events);
    assert_eq!(sorted.iter().map(|e| e.ts_ms()).collect::<Vec<_>>(), vec![3, 3, 5]);
    assert!(matches!(sorted[0], SimEvent::PolyBookState { token: TokenSide::Down, .. }));
}

fn object(fields: Vec<(&str, Json)>) -> Json {
    Json::object(fields.into_iter().map(|(k, v)| (k.to_string(), v)).collect())
}

fn line(kind: &str, field: &str, value: Json) -> Json {
    object(vec![
        ("ts_recv_ms", Json::whole(77)),
        ("event_type", Json::text(kind)),
        (field, value),
    ])
}

fn pair(a: &str, c: &str) -> Json {
    Json::Array(vec![Json::text(a), Json::text(c)])
}

#[test]
fn lines_of_the_market_are_read() {
    let mut ids = TokenIds { up: String::new(), down: String::new() };
    let lookup = line("market_lookup", "raw", object(vec![("clobTokenIds", Json::text("[\"u\",\"d\"]"))]));
    assert!(matches!(read_clob_line(&lookup, &mut ids), ClobLine::Nothing));
    assert_eq!((ids.up.as_str(), ids.down.as_str()), ("u", "d"));
    let state = line(
        "book_state",
        "normalized",
        object(vec![
            ("asset_id", Json::text("d")),
            ("best_bid", Json::text("0.4")),
            ("best_ask", Json::Null),
            ("bids", Json::Array(vec![pair("0.4", "10"), Json::Null])),
        ]),
    );
    match read_clob_line(&state, &mut ids) {
        ClobLine::Book { ts_ms, token, best_bid, best_ask, bids, asks } => {
            assert_eq!((ts_ms, token), (77, TokenSide::Down));
            assert!(matches!(best_bid, NumText::Text(s) if s == "0.4"));
            assert!(matches!(best_ask, NumText::Missing));
            assert_eq!(bids, vec![("0.4".to_string(), "10".to_string())]);
            assert!(asks.is_empty());
        }
        _ => panic!("a book"),
    }
    let trade = line(
        "last_trade_price_raw",
        "raw",
        object(vec![
            ("asset_id", Json::text("u")),
            ("price", Json::text("0.5")),
            ("size", Json::count(3)),
            ("side", Json::text("BUY")),
        ]),
    );
    match read_clob_line(&trade, &mut ids) {
        ClobLine::Trade { token, side, size, .. } => {
            assert_eq!((token, side), (TokenSide::Up, TradeSide::Buy));
            assert!(matches!(size, NumText::Number(JsonNumber::PosInt(3))));
        }
        _ => panic!("a trade"),
    }
    let other = line("book_state", "normalized", object(vec![("asset_id", Json::text("x"))]));
    assert!(matches!(read_clob_line(&other, &mut ids), ClobLine::Nothing));
}

#[test]
fn lines_of_the_exchange_are_read() {
    let t = line(
        "book_ticker_normalized",
        "normalized",
        object(vec![("bid_price", Json::text("1")), ("ask_price", Json::text("2"))]),
    );
    assert!(matches!(read_depth_line(&t), DepthLine::Ticker { ts_ms: 77, .. }));
    let t = line(
        "trade_normalized",
        "normalized",
        object(vec![("price", Json::text("1")), ("qty", Json::text("2")), ("side", Json::text("SELL"))]),
    );
    assert!(matches!(read_depth_line(&t), DepthLine::Trade { is_buy: false, .. }));
    let t = object(vec![
        ("event_type", Json::text("system")),
        ("system_type", Json::text("strike_price")),
        ("normalized", object(vec![("strike_price", Json::text("96000.5"))])),
    ]);
    match read_depth_line(&t) {
        DepthLine::Strike { price } => assert!(matches!(price, NumText::Text(s) if s == "96000.5")),
        _ => panic!("a strike"),
    }
    let levels: Vec<Json> = (0..25).map(|_| pair("1", "2")).collect();
    let t = line("book_state", "normalized", object(vec![("bids", Json::Array(levels))]));
    match read_depth_line(&t) {
        DepthLine::Depth { bids, asks, .. } => assert_eq!((bids.len(), asks.len()), (20, 0)),
        _ => panic!("a book"),
    }
    assert!(matches!(read_depth_line(&line("depth_raw", "raw", Json::Null)), DepthLine::Nothing));
}

#[test]
fn lines_of_fair_values_are_read() {
    let t = line(
        "fv_sample",
        "normalized",
        object(vec![("fair_yes", Json::double(b(0.6), "0.6")), ("lstm_fair_yes", Json::Null)]),
    );
    let l = read_fair_value_line(&t).unwrap();
    assert_eq!(l.ts_ms, 77);
    assert!(matches!(l.fair_yes, Some(JsonNumber::Float { bits, .. }) if bits == b(0.6)));
    assert!(l.lstm_fair_yes.is_none());
    assert!(read_fair_value_line(&line("system", "normalized", Json::Null)).is_none());
}

#[test]
fn markets_are_loaded() {
    assert_eq!(folder_epoch("1777506000"), Some(1777506000));
    assert_eq!(folder_epoch("+5"), Some(5));
    assert_eq!(folder_epoch("x"), None);
    assert_eq!(market_end_ms(1777506000), 1777506300000);
    let mut l = MarketLoad::new(1000);
    assert_eq!(l.outcome().err().unwrap(), "No strike price found");
    l.add_strike(b(-1.0));
    l.add_strike(b(100.0));
    l.add_ticker(1, b(101.0), b(103.0), b(102.0));
    l.add_ticker(1_320_001, b(1.0), b(3.0), b(2.0));
    l.add_ticker(2, b(0.0), b(3.0), b(1.5));
    assert_eq!(l.events.len(), 2);
    assert_eq!(l.outcome().ok(), Some(true));
    l.add_trade(3, TokenSide::Up, b(0.0), TradeSide::Buy, b(1.0));
    l.add_book(3, TokenSide::Up, b(0.0), b(0.5), vec![], vec![]);
    l.add_btc_trade(3, b(1.0), b(0.0), true);
    l.add_depth(3, vec![], vec![]);
    l.add_fair_value(3, sample(0.0, 1.0));
    assert_eq!(l.events.len(), 2);
    l.add_fair_value(3, sample(0.4, 1.0));
    l.add_trade(3, TokenSide::Up, b(0.5), TradeSide::Buy, b(1.0));
    assert_eq!(l.events.len(), 4);
}

fn holding(bid: f64, sellable: f64, total: f64) -> Holding {
    Holding { bid: b(bid), above_bid: b(bid + 0.01), sellable: b(sellable), total: b(total) }
}

#[test]
fn fair_value_strategy_trades_on_the_edge() {
    let mut s = FairValueStrategy::new(b(0.03), b(50.0), b(100.0), true);
    assert_eq!(s.name(), "fv_lstm");
    assert_eq!(s.fair_value(&Some(sample(0.6, 100.0))), b(0.7));
    assert_eq!(s.fair_value(&None), b(0.5));
    let mut e = FairSeen {
        is_fair_value: true,
        ts_ms: 1000,
        tau: Tau::Given(b(100.0)),
        has_orders: true,
        edge: b(0.04),
        up: holding(0.4, 100.0, 100.0),
        down: holding(0.5, 100.0, 100.0),
    };
    let actions = s.on_event(&e);
    assert_eq!(actions.len(), 3);
    assert_eq!(actions[0], StrategyAction::CancelAll);
    assert!(matches!(actions[1], StrategyAction::PlaceOrder { token: TokenSide::Up, side: OrderSide::Bid, price, .. } if price == b(0.4 + 0.01)));
    assert!(matches!(actions[2], StrategyAction::PlaceOrder { token: TokenSide::Down, side: OrderSide::Ask, .. }));
    e.ts_ms = 1499;
    assert!(s.on_event(&e).is_empty());
    e.ts_ms = 1500;
    e.edge = b(-0.04);
    e.down.total = b(200.0);
    e.has_orders = false;
    let actions = s.on_event(&e);
    assert_eq!(actions.len(), 1);
    assert!(matches!(actions[0], StrategyAction::PlaceOrder { token: TokenSide::Up, side: OrderSide::Ask, .. }));
    e.tau = Tau::Given(b(4.9));
    assert!(s.on_event(&e).is_empty());
}

#[test]
fn market_maker_quotes_both_sides() {
    let mut s = MarketMakerStrategy::new(b(0.02), b(50.0), b(100.0));
    let mut e = MakerSeen {
        may_quote: true,
        ts_ms: 5000,
        tau: Tau::Left(100_000),
        has_orders: false,
        bid: b(0.48),
        ask: b(0.52),
        down_bid: b(0.48),
        down_ask: b(0.52),
        up_total: b(100.0),
        up_sellable: b(100.0),
        down_total: b(150.0),
        down_sellable: b(50.0),
    };
    let actions = s.on_event(&e);
    assert_eq!(actions.len(), 2);
    assert!(s.on_event(&e).is_empty());
    e.ts_ms = 6000;
    e.ask = b(0.48);
    assert!(s.on_event(&e).is_empty());
    e.has_orders = true;
    e.tau = Tau::Left(14_999);
    assert_eq!(s.on_event(&e), vec![StrategyAction::CancelAll]);
}

fn quotes() -> Quotes {
    let q = TokenQuote {
        below_ask: Some(b(0.49)),
        above_bid: Some(b(0.46)),
        sellable: b(100.0),
        total: b(100.0),
    };
    Quotes { up: q, down: q }
}

#[test]
fn mean_reversion_bets_and_leaves() {
    let mut s = MeanRevertStrategy::new(b(50.0), b(100.0));
    let mut e = RevertSeen {
        is_fair_value: true,
        ts_ms: 1000,
        tau: Tau::Left(100_000),
        z: b(1.6),
        quotes: quotes(),
    };
    let actions = s.on_event(&e);
    assert!(matches!(actions[0], StrategyAction::PlaceOrder { token: TokenSide::Down, side: OrderSide::Bid, .. }));
    assert!(matches!(actions[1], StrategyAction::PlaceOrder { token: TokenSide::Up, side: OrderSide::Ask, .. }));
    assert_eq!(s.in_position, Some(TokenSide::Down));
    e.ts_ms = 2000;
    e.z = b(0.4);
    let actions = s.on_event(&e);
    assert!(matches!(actions[..], [StrategyAction::PlaceOrder { token: TokenSide::Down, side: OrderSide::Ask, .. }]));
    assert_eq!(s.in_position, None);
    e.ts_ms = 3000;
    assert!(s.on_event(&e).is_empty());
    e.z = b(-1.6);
    assert!(matches!(s.on_event(&e)[0], StrategyAction::PlaceOrder { token: TokenSide::Up, side: OrderSide::Bid, .. }));
}

#[test]
fn trends_are_followed() {
    let mut s = TrendStrategy::new(b(50.0), b(100.0));
    s.observe(1000, b(100.0));
    s.observe(2000, b(101.0));
    assert_eq!(s.look(3999, Tau::Left(100_000), b(102.0)), None);
    assert_eq!(s.look(4000, Tau::Left(100_000), b(0.0)), None);
    assert_eq!(s.look(4000, Tau::Left(100_000), b(102.0)), Some(b(100.0)));
    assert_eq!(s.look(4499, Tau::Left(100_000), b(102.0)), None);
    assert_eq!(s.look(5000, Tau::Left(100_000), b(102.0)), Some(b(101.0)));
    assert_eq!(s.orders(b(0.0001), &quotes()).len(), 0);
    let up = s.orders(b(0.0003), &quotes());
    assert!(matches!(up[0], StrategyAction::PlaceOrder { token: TokenSide::Up, side: OrderSide::Bid, price, .. } if price == b(0.49)));
    let down = s.orders(b(-0.0003), &quotes());
    assert!(matches!(down[1], StrategyAction::PlaceOrder { token: TokenSide::Up, side: OrderSide::Ask, price, .. } if price == b(0.46)));
}

#[test]
fn memory_is_limited() {
    let mut h = History::new();
    for i in 0..201 {
        h.remember(i, i as u64, 200, 100);
    }
    assert_eq!(h.entries.len(), 101);
    assert_eq!(h.entries[0], (100, 100));
    assert_eq!(h.at(150, 20), Some(130));
    assert_eq!(h.at(50, 20), None);
    assert!(too_soon(10, 8, 3) && !too_soon(11, 8, 3));
}

fn dna() -> MonkeyDNA {
    MonkeyDNA {
        sources: vec![DataSource::BtcPrice, DataSource::Tau],
        threshold: b(0.05),
        lookback_ms: 1000,
        tick_interval_ms: 200,
        order_offset_ticks: 1,
        order_size: b(10.0),
        split_size: b(100.0),
        use_split_for_exit: true,
        cancel_stale_ms: 3000,
        depth_levels: 5,
    }
}

#[test]
fn monkeys_act_on_their_signal() {
    let mut m = MonkeyStrategy::new(dna());
    assert_eq!(m.name(), "monkey[btc_price+tau]");
    assert_eq!(m.reference_price(5000), None);
    m.observe_price(4500, b(9.0));
    assert_eq!(m.reference_price(5000), Some(b(9.0)));
    m.observe_price(4600, b(8.0));
    assert_eq!(m.reference_price(5600), Some(b(8.0)));
    m.observe_trade(1, b(-2.0));
    assert_eq!(m.trades.entries, vec![(1, b(-2.0))]);
    assert!(m.is_time(200));
    assert!(!m.is_time(399));
    assert_eq!(
        m.cancel_stale(&vec![order(1, 0), order(2, 500)], 3001),
        vec![StrategyAction::CancelOrder { order_id: 1 }],
    );
    assert!(m.orders(Tau::Left(100_000), b(0.05), &quotes()).is_empty());
    let up = m.orders(Tau::Left(100_000), b(0.06), &quotes());
    assert_eq!(up.len(), 2);
    assert!(matches!(up[0], StrategyAction::PlaceOrder { token: TokenSide::Up, .. }));
    let down = m.orders(Tau::Left(100_000), b(-0.06), &quotes());
    assert!(matches!(down[0], StrategyAction::PlaceOrder { token: TokenSide::Down, side: OrderSide::Bid, .. }));
    assert!(m.orders(Tau::Left(4_999), b(0.06), &quotes()).is_empty());
}

#[test]
fn combinations_rise() {
    assert_eq!(combinations(2, 3), vec![vec![0, 1], vec![0, 2], vec![1, 2]]);
    assert_eq!(combinations(3, 11).len(), 165);
    assert_eq!(next_combination(&vec![0, 3, 4], 5), Some(vec![1, 2, 3]));
    assert_eq!(next_combination(&vec![2, 3, 4], 5), None);
    let all = monkey_sources(1000);
    assert_eq!(all.len(), 55 + 165 + 165 + 330);
    assert!(all[..5].iter().all(|s| s == &vec![DataSource::BtcPrice]));
    assert_eq!(all[55], vec![DataSource::BtcPrice, DataSource::BtcDepth]);
    assert_eq!(all[57], vec![DataSource::BtcPrice, DataSource::BtcDepth]);
    assert_eq!(all[58], vec![DataSource::BtcPrice, DataSource::BtcTrades]);
    assert_eq!(all[220].len(), 3);
    assert_eq!(all[385].len(), 4);
    assert_eq!(monkey_sources(7).len(), 7);
    assert_eq!(DataSource::all().len(), 11);
    assert_eq!(DataSource::FvLstm.label(), "fv_lstm");
}

#[test]
fn results_are_grouped_and_named() {
    assert_eq!(truncate("abcdef", 3), "abc");
    assert_eq!(truncate("ab", 3), "ab");
    assert!(is_monkey_name("monkey[tau]"));
    for sources in [vec![], vec![DataSource::Tau], DataSource::all()] {
        let name = monkey_name(&sources);
        for x in DataSource::all() {
            assert_eq!(name.contains(x.label()), sources.contains(&x));
            assert_eq!(count_mentions(&vec![name.clone()], 1, x.label()), sources.contains(&x) as usize);
        }
    }
    assert!(!is_monkey_name("trend"));
    assert_eq!(short_name("monkey[btc_price+tau]"), "btc_price+tau");
    let names: Vec<String> = ["a", "b", "a"].iter().map(|s| s.to_string()).collect();
    let groups = group_by_name(&names);
    let places: Vec<usize> = groups.iter().flat_map(|g| g.places.clone()).collect();
    assert_eq!(places.len(), 3);
    let a = groups.iter().find(|g| g.name == "a").unwrap();
    assert_eq!(a.places, vec![0, 2]);
    assert_eq!(count_mentions(&names, 2, "a"), 1);
    assert_eq!(signal_label(b(0.6)), "HIGH");
    assert_eq!(signal_label(b(0.5)), "MEDIUM");
    assert_eq!(signal_label(b(0.2)), "LOW");
    assert_eq!(signal_label(b(0.0)), "NOISE");
    assert_eq!((outcome_word(true), outcome_word(false)), ("UP", "DOWN"));
}
