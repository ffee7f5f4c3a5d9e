//! What the executor does with the actions of a strategy and with its orders.

use vstd::prelude::*;
use vstd::string::*;

use crate::executor::clob;
use crate::executor::clob::{ClobError, LimitOrderParams, OrderResponse, OrderState};
use crate::executor::config;
use crate::executor::config::{show_address, AppConfig};
use crate::executor::order_manager;
use crate::executor::risk;
use crate::executor::risk::{check_order, Moment, OrderParams, RiskError};
use crate::executor::state::ExecutorState;
use crate::executor::strategy;
use crate::executor::strategy::{Action, ActionResult, Num, OrderParts, OrderSide, TokenSide};
use crate::json;
use crate::json::{Json, JsonView};
use crate::poly_gamma::MarketInfo;
use crate::text;
use crate::text::{join2, push_u64, same_text, Text};
use crate::types;
use crate::types::{Event, EventView, RawJson, RawView};

verus! {

/// Milliseconds between two ticks.
pub const STRATEGY_TICK_MS: u64 = 500;

/// Seconds to wait for a market to be found.
pub const MARKET_INFO_TIMEOUT_SECS: u64 = 30;

/// Ticks from one look at the open orders to the next.
pub const FILL_CHECK_INTERVAL: u64 = 2;

/// Ticks from one look at the switch to the next.
pub const TOGGLE_CHECK_INTERVAL: u64 = 4;

// Actions

/// What is done about an action: nothing more, or a request that the exchange or the chain
/// has to answer.
pub enum ActionPlan {
    Done(ActionResult),
    Split { amount: u64 },
    Register,
    PostOnly(LimitOrderParams),
    Limit(LimitOrderParams),
    Cancel { order_id: String },
    CancelAll,
}

/// What a plan holds.
pub enum PlanView {
    Done(strategy::ResultView),
    Split { amount: u64 },
    Register,
    PostOnly(clob::LimitView),
    Limit(clob::LimitView),
    Cancel { order_id: Text },
    CancelAll,
}

impl View for ActionPlan {
    type V = PlanView;

    open spec fn view(&self) -> PlanView {
        match self {
            ActionPlan::Done(r) => PlanView::Done(r@),
            ActionPlan::Split { amount } => PlanView::Split { amount: *amount },
            ActionPlan::Register => PlanView::Register,
            ActionPlan::PostOnly(p) => PlanView::PostOnly(p@),
            ActionPlan::Limit(p) => PlanView::Limit(p@),
            ActionPlan::Cancel { order_id } => PlanView::Cancel { order_id: order_id@ },
            ActionPlan::CancelAll => PlanView::CancelAll,
        }
    }
}

/// The word for a token in messages.
pub open spec fn token_word(t: TokenSide) -> Text {
    match t {
        TokenSide::Yes => "YES"@,
        TokenSide::No => "NO"@,
    }
}

/// What a rehearsed order says of itself.
pub open spec fn rehearsal(
    post_only: bool,
    side: OrderSide,
    token: TokenSide,
    price: strategy::NumView,
    size: strategy::NumView,
) -> Text {
    let verb = if post_only {
        match side {
            OrderSide::Buy => "would post-only buy "@ + token_word(token),
            OrderSide::Sell => "would post-only sell "@ + token_word(token),
        }
    } else {
        match side {
            OrderSide::Buy => "would limit buy"@,
            OrderSide::Sell => "would limit sell"@,
        }
    };
    verb + " at "@ + price.shown + " x"@ + size.shown
}

/// The price and the size of an action can be computed with.
pub open spec fn action_wf(a: strategy::ActionView) -> bool {
    a matches strategy::ActionView::Place { price, size, .. } ==> price.dec.wf() && size.dec.wf()
}

/// Price and size of an order.
pub open spec fn order_params(price: strategy::NumView, size: strategy::NumView) -> OrderParams {
    OrderParams { price: price.dec, size: size.dec }
}

/// The exposure after an action can be counted wherever it is looked at.
pub open spec fn action_is_countable(
    a: strategy::ActionView,
    info: MarketInfo,
    st: ExecutorState,
    c: AppConfig,
) -> bool {
    a matches strategy::ActionView::Place { token, price, size, .. }
        ==> info.clob_token_ids@.len() > order_manager::token_place(token)
        ==> risk::exposure_is_countable(order_params(price, size), st, c)
}

/// What is done about an action.
pub open spec fn plan_of(
    a: strategy::ActionView,
    info: MarketInfo,
    st: ExecutorState,
    c: AppConfig,
    m: Moment,
) -> PlanView {
    match a {
        strategy::ActionView::SplitUsdc { amount } => if c.dry_run {
            PlanView::Done(
                strategy::ResultView::DryRun {
                    description: "would split "@ + text::nat_text(amount as nat) + " USDC"@,
                },
            )
        } else {
            PlanView::Split { amount }
        },
        strategy::ActionView::RegisterPositions => if c.dry_run {
            PlanView::Done(
                strategy::ResultView::DryRun { description: "would register positions"@ },
            )
        } else {
            PlanView::Register
        },
        strategy::ActionView::CancelOrder { order_id } => if c.dry_run {
            PlanView::Done(
                strategy::ResultView::DryRun { description: "would cancel order "@ + order_id },
            )
        } else {
            PlanView::Cancel { order_id }
        },
        strategy::ActionView::CancelAll => if c.dry_run {
            PlanView::Done(
                strategy::ResultView::DryRun { description: "would cancel all orders"@ },
            )
        } else {
            PlanView::CancelAll
        },
        strategy::ActionView::Place { post_only, side, token, price, size } => if info.clob_token_ids@.len()
            <= order_manager::token_place(token) {
            PlanView::Done(strategy::ResultView::Error { reason: "missing token ID"@ })
        } else {
            match risk::refusal(order_params(price, size), st, c, m) {
                Some(RiskError::DryRunActive) => PlanView::Done(
                    strategy::ResultView::DryRun {
                        description: rehearsal(post_only, side, token, price, size),
                    },
                ),
                Some(e) => PlanView::Done(
                    strategy::ResultView::Error { reason: risk::risk_message(e) },
                ),
                None => {
                    let order = clob::LimitView {
                        token_id: info.clob_token_ids@[order_manager::token_place(token)]@,
                        side,
                        price: price.dec,
                        size: size.dec,
                    };
                    if post_only {
                        PlanView::PostOnly(order)
                    } else {
                        PlanView::Limit(order)
                    }
                },
            }
        },
    }
}

fn describe(o: &OrderParts) -> (s: String)
    ensures
        s@ == rehearsal(o.post_only, o.side, o.token, o.price@, o.size@),
{
    let mut s: String = if o.post_only {
        let word: &str = match o.token {
            TokenSide::Yes => "YES",
            TokenSide::No => "NO",
        };
        match o.side {
            OrderSide::Buy => join2("would post-only buy ", word),
            OrderSide::Sell => join2("would post-only sell ", word),
        }
    } else {
        match o.side {
            OrderSide::Buy => "would limit buy".to_owned(),
            OrderSide::Sell => "would limit sell".to_owned(),
        }
    };
    s.append(" at ");
    s.append(o.price.shown.as_str());
    s.append(" x");
    s.append(o.size.shown.as_str());
    s
}

fn rehearsed(description: String) -> (p: ActionPlan)
    ensures
        p@ == PlanView::Done(strategy::ResultView::DryRun { description: description@ }),
{
    ActionPlan::Done(ActionResult::DryRun { description })
}

fn plan_order(
    o: &OrderParts,
    info: &MarketInfo,
    st: &ExecutorState,
    c: &AppConfig,
    m: &Moment,
) -> (plan: Option<ActionPlan>)
    requires
        o.price.dec.wf(),
        o.size.dec.wf(),
        st.position.wf(),
        c.wf(),
        st.market_info matches Some(i) ==> i64::MIN <= risk::seconds_left(
            i.market_start as int,
            m.now as int,
        ) <= i64::MAX,
    ensures
        ({
            let a = strategy::place(o.post_only, o.side, o.token, o.price@, o.size@);
            &&& plan is Some <==> action_is_countable(a, *info, *st, *c)
            &&& plan matches Some(p) ==> p@ == plan_of(a, *info, *st, *c, *m)
        }),
{
    let place: usize = match o.token {
        TokenSide::Yes => 0,
        TokenSide::No => 1,
    };
    if info.clob_token_ids.len() <= place {
        return Some(
            ActionPlan::Done(ActionResult::Error { reason: "missing token ID".to_owned() }),
        );
    }
    let wanted: OrderParams = OrderParams { price: o.price.dec, size: o.size.dec };
    match check_order(&wanted, st, c, m) {
        None => None,
        Some(Err(RiskError::DryRunActive)) => Some(rehearsed(describe(o))),
        Some(Err(e)) => Some(ActionPlan::Done(ActionResult::Error { reason: e.message() })),
        Some(Ok(_)) => {
            let params: LimitOrderParams = LimitOrderParams {
                token_id: info.clob_token_ids[place].clone(),
                side: o.side,
                price: o.price.dec,
                size: o.size.dec,
            };
            if o.post_only {
                Some(ActionPlan::PostOnly(params))
            } else {
                Some(ActionPlan::Limit(params))
            }
        },
    }
}

/// Decides what is done about an action. None where the exposure after it is too large to
/// count.
pub fn plan_action(
    action: &Action,
    info: &MarketInfo,
    st: &ExecutorState,
    c: &AppConfig,
    m: &Moment,
) -> (plan: Option<ActionPlan>)
    requires
        action_wf(action@),
        st.position.wf(),
        c.wf(),
        st.market_info matches Some(i) ==> i64::MIN <= risk::seconds_left(
            i.market_start as int,
            m.now as int,
        ) <= i64::MAX,
    ensures
        plan is Some <==> action_is_countable(action@, *info, *st, *c),
        plan matches Some(p) ==> p@ == plan_of(action@, *info, *st, *c, *m),
{
    match action {
        Action::SplitUsdc { amount } => {
            if c.dry_run {
                let mut s: String = "would split ".to_owned();
                push_u64(&mut s, *amount);
                s.append(" USDC");
                Some(rehearsed(s))
            } else {
                Some(ActionPlan::Split { amount: *amount })
            }
        },
        Action::RegisterPositions => {
            if c.dry_run {
                Some(rehearsed("would register positions".to_owned()))
            } else {
                Some(ActionPlan::Register)
            }
        },
        Action::CancelOrder { order_id } => {
            if c.dry_run {
                Some(rehearsed(join2("would cancel order ", order_id.as_str())))
            } else {
                Some(ActionPlan::Cancel { order_id: order_id.clone() })
            }
        },
        Action::CancelAll => {
            if c.dry_run {
                Some(rehearsed("would cancel all orders".to_owned()))
            } else {
                Some(ActionPlan::CancelAll)
            }
        },
        _ => match action.order() {
            Some(o) => plan_order(&o, info, st, c, m),
            None => None,
        },
    }
}

/// The result of a split that was tried.
pub open spec fn split_result(r: Result<String, String>) -> strategy::ResultView {
    match r {
        Ok(tx) => strategy::ResultView::Success { detail: "split tx="@ + tx@ },
        Err(e) => strategy::ResultView::Error { reason: e@ },
    }
}

/// The result of a split that was tried.
pub fn finish_split(r: Result<String, String>) -> (result: ActionResult)
    ensures
        result@ == split_result(r),
{
    match r {
        Ok(tx) => ActionResult::Success { detail: join2("split tx=", tx.as_str()) },
        Err(e) => ActionResult::Error { reason: e },
    }
}

/// Whether the tokens are registered after a split that was tried: where it succeeded. A
/// registration that fails is only warned of; the result of the split stays what it is.
pub fn registers_after_split<E>(r: &Result<String, E>) -> (b: bool)
    ensures
        b == (*r is Ok),
{
    match r {
        Ok(_) => true,
        Err(_) => false,
    }
}

/// The result of a registration that was tried.
pub fn finish_register(r: Result<(), String>) -> (result: ActionResult)
    ensures
        result@ == (match r {
            Ok(_) => strategy::ResultView::Success { detail: "registered"@ },
            Err(e) => strategy::ResultView::Error { reason: e@ },
        }),
{
    match r {
        Ok(_) => ActionResult::Success { detail: "registered".to_owned() },
        Err(e) => ActionResult::Error { reason: e },
    }
}

/// The result of an order that was sent. Only an order that may only rest in the book can be
/// rejected; every other failure is an error.
pub open spec fn order_result(post_only: bool, r: Result<OrderResponse, ClobError>) -> strategy::ResultView {
    match r {
        Ok(o) => strategy::ResultView::OrderPlaced { order_id: o.order_id@ },
        Err(ClobError::OrderRejected(reason)) => if post_only {
            strategy::ResultView::Rejected { reason: reason@ }
        } else {
            strategy::ResultView::Error { reason: clob::clob_message(r->Err_0) }
        },
        Err(e) => strategy::ResultView::Error { reason: clob::clob_message(e) },
    }
}

/// The result of an order that was sent.
pub fn finish_order(post_only: bool, r: Result<OrderResponse, ClobError>) -> (result: ActionResult)
    ensures
        result@ == order_result(post_only, r),
{
    match r {
        Ok(o) => ActionResult::OrderPlaced { order_id: o.order_id },
        Err(e) => {
            let message: String = e.message();
            match e {
                ClobError::OrderRejected(reason) => {
                    if post_only {
                        ActionResult::Rejected { reason }
                    } else {
                        ActionResult::Error { reason: message }
                    }
                },
                ClobError::RequestFailed(_) => ActionResult::Error { reason: message },
            }
        },
    }
}

/// The result of a cancellation that was tried.
pub fn finish_cancel(order_id: &str, r: Result<(), ClobError>) -> (result: ActionResult)
    ensures
        result@ == (match r {
            Ok(_) => strategy::ResultView::Success { detail: "cancelled "@ + order_id@ },
            Err(e) => strategy::ResultView::Error { reason: clob::clob_message(e) },
        }),
{
    match r {
        Ok(_) => ActionResult::Success { detail: join2("cancelled ", order_id) },
        Err(e) => ActionResult::Error { reason: e.message() },
    }
}

/// The result of cancelling all orders.
pub fn finish_cancel_all(r: Result<(), ClobError>) -> (result: ActionResult)
    ensures
        result@ == (match r {
            Ok(_) => strategy::ResultView::Success { detail: "all orders cancelled"@ },
            Err(e) => strategy::ResultView::Error { reason: clob::clob_message(e) },
        }),
{
    match r {
        Ok(_) => ActionResult::Success { detail: "all orders cancelled".to_owned() },
        Err(e) => ActionResult::Error { reason: e.message() },
    }
}

// What is recorded

/// The JSON value of a price or a size.
pub open spec fn num_json(n: Option<strategy::NumView>) -> JsonView {
    match n {
        Some(n) => json::double(n.bits, n.json),
        None => JsonView::Null,
    }
}

fn json_num(n: &Num) -> (j: Json)
    ensures
        j@ == num_json(Some(n@)),
{
    Json::double(n.bits, n.json.as_str())
}

/// The name of an action.
pub open spec fn action_name(a: strategy::ActionView) -> Text {
    match a {
        strategy::ActionView::Place { post_only, side, token, .. } => match (post_only, side, token) {
            (true, OrderSide::Buy, TokenSide::Yes) => "post_only_buy_yes"@,
            (true, OrderSide::Buy, TokenSide::No) => "post_only_buy_no"@,
            (true, OrderSide::Sell, TokenSide::Yes) => "post_only_sell_yes"@,
            (true, OrderSide::Sell, TokenSide::No) => "post_only_sell_no"@,
            (false, OrderSide::Buy, TokenSide::Yes) => "limit_buy_yes"@,
            (false, OrderSide::Buy, TokenSide::No) => "limit_buy_no"@,
            (false, OrderSide::Sell, TokenSide::Yes) => "limit_sell_yes"@,
            (false, OrderSide::Sell, TokenSide::No) => "limit_sell_no"@,
        },
        strategy::ActionView::SplitUsdc { .. } => "split_usdc"@,
        strategy::ActionView::RegisterPositions => "register_positions"@,
        strategy::ActionView::CancelOrder { .. } => "cancel_order"@,
        strategy::ActionView::CancelAll => "cancel_all"@,
    }
}

/// The name of a result.
pub open spec fn result_name(r: strategy::ResultView) -> Text {
    match r {
        strategy::ResultView::OrderPlaced { .. } => "placed"@,
        strategy::ResultView::Rejected { .. } => "rejected"@,
        strategy::ResultView::Success { .. } => "success"@,
        strategy::ResultView::Error { .. } => "error"@,
        strategy::ResultView::DryRun { .. } => "dry_run"@,
    }
}

/// The order that a result speaks of.
pub open spec fn result_order(r: strategy::ResultView) -> Option<Text> {
    match r {
        strategy::ResultView::OrderPlaced { order_id } => Some(order_id),
        _ => None,
    }
}

/// The words of a result.
pub open spec fn result_words(r: strategy::ResultView) -> Option<Text> {
    match r {
        strategy::ResultView::OrderPlaced { .. } => None,
        strategy::ResultView::Rejected { reason } => Some(reason),
        strategy::ResultView::Success { detail } => Some(detail),
        strategy::ResultView::Error { reason } => Some(reason),
        strategy::ResultView::DryRun { description } => Some(description),
    }
}

/// The price that is recorded of an action: that of an order, or the amount of a split.
pub open spec fn action_price(a: strategy::ActionView, amount: strategy::NumView) -> Option<
    strategy::NumView,
> {
    match a {
        strategy::ActionView::Place { price, .. } => Some(price),
        strategy::ActionView::SplitUsdc { .. } => Some(amount),
        _ => None,
    }
}

/// The size that is recorded of an action.
pub open spec fn action_size(a: strategy::ActionView) -> Option<strategy::NumView> {
    match a {
        strategy::ActionView::Place { size, .. } => Some(size),
        _ => None,
    }
}

/// What is recorded of an action and its result. `amount` is the amount of a split as a
/// floating-point number.
pub open spec fn log_json(
    a: strategy::ActionView,
    r: strategy::ResultView,
    latency_ms: u64,
    amount: strategy::NumView,
) -> JsonView {
    JsonView::Object(
        seq![
            ("action_type"@, JsonView::Str(action_name(a))),
            ("latency_ms"@, json::num(latency_ms as int)),
            ("order_id"@, json::text_or_null(result_order(r))),
            ("price"@, num_json(action_price(a, amount))),
            ("reason"@, json::text_or_null(result_words(r))),
            ("result_type"@, JsonView::Str(result_name(r))),
            ("size"@, num_json(action_size(a))),
        ],
    )
}

fn name_of_action(action: &Action) -> (s: &'static str)
    ensures
        s@ == action_name(action@),
{
    match action {
        Action::PlacePostOnlyBuyYes { .. } => "post_only_buy_yes",
        Action::PlacePostOnlyBuyNo { .. } => "post_only_buy_no",
        Action::PlacePostOnlySellYes { .. } => "post_only_sell_yes",
        Action::PlacePostOnlySellNo { .. } => "post_only_sell_no",
        Action::PlaceLimitBuyYes { .. } => "limit_buy_yes",
        Action::PlaceLimitBuyNo { .. } => "limit_buy_no",
        Action::PlaceLimitSellYes { .. } => "limit_sell_yes",
        Action::PlaceLimitSellNo { .. } => "limit_sell_no",
        Action::SplitUsdc { .. } => "split_usdc",
        Action::RegisterPositions => "register_positions",
        Action::CancelOrder { .. } => "cancel_order",
        Action::CancelAll => "cancel_all",
    }
}

/// What is recorded of an action and its result.
pub fn action_log(action: &Action, result: &ActionResult, latency_ms: u64, amount: &Num) -> (j: Json)
    ensures
        j@ == log_json(action@, result@, latency_ms, amount@),
{
    let (name, order_id, words): (&str, Option<&str>, Option<&str>) = match result {
        ActionResult::OrderPlaced { order_id } => ("placed", Some(order_id.as_str()), None),
        ActionResult::Rejected { reason } => ("rejected", None, Some(reason.as_str())),
        ActionResult::Success { detail } => ("success", None, Some(detail.as_str())),
        ActionResult::Error { reason } => ("error", None, Some(reason.as_str())),
        ActionResult::DryRun { description } => ("dry_run", None, Some(description.as_str())),
    };
    let (price, size): (Json, Json) = match action.order() {
        Some(o) => (json_num(o.price), json_num(o.size)),
        None => match action {
            Action::SplitUsdc { .. } => (json_num(amount), Json::Null),
            _ => (Json::Null, Json::Null),
        },
    };
    let j: Json = Json::object3(
        "action_type",
        Json::text(name_of_action(action)),
        "latency_ms",
        Json::count(latency_ms),
        "order_id",
        Json::opt_text(order_id),
    ).with_field("price", price).with_field("reason", Json::opt_text(words)).with_field(
        "result_type",
        Json::text(name),
    ).with_field("size", size);
    assert(j@->Object_0 =~= log_json(action@, result@, latency_ms, amount@)->Object_0);
    j
}

/// The event of an action. `action_debug` and `result_debug` are the action and its result in
/// words.
pub fn action_event(
    action: &Action,
    result: &ActionResult,
    action_debug: &str,
    result_debug: &str,
    latency_ms: u64,
    amount: &Num,
) -> (e: Event)
    ensures
        e@ == types::data_event(
            "strategy_action"@,
            RawView::Value(
                JsonView::Object(
                    seq![
                        ("action"@, JsonView::Str(action_debug@)),
                        ("latency_ms"@, json::num(latency_ms as int)),
                        ("result"@, JsonView::Str(result_debug@)),
                    ],
                ),
            ),
            RawView::Value(log_json(action@, result@, latency_ms, amount@)),
        ),
{
    let raw: Json = Json::object3(
        "action",
        Json::text(action_debug),
        "latency_ms",
        Json::count(latency_ms),
        "result",
        Json::text(result_debug),
    );
    Event::data(
        "strategy_action",
        RawJson::of(raw),
        RawJson::of(action_log(action, result, latency_ms, amount)),
    )
}

/// The event with which the executor begins.
pub open spec fn started(c: AppConfig) -> EventView {
    types::system_event(
        "executor_started"@,
        RawView::Value(
            JsonView::Object(
                seq![
                    ("dry_run"@, JsonView::Bool(c.dry_run)),
                    ("strategy"@, JsonView::Str(c.strategy_name@)),
                    ("wallet"@, JsonView::Str(config::address_text(c.wallet_address@))),
                ],
            ),
        ),
    )
}

/// The event with which the executor begins.
pub fn started_event(c: &AppConfig) -> (e: Event)
    requires
        c.wf(),
    ensures
        e@ == started(*c),
{
    let wallet: String = show_address(&c.wallet_address);
    let j: Json = Json::object3(
        "dry_run",
        Json::Bool(c.dry_run),
        "strategy",
        Json::text(c.strategy_name.as_str()),
        "wallet",
        Json::text(wallet.as_str()),
    );
    Event::system("executor_started", RawJson::of(j))
}

/// The event with which the executor begins to trade on a market.
pub fn active_event(info: &MarketInfo, c: &AppConfig) -> (e: Event)
    ensures
        e@ == types::system_event(
            "executor_active"@,
            RawView::Value(
                JsonView::Object(
                    seq![
                        ("condition_id"@, JsonView::Str(info.condition_id@)),
                        ("strategy"@, JsonView::Str(c.strategy_name@)),
                    ],
                ),
            ),
        ),
{
    let j: Json = Json::object2(
        "condition_id",
        Json::text(info.condition_id.as_str()),
        "strategy",
        Json::text(c.strategy_name.as_str()),
    );
    Event::system("executor_active", RawJson::of(j))
}

/// Why the executor ends.
#[derive(Clone, Copy, Debug, PartialEq, Eq, Structural)]
pub enum StopReason {
    MarketInfoTimeout,
    ToggleDisabled,
    MarketEnded,
}

/// The word for the end of the executor.
pub open spec fn stop_word(r: StopReason) -> Text {
    match r {
        StopReason::MarketInfoTimeout => "market_info_timeout"@,
        StopReason::ToggleDisabled => "toggle_disabled"@,
        StopReason::MarketEnded => "market_ended"@,
    }
}

/// The event with which the executor ends.
pub fn stopped_event(reason: StopReason) -> (e: Event)
    ensures
        e@ == types::system_event(
            "executor_stopped"@,
            RawView::Value(
                JsonView::Object(seq![("reason"@, JsonView::Str(stop_word(reason)))]),
            ),
        ),
{
    let word: &str = match reason {
        StopReason::MarketInfoTimeout => "market_info_timeout",
        StopReason::ToggleDisabled => "toggle_disabled",
        StopReason::MarketEnded => "market_ended",
    };
    Event::system("executor_stopped", RawJson::of(Json::object1("reason", Json::text(word))))
}

// The life of an executor

/// Where an executor stands: it waits for its market, connects to the exchange, trades, takes
/// back its orders, or is over.
#[derive(Clone, Copy, Debug, PartialEq, Eq, Structural)]
pub enum Stage {
    Waiting,
    Connecting,
    Trading,
    Closing,
    Over,
}

/// What happens to an executor: the collection ends, the market is found or not found in time,
/// the connection is made or fails, trading is switched off, the orders were taken back.
#[derive(Clone, Copy, Debug, PartialEq, Eq, Structural)]
pub enum Incident {
    Cancelled,
    MarketFound,
    MarketTimedOut,
    Connected,
    Refused,
    SwitchedOff,
    Closed,
}

/// What is done about it: what is recorded, and whether all orders are taken back.
#[derive(Clone, Copy, Debug, PartialEq, Eq, Structural)]
pub struct Reaction {
    pub active: bool,
    pub stopped: Option<StopReason>,
    pub cancel_all: bool,
}

/// The stage after an incident. One that does not fit the stage changes nothing.
pub open spec fn stage_after(s: Stage, i: Incident) -> Stage {
    match (s, i) {
        (Stage::Waiting, Incident::MarketFound) => Stage::Connecting,
        (Stage::Waiting, Incident::Cancelled) => Stage::Over,
        (Stage::Waiting, Incident::MarketTimedOut) => Stage::Over,
        (Stage::Connecting, Incident::Connected) => Stage::Trading,
        (Stage::Connecting, Incident::Refused) => Stage::Over,
        (Stage::Trading, Incident::Cancelled) => Stage::Closing,
        (Stage::Trading, Incident::SwitchedOff) => Stage::Closing,
        (Stage::Closing, Incident::Closed) => Stage::Over,
        _ => s,
    }
}

/// What is done about an incident. Whoever has traded takes back all orders, unless they were
/// only rehearsed, and then records the end.
pub open spec fn reaction_to(s: Stage, i: Incident, dry_run: bool) -> Reaction {
    Reaction {
        active: s == Stage::Connecting && i == Incident::Connected,
        stopped: match (s, i) {
            (Stage::Waiting, Incident::MarketTimedOut) => Some(StopReason::MarketInfoTimeout),
            (Stage::Trading, Incident::SwitchedOff) => Some(StopReason::ToggleDisabled),
            (Stage::Closing, Incident::Closed) => Some(StopReason::MarketEnded),
            _ => None,
        },
        cancel_all: s == Stage::Trading && stage_after(s, i) == Stage::Closing && !dry_run,
    }
}

impl Stage {
    /// Takes in an incident.
    pub fn meet(&mut self, i: Incident, dry_run: bool) -> (r: Reaction)
        ensures
            *final(self) == stage_after(*old(self), i),
            r == reaction_to(*old(self), i, dry_run),
    {
        let mut r: Reaction = Reaction { active: false, stopped: None, cancel_all: false };
        match (*self, i) {
            (Stage::Waiting, Incident::MarketFound) => {
                *self = Stage::Connecting;
            },
            (Stage::Waiting, Incident::Cancelled) => {
                *self = Stage::Over;
            },
            (Stage::Waiting, Incident::MarketTimedOut) => {
                *self = Stage::Over;
                r.stopped = Some(StopReason::MarketInfoTimeout);
            },
            (Stage::Connecting, Incident::Connected) => {
                *self = Stage::Trading;
                r.active = true;
            },
            (Stage::Connecting, Incident::Refused) => {
                *self = Stage::Over;
            },
            (Stage::Trading, Incident::Cancelled) => {
                *self = Stage::Closing;
                r.cancel_all = !dry_run;
            },
            (Stage::Trading, Incident::SwitchedOff) => {
                *self = Stage::Closing;
                r.stopped = Some(StopReason::ToggleDisabled);
                r.cancel_all = !dry_run;
            },
            (Stage::Closing, Incident::Closed) => {
                *self = Stage::Over;
                r.stopped = Some(StopReason::MarketEnded);
            },
            _ => {},
        }
        r
    }
}

// Orders that are followed

/// An order whose fill is waited for.
pub struct TrackedOrder {
    pub order_id: String,
    pub token_side: TokenSide,
    pub order_side: OrderSide,
    pub price: Num,
    pub size: Num,
}

/// What an order that is followed, or its fill, holds.
pub struct TrackedView {
    pub order_id: Text,
    pub token_side: TokenSide,
    pub order_side: OrderSide,
    pub price: strategy::NumView,
    pub size: strategy::NumView,
}

impl View for TrackedOrder {
    type V = TrackedView;

    open spec fn view(&self) -> TrackedView {
        TrackedView {
            order_id: self.order_id@,
            token_side: self.token_side,
            order_side: self.order_side,
            price: self.price@,
            size: self.size@,
        }
    }
}

/// What was bought or sold.
pub struct FillNotification {
    pub order_id: String,
    pub token_side: TokenSide,
    pub order_side: OrderSide,
    pub price: Num,
    pub size: Num,
}

impl View for FillNotification {
    type V = TrackedView;

    open spec fn view(&self) -> TrackedView {
        TrackedView {
            order_id: self.order_id@,
            token_side: self.token_side,
            order_side: self.order_side,
            price: self.price@,
            size: self.size@,
        }
    }
}

/// What an optional order that is followed holds.
pub open spec fn opt_tracked(o: Option<TrackedOrder>) -> Option<TrackedView> {
    match o {
        Some(o) => Some(o@),
        None => None,
    }
}

/// The state of the executor between two ticks: how many there were, and the orders that are
/// followed, one to buy and one to sell.
pub struct ExecutorRun {
    pub tick_count: u64,
    pub buy: Option<TrackedOrder>,
    pub sell: Option<TrackedOrder>,
}

/// What the state of the executor holds.
pub struct RunView {
    pub tick_count: u64,
    pub buy: Option<TrackedView>,
    pub sell: Option<TrackedView>,
}

impl View for ExecutorRun {
    type V = RunView;

    open spec fn view(&self) -> RunView {
        RunView {
            tick_count: self.tick_count,
            buy: opt_tracked(self.buy),
            sell: opt_tracked(self.sell),
        }
    }
}

/// What is to be looked at in a tick.
#[derive(Clone, Copy, Debug, PartialEq, Eq, Structural)]
pub struct Duties {
    pub check_toggle: bool,
    pub check_fills: bool,
}

/// The executor after the result of an action: an order that may only rest in the book is
/// followed once it was placed.
pub open spec fn track_step(
    v: RunView,
    a: strategy::ActionView,
    r: strategy::ResultView,
) -> RunView {
    match (a, r) {
        (
            strategy::ActionView::Place { post_only: true, side, token, price, size },
            strategy::ResultView::OrderPlaced { order_id },
        ) => {
            let order = TrackedView { order_id, token_side: token, order_side: side, price, size };
            match side {
                OrderSide::Buy => RunView { buy: Some(order), ..v },
                OrderSide::Sell => RunView { sell: Some(order), ..v },
            }
        },
        _ => v,
    }
}

impl ExecutorRun {
    /// No tick yet, and no order.
    pub fn new() -> (r: ExecutorRun)
        ensures
            r@ == (RunView { tick_count: 0, buy: None, sell: None }),
    {
        ExecutorRun { tick_count: 0, buy: None, sell: None }
    }

    /// Counts a tick and tells what is to be looked at: the switch at every fourth, the orders
    /// at every second.
    pub fn next_tick(&mut self) -> (d: Duties)
        requires
            old(self).tick_count < u64::MAX,
        ensures
            final(self)@ == (RunView {
                tick_count: (old(self)@.tick_count + 1) as u64,
                ..old(self)@
            }),
            d.check_toggle == ((old(self)@.tick_count + 1) % 4 == 0),
            d.check_fills == ((old(self)@.tick_count + 1) % 2 == 0),
            d.check_toggle == ((old(self)@.tick_count + 1) % (TOGGLE_CHECK_INTERVAL as int) == 0),
            d.check_fills == ((old(self)@.tick_count + 1) % (FILL_CHECK_INTERVAL as int) == 0),
    {
        self.tick_count = self.tick_count + 1;
        Duties {
            check_toggle: self.tick_count % TOGGLE_CHECK_INTERVAL == 0,
            check_fills: self.tick_count % FILL_CHECK_INTERVAL == 0,
        }
    }

    /// Follows the order of an action, where there is one to follow.
    pub fn track(&mut self, action: &Action, result: &ActionResult)
        ensures
            final(self)@ == track_step(old(self)@, action@, result@),
    {
        match (action.order(), result) {
            (Some(o), ActionResult::OrderPlaced { order_id }) => {
                if o.post_only {
                    let order: TrackedOrder = TrackedOrder {
                        order_id: order_id.clone(),
                        token_side: o.token,
                        order_side: o.side,
                        price: o.price.duplicate(),
                        size: o.size.duplicate(),
                    };
                    match o.side {
                        OrderSide::Buy => {
                            self.buy = Some(order);
                        },
                        OrderSide::Sell => {
                            self.sell = Some(order);
                        },
                    }
                }
            },
            _ => {},
        }
    }
}

/// What is done to learn of the fill of an order: nothing, take it as filled because it was
/// only rehearsed, or ask the exchange.
pub enum FillCheck {
    Nothing,
    Rehearsed(FillNotification),
    Ask(String),
}

/// What a look at an order holds.
pub enum CheckView {
    Nothing,
    Rehearsed(TrackedView),
    Ask(Text),
}

impl View for FillCheck {
    type V = CheckView;

    open spec fn view(&self) -> CheckView {
        match self {
            FillCheck::Nothing => CheckView::Nothing,
            FillCheck::Rehearsed(f) => CheckView::Rehearsed(f@),
            FillCheck::Ask(id) => CheckView::Ask(id@),
        }
    }
}

/// What is done to learn of the fill of an order.
pub open spec fn check_of(order: Option<TrackedView>, dry_run: bool) -> CheckView {
    match order {
        None => CheckView::Nothing,
        Some(o) => if o.order_id == "dry-run"@ {
            CheckView::Rehearsed(o)
        } else if dry_run {
            CheckView::Nothing
        } else {
            CheckView::Ask(o.order_id)
        },
    }
}

fn filled(o: &TrackedOrder, price: &Num, size: &Num) -> (f: FillNotification)
    ensures
        f@ == (TrackedView { price: price@, size: size@, ..o@ }),
{
    FillNotification {
        order_id: o.order_id.clone(),
        token_side: o.token_side,
        order_side: o.order_side,
        price: price.duplicate(),
        size: size.duplicate(),
    }
}

/// Decides how to learn of the fill of an order.
pub fn check_fill(order: &Option<TrackedOrder>, dry_run: bool) -> (c: FillCheck)
    ensures
        c@ == check_of(opt_tracked(*order), dry_run),
{
    match order {
        None => FillCheck::Nothing,
        Some(o) => {
            if same_text(o.order_id.as_str(), "dry-run") {
                FillCheck::Rehearsed(filled(o, &o.price, &o.size))
            } else if dry_run {
                FillCheck::Nothing
            } else {
                FillCheck::Ask(o.order_id.clone())
            }
        },
    }
}

/// The word for a side.
pub open spec fn side_word(s: OrderSide) -> Text {
    match s {
        OrderSide::Buy => "Buy"@,
        OrderSide::Sell => "Sell"@,
    }
}

/// The name of a token in records.
pub open spec fn token_name(t: TokenSide) -> Text {
    match t {
        TokenSide::Yes => "Yes"@,
        TokenSide::No => "No"@,
    }
}

fn word_of_side(s: OrderSide) -> (w: &'static str)
    ensures
        w@ == side_word(s),
{
    match s {
        OrderSide::Buy => "Buy",
        OrderSide::Sell => "Sell",
    }
}

fn name_of_token(t: TokenSide) -> (w: &'static str)
    ensures
        w@ == token_name(t),
{
    match t {
        TokenSide::Yes => "Yes",
        TokenSide::No => "No",
    }
}

/// What is recorded of a rehearsed fill.
pub open spec fn rehearsed_json(side: OrderSide) -> RawView {
    RawView::Value(
        JsonView::Object(
            seq![
                ("order_id"@, JsonView::Str("dry-run"@)),
                ("side"@, JsonView::Str(side_word(side))),
            ],
        ),
    )
}

fn json_rehearsed(side: OrderSide) -> (r: RawJson)
    ensures
        r@ == rehearsed_json(side),
{
    RawJson::of(
        Json::object2(
            "order_id",
            Json::text("dry-run"),
            "side",
            Json::text(word_of_side(side)),
        ),
    )
}

/// The event of a rehearsed fill.
pub fn rehearsed_fill_event(fill: &FillNotification) -> (e: Event)
    ensures
        e@ == types::data_event(
            "dry_run_fill"@,
            rehearsed_json(fill@.order_side),
            rehearsed_json(fill@.order_side),
        ),
{
    Event::data(
        "dry_run_fill",
        json_rehearsed(fill.order_side),
        json_rehearsed(fill.order_side),
    )
}

/// What the exchange says of an order: where it stands, and the price and the size of its fill.
pub struct OrderReport {
    pub state: OrderState,
    pub price: Num,
    pub size: Num,
}

/// What follows from the report on an order: the fill, where there is one, and whether the
/// order is still followed.
pub struct ReportOutcome {
    pub fill: Option<FillNotification>,
    pub event: Option<Event>,
    pub keep: bool,
}

/// The event of a fill.
pub open spec fn fill_event(f: TrackedView, latency_ms: u64) -> EventView {
    types::data_event(
        "order_fill"@,
        RawView::Value(
            JsonView::Object(
                seq![
                    ("fill_price"@, num_json(Some(f.price))),
                    ("fill_size"@, num_json(Some(f.size))),
                    ("order_id"@, JsonView::Str(f.order_id)),
                    ("order_side"@, JsonView::Str(side_word(f.order_side))),
                    ("poll_latency_ms"@, json::num(latency_ms as int)),
                    ("token_side"@, JsonView::Str(token_name(f.token_side))),
                ],
            ),
        ),
        RawView::Value(
            JsonView::Object(
                seq![
                    ("fill_price"@, num_json(Some(f.price))),
                    ("fill_size"@, num_json(Some(f.size))),
                    ("order_id"@, JsonView::Str(f.order_id)),
                    ("poll_latency_ms"@, json::num(latency_ms as int)),
                ],
            ),
        ),
    )
}

fn make_fill_event(f: &FillNotification, latency_ms: u64) -> (e: Event)
    ensures
        e@ == fill_event(f@, latency_ms),
{
    let head: Json = Json::object3(
        "fill_price",
        json_num(&f.price),
        "fill_size",
        json_num(&f.size),
        "order_id",
        Json::text(f.order_id.as_str()),
    );
    let raw: Json = head.duplicate().with_field(
        "order_side",
        Json::text(word_of_side(f.order_side)),
    ).with_field("poll_latency_ms", Json::count(latency_ms)).with_field(
        "token_side",
        Json::text(name_of_token(f.token_side)),
    );
    let normalized: Json = head.with_field("poll_latency_ms", Json::count(latency_ms));
    assert(raw@->Object_0 =~= seq![
        ("fill_price"@, num_json(Some(f@.price))),
        ("fill_size"@, num_json(Some(f@.size))),
        ("order_id"@, JsonView::Str(f@.order_id)),
        ("order_side"@, JsonView::Str(side_word(f@.order_side))),
        ("poll_latency_ms"@, json::num(latency_ms as int)),
        ("token_side"@, JsonView::Str(token_name(f@.token_side))),
    ]);
    assert(normalized@->Object_0 =~= seq![
        ("fill_price"@, num_json(Some(f@.price))),
        ("fill_size"@, num_json(Some(f@.size))),
        ("order_id"@, JsonView::Str(f@.order_id)),
        ("poll_latency_ms"@, json::num(latency_ms as int)),
    ]);
    Event::data("order_fill", RawJson::of(raw), RawJson::of(normalized))
}

/// The outcome of a report is the right one: an order that was matched is filled and recorded
/// and no longer followed, one that was cancelled is no longer followed, and any other is kept.
pub open spec fn is_outcome(out: ReportOutcome, o: TrackedView, r: OrderReport, latency_ms: u64) -> bool {
    match r.state {
        OrderState::Matched => {
            let fill = TrackedView { price: r.price@, size: r.size@, ..o };
            &&& out.fill matches Some(f) && f@ == fill
            &&& out.event matches Some(e) && e@ == fill_event(fill, latency_ms)
            &&& !out.keep
        },
        OrderState::Canceled => out.fill is None && out.event is None && !out.keep,
        _ => out.fill is None && out.event is None && out.keep,
    }
}

/// Reads the report on an order that is followed.
pub fn read_report(o: &TrackedOrder, r: &OrderReport, latency_ms: u64) -> (out: ReportOutcome)
    ensures
        is_outcome(out, o@, *r, latency_ms),
{
    match r.state {
        OrderState::Matched => {
            let fill: FillNotification = filled(o, &r.price, &r.size);
            let event: Event = make_fill_event(&fill, latency_ms);
            ReportOutcome { fill: Some(fill), event: Some(event), keep: false }
        },
        OrderState::Canceled => ReportOutcome { fill: None, event: None, keep: false },
        _ => ReportOutcome { fill: None, event: None, keep: true },
    }
}

// Laws

/// What a rehearsal says that an action would have done.
pub open spec fn would_have_done(a: strategy::ActionView) -> Text {
    match a {
        strategy::ActionView::SplitUsdc { amount } => "would split "@ + text::nat_text(
            amount as nat,
        ) + " USDC"@,
        strategy::ActionView::RegisterPositions => "would register positions"@,
        strategy::ActionView::CancelOrder { order_id } => "would cancel order "@ + order_id,
        strategy::ActionView::CancelAll => "would cancel all orders"@,
        strategy::ActionView::Place { post_only, side, token, price, size } => rehearsal(
            post_only,
            side,
            token,
            price,
            size,
        ),
    }
}

/// While orders are only rehearsed, no action leads to a request: it is done with a result
/// that says what it would have done, or that the market has no such token.
pub proof fn rehearsals_send_nothing(
    a: strategy::ActionView,
    info: MarketInfo,
    st: ExecutorState,
    c: AppConfig,
    m: Moment,
)
    requires
        c.dry_run,
    ensures
        plan_of(a, info, st, c, m) == PlanView::Done(
            if a matches strategy::ActionView::Place { token, .. } && info.clob_token_ids@.len()
                <= order_manager::token_place(token) {
                strategy::ResultView::Error { reason: "missing token ID"@ }
            } else {
                strategy::ResultView::DryRun { description: would_have_done(a) }
            },
        ),
{
}

/// An executor that trades stops only by way of taking back its orders: it leaves the stage of
/// trading for that of closing alone, and asks for it unless orders are only rehearsed; it is
/// over when that is done, and then records that the market ended.
pub proof fn traders_take_back_their_orders(i: Incident, dry_run: bool)
    ensures
        stage_after(Stage::Trading, i) != Stage::Trading ==> {
            &&& stage_after(Stage::Trading, i) == Stage::Closing
            &&& reaction_to(Stage::Trading, i, dry_run).cancel_all == !dry_run
        },
        stage_after(Stage::Closing, i) != Stage::Closing ==> {
            &&& stage_after(Stage::Closing, i) == Stage::Over
            &&& reaction_to(Stage::Closing, i, dry_run).stopped == Some(StopReason::MarketEnded)
        },
        stage_after(Stage::Over, i) == Stage::Over,
        reaction_to(Stage::Over, i, dry_run) == (Reaction {
            active: false,
            stopped: None,
            cancel_all: false,
        }),
{
}

/// Nothing is taken back by an executor that has not traded.
pub proof fn only_traders_cancel(s: Stage, i: Incident, dry_run: bool)
    requires
        s != Stage::Trading || dry_run,
    ensures
        !reaction_to(s, i, dry_run).cancel_all,
{
}

/// Every order that is sent has passed the limits, and is for the token that was asked for.
pub proof fn sent_orders_keep_the_limits(
    a: strategy::ActionView,
    info: MarketInfo,
    st: ExecutorState,
    c: AppConfig,
    m: Moment,
)
    requires
        plan_of(a, info, st, c, m) is PostOnly || plan_of(a, info, st, c, m) is Limit,
        action_is_countable(a, info, st, c),
    ensures
        ({
            let o = match plan_of(a, info, st, c, m) {
                PlanView::PostOnly(o) => o,
                PlanView::Limit(o) => o,
                _ => arbitrary(),
            };
            &&& !c.dry_run
            &&& !c.max_order_size.less(o.size)
            &&& !o.price.less(c.order_price_min)
            &&& !c.order_price_max.less(o.price)
            &&& risk::exposure_after(st.position, o.size) matches Some(total)
                && !c.max_position_size.less(total)
            &&& a matches strategy::ActionView::Place { token, side, .. } && o.side == side
                && o.token_id == info.clob_token_ids@[order_manager::token_place(token)]@
        }),
{
    match a {
        strategy::ActionView::Place { price, size, .. } => {
            risk::accepted_orders_keep_the_limits(order_params(price, size), st, c, m);
        },
        _ => {},
    }
}

/// Every action becomes the request that it asks for, unless orders are only rehearsed: a split of
/// its amount, a registration, the cancellation of its order or of all.
pub proof fn actions_become_requests(
    a: strategy::ActionView,
    info: MarketInfo,
    st: ExecutorState,
    c: AppConfig,
    m: Moment,
)
    requires
        !c.dry_run,
    ensures
        match a {
            strategy::ActionView::SplitUsdc { amount } => plan_of(a, info, st, c, m) == (
            PlanView::Split { amount }),
            strategy::ActionView::RegisterPositions => plan_of(a, info, st, c, m)
                == PlanView::Register,
            strategy::ActionView::CancelOrder { order_id } => plan_of(a, info, st, c, m) == (
            PlanView::Cancel { order_id }),
            strategy::ActionView::CancelAll => plan_of(a, info, st, c, m) == PlanView::CancelAll,
            strategy::ActionView::Place { .. } => true,
        },
{
}

/// An order that keeps the limits is sent as it was asked for: for the first token of the market or
/// the second, on its side, at its price and in its size, and only to rest where that was asked
/// for. One that does not keep them is answered with the limit.
pub proof fn orders_are_sent_as_asked(
    post_only: bool,
    side: OrderSide,
    token: TokenSide,
    price: strategy::NumView,
    size: strategy::NumView,
    info: MarketInfo,
    st: ExecutorState,
    c: AppConfig,
    m: Moment,
)
    requires
        info.clob_token_ids@.len() >= 2,
        !c.dry_run,
    ensures
        ({
            let a = strategy::ActionView::Place { post_only, side, token, price, size };
            let plan = plan_of(a, info, st, c, m);
            let order = clob::LimitView {
                token_id: if token == TokenSide::Yes {
                    info.clob_token_ids@[0]@
                } else {
                    info.clob_token_ids@[1]@
                },
                side,
                price: price.dec,
                size: size.dec,
            };
            match risk::refusal(OrderParams { price: price.dec, size: size.dec }, st, c, m) {
                None => plan == (if post_only {
                    PlanView::PostOnly(order)
                } else {
                    PlanView::Limit(order)
                }),
                Some(e) => plan == PlanView::Done(
                    strategy::ResultView::Error { reason: risk::risk_message(e) },
                ),
            }
        }),
{
}

/// What was tried ends as it ended: with the transaction or the order on success, with the words of
/// the fault otherwise. Only an order that was to rest can be told to be rejected.
pub proof fn results_are_told(
    tx: String,
    fault: String,
    order: OrderResponse,
    post_only: bool,
)
    ensures
        split_result(Ok(tx)) == (strategy::ResultView::Success { detail: "split tx="@ + tx@ }),
        split_result(Err(fault)) == (strategy::ResultView::Error { reason: fault@ }),
        order_result(post_only, Ok(order)) == (strategy::ResultView::OrderPlaced {
            order_id: order.order_id@,
        }),
        order_result(true, Err(ClobError::OrderRejected(fault))) == (
        strategy::ResultView::Rejected { reason: fault@ }),
        order_result(false, Err(ClobError::OrderRejected(fault))) is Error,
        order_result(post_only, Err(ClobError::RequestFailed(fault))) == (
        strategy::ResultView::Error { reason: clob::clob_message(ClobError::RequestFailed(fault)) }),
{
}

/// The name of an order says what it is: whether it may only rest, whether it buys or sells, and
/// which token.
pub proof fn actions_are_named(
    post_only: bool,
    side: OrderSide,
    token: TokenSide,
    price: strategy::NumView,
    size: strategy::NumView,
)
    ensures
        action_name(strategy::ActionView::Place { post_only, side, token, price, size }) == (
        if post_only {
            "post_only_"@
        } else {
            "limit_"@
        }) + (if side == OrderSide::Buy {
            "buy_"@
        } else {
            "sell_"@
        }) + (if token == TokenSide::Yes {
            "yes"@
        } else {
            "no"@
        }),
{
    reveal_strlit("post_only_");
    reveal_strlit("limit_");
    reveal_strlit("buy_");
    reveal_strlit("sell_");
    reveal_strlit("yes");
    reveal_strlit("no");
    reveal_strlit("post_only_buy_yes");
    reveal_strlit("post_only_buy_no");
    reveal_strlit("post_only_sell_yes");
    reveal_strlit("post_only_sell_no");
    reveal_strlit("limit_buy_yes");
    reveal_strlit("limit_buy_no");
    reveal_strlit("limit_sell_yes");
    reveal_strlit("limit_sell_no");
    let name = action_name(strategy::ActionView::Place { post_only, side, token, price, size });
    assert(name =~= (if post_only {
        "post_only_"@
    } else {
        "limit_"@
    }) + (if side == OrderSide::Buy {
        "buy_"@
    } else {
        "sell_"@
    }) + (if token == TokenSide::Yes {
        "yes"@
    } else {
        "no"@
    }));
}

/// What is recorded of an action names it and its result, and holds the price and the size of an
/// order, the amount of a split, and the order that was placed or the words that came back.
pub proof fn actions_are_recorded(
    a: strategy::ActionView,
    r: strategy::ResultView,
    latency_ms: u64,
    amount: strategy::NumView,
)
    ensures
        ({
            let j = log_json(a, r, latency_ms, amount);
            &&& json::field(j, "action_type"@) == JsonView::Str(action_name(a))
            &&& json::field(j, "result_type"@) == JsonView::Str(result_name(r))
            &&& json::field(j, "latency_ms"@) == json::num(latency_ms as int)
            &&& match a {
                strategy::ActionView::Place { price, size, .. } => json::field(j, "price"@)
                    == json::double(price.bits, price.json) && json::field(j, "size"@)
                    == json::double(size.bits, size.json),
                strategy::ActionView::SplitUsdc { .. } => json::field(j, "price"@) == json::double(
                    amount.bits,
                    amount.json,
                ) && json::field(j, "size"@) == JsonView::Null,
                _ => json::field(j, "price"@) == JsonView::Null && json::field(j, "size"@)
                    == JsonView::Null,
            }
            &&& match r {
                strategy::ResultView::OrderPlaced { order_id } => json::field(j, "order_id"@)
                    == JsonView::Str(order_id) && json::field(j, "reason"@) == JsonView::Null,
                strategy::ResultView::Rejected { reason } => json::field(j, "reason"@)
                    == JsonView::Str(reason) && json::field(j, "order_id"@) == JsonView::Null,
                strategy::ResultView::Success { detail } => json::field(j, "reason"@)
                    == JsonView::Str(detail) && json::field(j, "order_id"@) == JsonView::Null,
                strategy::ResultView::Error { reason } => json::field(j, "reason"@)
                    == JsonView::Str(reason) && json::field(j, "order_id"@) == JsonView::Null,
                strategy::ResultView::DryRun { description } => json::field(j, "reason"@)
                    == JsonView::Str(description) && json::field(j, "order_id"@) == JsonView::Null,
            }
        }),
{
    reveal_strlit("action_type");
    reveal_strlit("latency_ms");
    reveal_strlit("order_id");
    reveal_strlit("price");
    reveal_strlit("reason");
    reveal_strlit("result_type");
    reveal_strlit("size");
    assert("action_type"@.len() == 11 && "result_type"@.len() == 11 && "action_type"@[0] == 'a'
        && "result_type"@[0] == 'r' && "latency_ms"@.len() == 10 && "order_id"@.len() == 8
        && "price"@.len() == 5 && "reason"@.len() == 6 && "size"@.len() == 4);
    let fields = log_json(a, r, latency_ms, amount)->Object_0;
    json::first_fields_are_found(fields, 0);
    json::first_fields_are_found(fields, 1);
    json::first_fields_are_found(fields, 2);
    json::first_fields_are_found(fields, 3);
    json::first_fields_are_found(fields, 4);
    json::first_fields_are_found(fields, 5);
    json::first_fields_are_found(fields, 6);
}

/// Results are named by what they are.
pub proof fn results_are_named(r: strategy::ResultView)
    ensures
        result_name(r) == (if r is OrderPlaced {
            "placed"@
        } else if r is Rejected {
            "rejected"@
        } else if r is Success {
            "success"@
        } else if r is Error {
            "error"@
        } else {
            "dry_run"@
        }),
{
}

/// An executor goes on as its market does: it connects once the market is found, trades once it is
/// connected, closes when the collection ends or trading is switched off, and is over when it has
/// closed. It begins no trade without a market and a connection, and says when it starts and why it
/// stops.
pub proof fn executors_go_on(dry_run: bool)
    ensures
        stage_after(Stage::Waiting, Incident::MarketFound) == Stage::Connecting,
        stage_after(Stage::Connecting, Incident::Connected) == Stage::Trading,
        stage_after(Stage::Trading, Incident::Cancelled) == Stage::Closing,
        stage_after(Stage::Trading, Incident::SwitchedOff) == Stage::Closing,
        stage_after(Stage::Closing, Incident::Closed) == Stage::Over,
        stage_after(Stage::Waiting, Incident::Cancelled) == Stage::Over,
        stage_after(Stage::Waiting, Incident::MarketTimedOut) == Stage::Over,
        stage_after(Stage::Connecting, Incident::Refused) == Stage::Over,
        forall|s: Stage, i: Incident|
            #[trigger] stage_after(s, i) == Stage::Trading ==> s == Stage::Trading || (s
                == Stage::Connecting && i == Incident::Connected),
        forall|s: Stage, i: Incident|
            (#[trigger] reaction_to(s, i, dry_run)).active <==> s == Stage::Connecting && i
                == Incident::Connected,
        forall|s: Stage, i: Incident|
            (#[trigger] reaction_to(s, i, dry_run)).stopped == Some(StopReason::ToggleDisabled)
                <==> s == Stage::Trading && i == Incident::SwitchedOff,
        forall|s: Stage, i: Incident|
            (#[trigger] reaction_to(s, i, dry_run)).stopped == Some(StopReason::MarketInfoTimeout)
                <==> s == Stage::Waiting && i == Incident::MarketTimedOut,
{
}

/// An order that may only rest is followed once it was placed, with its token, its side, its price
/// and its size, in place of the one of its side that was followed before; the other side stays. No
/// other action or result changes what is followed.
pub proof fn resting_orders_are_followed(
    v: RunView,
    a: strategy::ActionView,
    r: strategy::ResultView,
    order_id: Text,
)
    ensures
        ({
            let w = track_step(v, a, r);
            &&& w.tick_count == v.tick_count
            &&& r == (strategy::ResultView::OrderPlaced { order_id }) ==> match a {
                strategy::ActionView::Place { post_only, side, token, price, size } => {
                    let o = TrackedView {
                        order_id,
                        token_side: token,
                        order_side: side,
                        price,
                        size,
                    };
                    &&& post_only && side == OrderSide::Buy ==> w.buy == Some(o) && w.sell == v.sell
                    &&& post_only && side == OrderSide::Sell ==> w.sell == Some(o) && w.buy == v.buy
                    &&& !post_only ==> w == v
                },
                _ => w == v,
            }
            &&& !(r is OrderPlaced) ==> w == v
        }),
{
}

/// The exchange is asked for every order that is followed, unless orders are only rehearsed; one
/// that was itself rehearsed counts as filled.
pub proof fn followed_orders_are_asked_for(o: TrackedView, dry_run: bool)
    ensures
        check_of(None, dry_run) == CheckView::Nothing,
        o.order_id == "dry-run"@ ==> check_of(Some(o), dry_run) == CheckView::Rehearsed(o),
        o.order_id != "dry-run"@ && !dry_run ==> check_of(Some(o), dry_run) == CheckView::Ask(
            o.order_id,
        ),
        o.order_id != "dry-run"@ && dry_run ==> check_of(Some(o), dry_run) == CheckView::Nothing,
{
}

/// A matched order is filled at the price and in the size that the exchange tells, for its own
/// token and side, and is no longer followed; neither is one that was cancelled. Any other is
/// followed on, without a fill.
pub proof fn reports_decide_on_orders(
    out: ReportOutcome,
    o: TrackedView,
    r: OrderReport,
    latency_ms: u64,
)
    requires
        is_outcome(out, o, r, latency_ms),
    ensures
        out.fill is Some <==> r.state == OrderState::Matched,
        out.event is Some <==> r.state == OrderState::Matched,
        out.keep <==> r.state != OrderState::Matched && r.state != OrderState::Canceled,
        out.fill matches Some(f) ==> f@.order_id == o.order_id && f@.token_side == o.token_side
            && f@.order_side == o.order_side && f@.price == r.price@ && f@.size == r.size@,
{
}

/// A fill is recorded with its order, its price, its size, its side and its token.
pub proof fn fills_are_recorded(f: TrackedView, latency_ms: u64)
    ensures
        ({
            let e = fill_event(f, latency_ms);
            let j = e.raw->Value_0;
            &&& e.event_type == "order_fill"@
            &&& json::field(j, "fill_price"@) == json::double(f.price.bits, f.price.json)
            &&& json::field(j, "fill_size"@) == json::double(f.size.bits, f.size.json)
            &&& json::field(j, "order_id"@) == JsonView::Str(f.order_id)
            &&& json::field(j, "order_side"@) == JsonView::Str(
                if f.order_side == OrderSide::Buy {
                    "Buy"@
                } else {
                    "Sell"@
                },
            )
            &&& json::field(j, "token_side"@) == JsonView::Str(
                if f.token_side == TokenSide::Yes {
                    "Yes"@
                } else {
                    "No"@
                },
            )
        }),
{
    reveal_strlit("fill_price");
    reveal_strlit("fill_size");
    reveal_strlit("order_id");
    reveal_strlit("order_side");
    reveal_strlit("poll_latency_ms");
    reveal_strlit("token_side");
    assert("fill_price"@[0] == 'f' && "order_side"@[0] == 'o' && "token_side"@[0] == 't'
        && "fill_size"@.len() == 9 && "order_id"@.len() == 8 && "poll_latency_ms"@.len() == 15
        && "fill_price"@.len() == 10 && "order_side"@.len() == 10 && "token_side"@.len() == 10);
    let fields = fill_event(f, latency_ms).raw->Value_0->Object_0;
    json::first_fields_are_found(fields, 0);
    json::first_fields_are_found(fields, 1);
    json::first_fields_are_found(fields, 2);
    json::first_fields_are_found(fields, 3);
    json::first_fields_are_found(fields, 5);
}

/// The exposure after an order has to be counted only where the market has its token; no other
/// action needs it.
pub proof fn exposures_are_counted_for_orders(
    a: strategy::ActionView,
    info: MarketInfo,
    st: ExecutorState,
    c: AppConfig,
)
    ensures
        match a {
            strategy::ActionView::Place { token, price, size, .. } => {
                let there = if token == TokenSide::Yes {
                    info.clob_token_ids@.len() >= 1
                } else {
                    info.clob_token_ids@.len() >= 2
                };
                action_is_countable(a, info, st, c) <==> !there || risk::exposure_is_countable(
                    OrderParams { price: price.dec, size: size.dec },
                    st,
                    c,
                )
            },
            _ => action_is_countable(a, info, st, c),
        },
{
}

} // verus!
