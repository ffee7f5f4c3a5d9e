//! Orders that are checked against the limits before they are placed.

use vstd::prelude::*;
use vstd::string::*;

use crate::decimal::Dec;
use crate::executor::clob::{LimitOrderParams, MarketOrderParams, OrderResponse};
use crate::executor::config::AppConfig;
use crate::executor::risk;
use crate::executor::risk::{check_order, Moment, OrderParams, RiskError};
use crate::executor::state::ExecutorState;
use crate::executor::strategy::{OrderSide, TokenSide};
use crate::text::Text;

verus! {

/// What is done about an order: it is only rehearsed, refused, impossible, or placed.
pub enum OrderPlan<T> {
    Simulated(OrderResponse),
    Refused(RiskError),
    Impossible(String),
    Place(T),
}

/// The answer to an order that is only rehearsed.
pub open spec fn is_simulated(r: OrderResponse) -> bool {
    r.order_id@ == "dry-run"@ && r.status@ == "simulated"@
}

fn simulated() -> (r: OrderResponse)
    ensures
        is_simulated(r),
{
    OrderResponse { order_id: "dry-run".to_owned(), status: "simulated".to_owned() }
}

/// A plan follows the verdict on an order: rehearsed, refused for a reason, or placed.
pub open spec fn follows<T>(plan: OrderPlan<T>, verdict: Option<RiskError>) -> bool {
    match plan {
        OrderPlan::Simulated(r) => verdict == Some(RiskError::DryRunActive) && is_simulated(r),
        OrderPlan::Refused(e) => verdict == Some(e) && !(e is DryRunActive),
        OrderPlan::Impossible(_) => false,
        OrderPlan::Place(_) => verdict is None,
    }
}

/// Checks an order at a price. None where the exposure after it is too large to count.
pub fn place_limit(
    params: LimitOrderParams,
    st: &ExecutorState,
    c: &AppConfig,
    m: &Moment,
) -> (plan: Option<OrderPlan<LimitOrderParams>>)
    requires
        params.price.wf(),
        params.size.wf(),
        st.position.wf(),
        c.wf(),
        st.market_info matches Some(i) ==> i64::MIN <= risk::seconds_left(
            i.market_start as int,
            m.now as int,
        ) <= i64::MAX,
    ensures
        plan is Some <==> risk::exposure_is_countable(
            OrderParams { price: params.price, size: params.size },
            *st,
            *c,
        ),
        plan matches Some(plan) ==> follows(
            plan,
            risk::refusal(OrderParams { price: params.price, size: params.size }, *st, *c, *m),
        ) && (plan matches OrderPlan::Place(p) ==> p == params),
{
    let wanted: OrderParams = OrderParams { price: params.price, size: params.size };
    match check_order(&wanted, st, c, m) {
        Some(Ok(_)) => Some(OrderPlan::Place(params)),
        Some(Err(RiskError::DryRunActive)) => Some(OrderPlan::Simulated(simulated())),
        Some(Err(e)) => Some(OrderPlan::Refused(e)),
        None => None,
    }
}

/// The price that stands for an order at the market: the middle of the best prices, or one
/// half where that is not known.
pub open spec fn market_price(midpoint: Option<Dec>) -> Dec {
    match midpoint {
        Some(d) => d,
        None => Dec { mantissa: 50, scale: 2 },
    }
}

/// What stands in the way of an order for a token: no market, or no such token in it.
pub open spec fn market_fault(token: TokenSide, st: ExecutorState) -> Option<Text> {
    match st.market_info {
        None => Some("no active market"@),
        Some(i) => match token {
            TokenSide::Yes => if i.clob_token_ids@.len() > 0 {
                None
            } else {
                Some("no YES token ID"@)
            },
            TokenSide::No => if i.clob_token_ids@.len() > 1 {
                None
            } else {
                Some("no NO token ID"@)
            },
        },
    }
}

/// The place of a token among those of a market.
pub open spec fn token_place(token: TokenSide) -> int {
    match token {
        TokenSide::Yes => 0,
        TokenSide::No => 1,
    }
}

/// A plan for a purchase of a token at the market is the right one.
pub open spec fn is_buy_plan(
    plan: Option<OrderPlan<MarketOrderParams>>,
    token: TokenSide,
    midpoint: Option<Dec>,
    size: Dec,
    st: ExecutorState,
    c: AppConfig,
    m: Moment,
) -> bool {
    let wanted = OrderParams { price: market_price(midpoint), size };
    match market_fault(token, st) {
        Some(fault) => plan matches Some(OrderPlan::Impossible(s)) && s@ == fault,
        None => {
            &&& plan is Some <==> risk::exposure_is_countable(wanted, st, c)
            &&& plan matches Some(plan) ==> follows(plan, risk::refusal(wanted, st, c, m)) && (
            plan matches OrderPlan::Place(p) ==> p.side == OrderSide::Buy && p.size == size
                && p.token_id@ == st.market_info->0.clob_token_ids@[token_place(token)]@)
        },
    }
}

fn buy_market(
    token: TokenSide,
    midpoint: Option<Dec>,
    size: Dec,
    st: &ExecutorState,
    c: &AppConfig,
    m: &Moment,
) -> (plan: Option<OrderPlan<MarketOrderParams>>)
    requires
        midpoint matches Some(d) ==> d.wf(),
        size.wf(),
        st.position.wf(),
        c.wf(),
        st.market_info matches Some(i) ==> i64::MIN <= risk::seconds_left(
            i.market_start as int,
            m.now as int,
        ) <= i64::MAX,
    ensures
        is_buy_plan(plan, token, midpoint, size, *st, *c, *m),
{
    let token_id: String = match &st.market_info {
        None => {
            return Some(OrderPlan::Impossible("no active market".to_owned()));
        },
        Some(i) => match token {
            TokenSide::Yes => {
                if i.clob_token_ids.len() == 0 {
                    return Some(OrderPlan::Impossible("no YES token ID".to_owned()));
                }
                i.clob_token_ids[0].clone()
            },
            TokenSide::No => {
                if i.clob_token_ids.len() <= 1 {
                    return Some(OrderPlan::Impossible("no NO token ID".to_owned()));
                }
                i.clob_token_ids[1].clone()
            },
        },
    };
    let price: Dec = match midpoint {
        Some(d) => d,
        None => Dec { mantissa: 50, scale: 2 },
    };
    let wanted: OrderParams = OrderParams { price, size };
    match check_order(&wanted, st, c, m) {
        Some(Ok(_)) => Some(
            OrderPlan::Place(MarketOrderParams { token_id, side: OrderSide::Buy, size }),
        ),
        Some(Err(RiskError::DryRunActive)) => Some(OrderPlan::Simulated(simulated())),
        Some(Err(e)) => Some(OrderPlan::Refused(e)),
        None => None,
    }
}

/// Checks a purchase of the first token at the market, whose price is stood for by `midpoint`.
/// None where the exposure after it is too large to count.
pub fn buy_yes_market(
    midpoint: Option<Dec>,
    size: Dec,
    st: &ExecutorState,
    c: &AppConfig,
    m: &Moment,
) -> (plan: Option<OrderPlan<MarketOrderParams>>)
    requires
        midpoint matches Some(d) ==> d.wf(),
        size.wf(),
        st.position.wf(),
        c.wf(),
        st.market_info matches Some(i) ==> i64::MIN <= risk::seconds_left(
            i.market_start as int,
            m.now as int,
        ) <= i64::MAX,
    ensures
        is_buy_plan(plan, TokenSide::Yes, midpoint, size, *st, *c, *m),
{
    buy_market(TokenSide::Yes, midpoint, size, st, c, m)
}

/// Checks a purchase of the second token at the market, whose price is stood for by `midpoint`.
/// None where the exposure after it is too large to count.
pub fn buy_no_market(
    midpoint: Option<Dec>,
    size: Dec,
    st: &ExecutorState,
    c: &AppConfig,
    m: &Moment,
) -> (plan: Option<OrderPlan<MarketOrderParams>>)
    requires
        midpoint matches Some(d) ==> d.wf(),
        size.wf(),
        st.position.wf(),
        c.wf(),
        st.market_info matches Some(i) ==> i64::MIN <= risk::seconds_left(
            i.market_start as int,
            m.now as int,
        ) <= i64::MAX,
    ensures
        is_buy_plan(plan, TokenSide::No, midpoint, size, *st, *c, *m),
{
    buy_market(TokenSide::No, midpoint, size, st, c, m)
}

// Laws

/// A purchase at the market is of the token that was asked for: the first of the market for the one
/// side, the second for the other, in the size that was asked for. It is checked at the middle of
/// the best prices, or at one half, and placed exactly where no limit stands against it.
pub proof fn purchases_are_of_their_token(
    plan: Option<OrderPlan<MarketOrderParams>>,
    token: TokenSide,
    midpoint: Option<Dec>,
    size: Dec,
    st: ExecutorState,
    c: AppConfig,
    m: Moment,
)
    requires
        is_buy_plan(plan, token, midpoint, size, st, c, m),
        st.market_info is Some,
        st.market_info->0.clob_token_ids@.len() >= 2,
        plan is Some,
    ensures
        ({
            let ids = st.market_info->0.clob_token_ids@;
            let price = if midpoint is Some {
                midpoint->0
            } else {
                Dec { mantissa: 50, scale: 2 }
            };
            let verdict = risk::refusal(OrderParams { price, size }, st, c, m);
            &&& plan->0 is Place <==> verdict is None
            &&& plan->0 is Simulated <==> c.dry_run
            &&& plan->0 matches OrderPlan::Place(p) ==> p.side == OrderSide::Buy && p.size == size
                && (token == TokenSide::Yes ==> p.token_id@ == ids[0]@) && (token == TokenSide::No
                ==> p.token_id@ == ids[1]@)
            &&& plan->0 matches OrderPlan::Refused(e) ==> verdict == Some(e)
        }),
{
}

/// Without a market, or without the token in it, nothing is bought.
pub proof fn nothing_is_bought_without_a_token(token: TokenSide, st: ExecutorState)
    ensures
        st.market_info is None ==> market_fault(token, st) == Some("no active market"@),
        st.market_info matches Some(i) ==> (market_fault(TokenSide::Yes, st) is Some
            <==> i.clob_token_ids@.len() == 0) && (market_fault(TokenSide::No, st) is Some
            <==> i.clob_token_ids@.len() < 2),
{
}

/// An order that is only rehearsed is answered so that it can be told.
pub proof fn rehearsed_orders_can_be_told(r: OrderResponse, verdict: Option<RiskError>)
    requires
        follows(OrderPlan::<LimitOrderParams>::Simulated(r), verdict),
    ensures
        r.order_id@ == "dry-run"@,
        r.status@ == "simulated"@,
        verdict is Some && verdict->0 is DryRunActive,
{
}

} // verus!
