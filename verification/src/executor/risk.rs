//! The limits that every order has to keep.

use vstd::prelude::*;
use vstd::string::*;

use crate::config::MARKET_DURATION;
use crate::decimal;
use crate::decimal::{add_dec, less_dec, Dec};
use crate::executor::config::AppConfig;
use crate::executor::state;
use crate::executor::state::{ExecutorState, Position};
use crate::text;
use crate::text::{join2, push_i64, Text};

verus! {

/// Why an order is not placed.
pub enum RiskError {
    DryRunActive,
    MaxOrderSizeExceeded { size: Dec, max: Dec },
    MaxPositionSizeExceeded { total: Dec, max: Dec },
    PriceOutOfBounds { price: Dec, min: Dec, max: Dec },
    StaleOrderbook { elapsed_secs: String },
    TooCloseToExpiry { remaining_secs: i64 },
    NoActiveMarket,
}

/// Prices older than this many milliseconds are stale.
pub const STALE_MS: u64 = 10_000;

/// Seconds before the end of a market from which on no order is placed.
pub const MIN_SECONDS_BEFORE_CLOSE: i64 = 30;

/// Price and size of an order.
pub struct OrderParams {
    pub price: Dec,
    pub size: Dec,
}

/// The message of a refusal.
pub open spec fn risk_message(e: RiskError) -> Text {
    match e {
        RiskError::DryRunActive => "dry run active \u{2014} order not submitted"@,
        RiskError::MaxOrderSizeExceeded { size, max } => "max order size exceeded: "@
            + decimal::dec_text(size) + " > "@ + decimal::dec_text(max),
        RiskError::MaxPositionSizeExceeded { total, max } => "max position size exceeded: "@
            + decimal::dec_text(total) + " > "@ + decimal::dec_text(max),
        RiskError::PriceOutOfBounds { price, min, max } => "price out of bounds: "@
            + decimal::dec_text(price) + " not in ["@ + decimal::dec_text(min) + ", "@
            + decimal::dec_text(max) + "]"@,
        RiskError::StaleOrderbook { elapsed_secs } => "orderbook stale ("@ + elapsed_secs@
            + "s since last update)"@,
        RiskError::TooCloseToExpiry { remaining_secs } => "too close to market expiry ("@
            + text::int_text(remaining_secs as int) + "s remaining)"@,
        RiskError::NoActiveMarket => "no active market"@,
    }
}

impl RiskError {
    /// The numbers in the message can be written.
    pub open spec fn wf(self) -> bool {
        match self {
            RiskError::MaxOrderSizeExceeded { size, max } => size.wf() && max.wf(),
            RiskError::MaxPositionSizeExceeded { total, max } => total.wf() && max.wf(),
            RiskError::PriceOutOfBounds { price, min, max } => price.wf() && min.wf() && max.wf(),
            _ => true,
        }
    }

    /// The message of this refusal.
    pub fn message(&self) -> (m: String)
        requires
            self.wf(),
        ensures
            m@ == risk_message(*self),
    {
        match self {
            RiskError::DryRunActive => "dry run active \u{2014} order not submitted".to_owned(),
            RiskError::MaxOrderSizeExceeded { size, max } => {
                let mut m: String = join2("max order size exceeded: ", size.to_text().as_str());
                m.append(" > ");
                m.append(max.to_text().as_str());
                m
            },
            RiskError::MaxPositionSizeExceeded { total, max } => {
                let mut m: String = join2("max position size exceeded: ", total.to_text().as_str());
                m.append(" > ");
                m.append(max.to_text().as_str());
                m
            },
            RiskError::PriceOutOfBounds { price, min, max } => {
                let mut m: String = join2("price out of bounds: ", price.to_text().as_str());
                m.append(" not in [");
                m.append(min.to_text().as_str());
                m.append(", ");
                m.append(max.to_text().as_str());
                m.append("]");
                m
            },
            RiskError::StaleOrderbook { elapsed_secs } => {
                let mut m: String = join2("orderbook stale (", elapsed_secs.as_str());
                m.append("s since last update)");
                m
            },
            RiskError::TooCloseToExpiry { remaining_secs } => {
                let mut m: String = "too close to market expiry (".to_owned();
                push_i64(&mut m, *remaining_secs);
                m.append("s remaining)");
                m
            },
            RiskError::NoActiveMarket => "no active market".to_owned(),
        }
    }
}

/// What is known of the moment at which an order is checked: the time in seconds, how old the
/// prices are in milliseconds, and the same in the words of a message.
pub struct Moment {
    pub now: i64,
    pub bba_age_ms: Option<u64>,
    pub bba_age_text: String,
}

/// The exposure after an order; none where it is too large to count.
pub open spec fn exposure_after(p: Position, size: Dec) -> Option<Dec> {
    match state::exposure_of(p) {
        Some(held) => decimal::opt_dec(decimal::decimal_sum(held.parts(), size.parts())),
        None => None,
    }
}

fn add_exposure(p: &Position, size: Dec) -> (total: Option<Dec>)
    requires
        p.wf(),
        size.wf(),
    ensures
        total == exposure_after(*p, size),
        total matches Some(d) ==> d.wf(),
{
    match p.total_exposure() {
        Some(held) => {
            let sum: Option<Dec> = add_dec(held, size);
            assert(sum == decimal::opt_dec(decimal::opt_parts(sum)));
            sum
        },
        None => None,
    }
}

/// Seconds until the end of a market.
pub open spec fn seconds_left(market_start: int, now: int) -> int {
    market_start + MARKET_DURATION - now
}

/// Why an order is refused, if it is. The first reason counts.
pub open spec fn refusal(params: OrderParams, st: ExecutorState, c: AppConfig, m: Moment) -> Option<
    RiskError,
> {
    if c.dry_run {
        Some(RiskError::DryRunActive)
    } else if st.market_info is None {
        Some(RiskError::NoActiveMarket)
    } else if c.max_order_size.less(params.size) {
        Some(RiskError::MaxOrderSizeExceeded { size: params.size, max: c.max_order_size })
    } else if c.max_position_size.less(exposure_after(st.position, params.size)->0) {
        Some(
            RiskError::MaxPositionSizeExceeded {
                total: exposure_after(st.position, params.size)->0,
                max: c.max_position_size,
            },
        )
    } else if params.price.less(c.order_price_min) || c.order_price_max.less(params.price) {
        Some(
            RiskError::PriceOutOfBounds {
                price: params.price,
                min: c.order_price_min,
                max: c.order_price_max,
            },
        )
    } else if m.bba_age_ms matches Some(age) && age > STALE_MS {
        Some(RiskError::StaleOrderbook { elapsed_secs: m.bba_age_text })
    } else if seconds_left(st.market_info->0.market_start as int, m.now as int)
        < MIN_SECONDS_BEFORE_CLOSE {
        Some(
            RiskError::TooCloseToExpiry {
                remaining_secs: seconds_left(
                    st.market_info->0.market_start as int,
                    m.now as int,
                ) as i64,
            },
        )
    } else {
        None
    }
}

/// The exposure after an order can be counted wherever it is looked at.
pub open spec fn exposure_is_countable(params: OrderParams, st: ExecutorState, c: AppConfig) -> bool {
    !c.dry_run && st.market_info is Some && !c.max_order_size.less(params.size) ==> exposure_after(
        st.position,
        params.size,
    ) is Some
}

/// Checks an order against the limits. Where a market is active, its end has to lie within
/// reach of the clock.
pub fn validate_order(params: &OrderParams, st: &ExecutorState, c: &AppConfig, m: &Moment) -> (r:
    Result<(), RiskError>)
    requires
        params.price.wf(),
        params.size.wf(),
        st.position.wf(),
        c.wf(),
        st.market_info matches Some(i) ==> i64::MIN <= seconds_left(
            i.market_start as int,
            m.now as int,
        ) <= i64::MAX,
        exposure_is_countable(*params, *st, *c),
    ensures
        match refusal(*params, *st, *c, *m) {
            Some(e) => r == Err::<(), RiskError>(e) && e.wf(),
            None => r == Ok::<(), RiskError>(()),
        },
{
    if c.dry_run {
        return Err(RiskError::DryRunActive);
    }
    let start: i64 = match &st.market_info {
        Some(i) => i.market_start,
        None => {
            return Err(RiskError::NoActiveMarket);
        },
    };
    if less_dec(c.max_order_size, params.size) {
        return Err(
            RiskError::MaxOrderSizeExceeded { size: params.size, max: c.max_order_size },
        );
    }
    let total: Dec = match add_exposure(&st.position, params.size) {
        Some(total) => total,
        None => {
            return Err(RiskError::NoActiveMarket);
        },
    };
    if less_dec(c.max_position_size, total) {
        return Err(RiskError::MaxPositionSizeExceeded { total, max: c.max_position_size });
    }
    if less_dec(params.price, c.order_price_min) || less_dec(c.order_price_max, params.price) {
        return Err(
            RiskError::PriceOutOfBounds {
                price: params.price,
                min: c.order_price_min,
                max: c.order_price_max,
            },
        );
    }
    match m.bba_age_ms {
        Some(age) => {
            if age > STALE_MS {
                return Err(RiskError::StaleOrderbook { elapsed_secs: m.bba_age_text.clone() });
            }
        },
        None => {},
    }
    let left: i128 = start as i128 + MARKET_DURATION as i128 - m.now as i128;
    if left < MIN_SECONDS_BEFORE_CLOSE as i128 {
        return Err(RiskError::TooCloseToExpiry { remaining_secs: left as i64 });
    }
    Ok(())
}

/// Checks an order against the limits; none where the exposure after it is too large to count.
pub fn check_order(params: &OrderParams, st: &ExecutorState, c: &AppConfig, m: &Moment) -> (r: Option<
    Result<(), RiskError>,
>)
    requires
        params.price.wf(),
        params.size.wf(),
        st.position.wf(),
        c.wf(),
        st.market_info matches Some(i) ==> i64::MIN <= seconds_left(
            i.market_start as int,
            m.now as int,
        ) <= i64::MAX,
    ensures
        r is Some <==> exposure_is_countable(*params, *st, *c),
        r matches Some(r) ==> match refusal(*params, *st, *c, *m) {
            Some(e) => r == Err::<(), RiskError>(e) && e.wf(),
            None => r == Ok::<(), RiskError>(()),
        },
{
    if !c.dry_run && st.market_info.is_some() && !less_dec(c.max_order_size, params.size)
        && add_exposure(&st.position, params.size).is_none() {
        None
    } else {
        Some(validate_order(params, st, c, m))
    }
}

/// An order that is not refused keeps every limit, and none passes while orders are only
/// rehearsed.
pub proof fn accepted_orders_keep_the_limits(
    params: OrderParams,
    st: ExecutorState,
    c: AppConfig,
    m: Moment,
)
    requires
        refusal(params, st, c, m) is None,
        exposure_is_countable(params, st, c),
    ensures
        !c.dry_run,
        st.market_info is Some,
        !c.max_order_size.less(params.size),
        exposure_after(st.position, params.size) matches Some(total) && !c.max_position_size.less(
            total,
        ),
        !params.price.less(c.order_price_min),
        !c.order_price_max.less(params.price),
        m.bba_age_ms matches Some(age) ==> age <= STALE_MS,
        seconds_left(st.market_info->0.market_start as int, m.now as int)
            >= MIN_SECONDS_BEFORE_CLOSE,
{
}

/// An order passes exactly where it keeps every limit: orders are not only rehearsed, there is a
/// market, neither its size nor the exposure with it is too large, its price lies within the
/// bounds, the prices are not older than ten seconds, and the market has thirty seconds left of
/// its five minutes.
pub proof fn orders_pass_within_the_limits(
    params: OrderParams,
    st: ExecutorState,
    c: AppConfig,
    m: Moment,
)
    requires
        exposure_is_countable(params, st, c),
    ensures
        refusal(params, st, c, m) is None <==> {
            &&& !c.dry_run
            &&& st.market_info is Some
            &&& !c.max_order_size.less(params.size)
            &&& exposure_after(st.position, params.size) is Some && !c.max_position_size.less(
                exposure_after(st.position, params.size)->0,
            )
            &&& !params.price.less(c.order_price_min) && !c.order_price_max.less(params.price)
            &&& m.bba_age_ms is None || m.bba_age_ms->0 <= 10_000
            &&& st.market_info->0.market_start + 300 - m.now >= 30
        },
{
}

/// The reason of a refusal is the first limit that is not kept, with the numbers that it speaks of.
pub proof fn refusals_name_the_limit(params: OrderParams, st: ExecutorState, c: AppConfig, m: Moment)
    ensures
        match refusal(params, st, c, m) {
            None => true,
            Some(RiskError::DryRunActive) => c.dry_run,
            Some(RiskError::NoActiveMarket) => !c.dry_run && st.market_info is None,
            Some(RiskError::MaxOrderSizeExceeded { size, max }) => size == params.size && max
                == c.max_order_size && max.less(size),
            Some(RiskError::MaxPositionSizeExceeded { total, max }) => total == exposure_after(
                st.position,
                params.size,
            )->0 && max == c.max_position_size && max.less(total),
            Some(RiskError::PriceOutOfBounds { price, min, max }) => price == params.price && min
                == c.order_price_min && max == c.order_price_max && (price.less(min) || max.less(
                price,
            )),
            Some(RiskError::StaleOrderbook { elapsed_secs }) => elapsed_secs == m.bba_age_text
                && m.bba_age_ms is Some && m.bba_age_ms->0 > 10_000,
            Some(RiskError::TooCloseToExpiry { remaining_secs }) => st.market_info is Some
                && st.market_info->0.market_start + 300 - m.now < 30 && (i64::MIN
                <= st.market_info->0.market_start + 300 - m.now ==> remaining_secs
                == st.market_info->0.market_start + 300 - m.now),
        },
        c.dry_run ==> refusal(params, st, c, m) == Some(RiskError::DryRunActive),
        !c.dry_run && st.market_info is None ==> refusal(params, st, c, m) == Some(
            RiskError::NoActiveMarket,
        ),
{
}

/// The exposure after an order is that of both tokens and the size of the order.
pub proof fn orders_add_to_the_exposure(p: Position, size: Dec)
    ensures
        match decimal::decimal_sum(p.yes_shares.parts(), p.no_shares.parts()) {
            Some(held) => decimal::opt_parts(exposure_after(p, size)) == decimal::decimal_sum(
                held,
                size.parts(),
            ),
            None => exposure_after(p, size) is None,
        },
{
}

/// The exposure after an order has to be counted only where a real order within the size goes to a
/// market.
pub proof fn exposures_are_counted_where_needed(params: OrderParams, st: ExecutorState, c: AppConfig)
    ensures
        exposure_is_countable(params, st, c) <==> c.dry_run || st.market_info is None
            || c.max_order_size.less(params.size) || exposure_after(st.position, params.size) is Some,
{
}

} // verus!
