//! What the executor knows: the market, its orders and its position.

use vstd::prelude::*;
use vstd::string::*;

use crate::decimal;
use crate::decimal::{add_dec, less_dec, sub_dec, Dec};
use crate::executor::strategy::{OrderSide, TokenSide};
use crate::poly_gamma::MarketInfo;

verus! {

/// The shares and the money that are held.
#[derive(Clone, Copy, Debug, PartialEq, Eq, Structural)]
pub struct Position {
    pub yes_shares: Dec,
    pub no_shares: Dec,
    pub usdc_balance: Dec,
}

/// Zero.
pub open spec fn zero_dec() -> Dec {
    Dec { mantissa: 0, scale: 0 }
}

impl Position {
    /// The numbers of the position can be computed with.
    pub open spec fn wf(self) -> bool {
        self.yes_shares.wf() && self.no_shares.wf() && self.usdc_balance.wf()
    }

    /// An empty position.
    pub fn new() -> (p: Position)
        ensures
            p == (Position {
                yes_shares: zero_dec(),
                no_shares: zero_dec(),
                usdc_balance: zero_dec(),
            }),
            p.wf(),
    {
        let zero: Dec = Dec { mantissa: 0, scale: 0 };
        Position { yes_shares: zero, no_shares: zero, usdc_balance: zero }
    }

    /// The shares of both tokens together; none where the sum is too large.
    pub fn total_exposure(&self) -> (d: Option<Dec>)
        requires
            self.wf(),
        ensures
            d == exposure_of(*self),
            d matches Some(d) ==> d.wf(),
    {
        let d: Option<Dec> = add_dec(self.yes_shares, self.no_shares);
        assert(d == decimal::opt_dec(decimal::opt_parts(d)));
        d
    }
}

/// The shares of both tokens together; none where the sum is too large.
pub open spec fn exposure_of(p: Position) -> Option<Dec> {
    decimal::opt_dec(decimal::decimal_sum(p.yes_shares.parts(), p.no_shares.parts()))
}

/// An order that is open.
pub struct OrderInfo {
    pub order_id: String,
    pub token_id: String,
    pub side: String,
    pub price: Dec,
    pub size: Dec,
    pub placed_at_ms: u64,
}

/// What the executor knows.
pub struct ExecutorState {
    pub market_info: Option<MarketInfo>,
    pub open_orders: Vec<OrderInfo>,
    pub position: Position,
    pub last_bba_update_ms: Option<u64>,
}

/// Shares after a fill: more where it bought, less where it sold, and never below zero. None
/// where the number is too large.
pub open spec fn shares_after(shares: Dec, side: OrderSide, size: Dec) -> Option<Dec> {
    match side {
        OrderSide::Buy => decimal::opt_dec(decimal::decimal_sum(shares.parts(), size.parts())),
        OrderSide::Sell => match decimal::opt_dec(
            decimal::decimal_difference(shares.parts(), size.parts()),
        ) {
            Some(d) => if d.less(zero_dec()) { Some(zero_dec()) } else { Some(d) },
            None => None,
        },
    }
}

/// A position after a fill.
pub open spec fn position_after(p: Position, token: TokenSide, side: OrderSide, size: Dec) -> Option<
    Position,
> {
    match token {
        TokenSide::Yes => match shares_after(p.yes_shares, side, size) {
            Some(d) => Some(Position { yes_shares: d, ..p }),
            None => None,
        },
        TokenSide::No => match shares_after(p.no_shares, side, size) {
            Some(d) => Some(Position { no_shares: d, ..p }),
            None => None,
        },
    }
}

fn fill_shares(shares: Dec, side: OrderSide, size: Dec) -> (d: Option<Dec>)
    requires
        shares.wf(),
        size.wf(),
    ensures
        d == shares_after(shares, side, size),
        d matches Some(d) ==> d.wf(),
{
    match side {
        OrderSide::Buy => {
            let d: Option<Dec> = add_dec(shares, size);
            assert(d == decimal::opt_dec(decimal::opt_parts(d)));
            d
        },
        OrderSide::Sell => {
            let d: Option<Dec> = sub_dec(shares, size);
            assert(d == decimal::opt_dec(decimal::opt_parts(d)));
            match d {
                Some(d) => {
                    let zero: Dec = Dec { mantissa: 0, scale: 0 };
                    if less_dec(d, zero) { Some(zero) } else { Some(d) }
                },
                None => None,
            }
        },
    }
}

/// Books a fill. Where the shares would be too many to count, nothing changes and the result
/// is false.
pub fn update_position(
    position: &mut Position,
    token: TokenSide,
    side: OrderSide,
    size: Dec,
) -> (done: bool)
    requires
        old(position).wf(),
        size.wf(),
    ensures
        final(position).wf(),
        done == position_after(*old(position), token, side, size) is Some,
        done ==> Some(*final(position)) == position_after(*old(position), token, side, size),
        !done ==> *final(position) == *old(position),
{
    match token {
        TokenSide::Yes => match fill_shares(position.yes_shares, side, size) {
            Some(d) => {
                position.yes_shares = d;
                true
            },
            None => false,
        },
        TokenSide::No => match fill_shares(position.no_shares, side, size) {
            Some(d) => {
                position.no_shares = d;
                true
            },
            None => false,
        },
    }
}

/// A sale never leaves fewer than no shares.
pub proof fn sales_stop_at_zero(shares: Dec, size: Dec)
    ensures
        shares_after(shares, OrderSide::Sell, size) matches Some(d) ==> !d.less(zero_dec()),
{
}

/// A fill of one token leaves the shares of the other and the money as they were.
pub proof fn fills_touch_one_token(p: Position, side: OrderSide, size: Dec)
    ensures
        position_after(p, TokenSide::Yes, side, size) matches Some(q) ==> q.no_shares
            == p.no_shares && q.usdc_balance == p.usdc_balance,
        position_after(p, TokenSide::No, side, size) matches Some(q) ==> q.yes_shares
            == p.yes_shares && q.usdc_balance == p.usdc_balance,
{
}

/// A purchase adds its size to the shares of its token, and a sale takes it away, down to none.
pub proof fn fills_change_their_token(p: Position, size: Dec)
    ensures
        ({
            let plus = decimal::decimal_sum(p.yes_shares.parts(), size.parts());
            match position_after(p, TokenSide::Yes, OrderSide::Buy, size) {
                Some(q) => Some(q.yes_shares.parts()) == plus,
                None => plus is None,
            }
        }),
        ({
            let plus = decimal::decimal_sum(p.no_shares.parts(), size.parts());
            match position_after(p, TokenSide::No, OrderSide::Buy, size) {
                Some(q) => Some(q.no_shares.parts()) == plus,
                None => plus is None,
            }
        }),
        ({
            let rest = decimal::decimal_difference(p.yes_shares.parts(), size.parts());
            match position_after(p, TokenSide::Yes, OrderSide::Sell, size) {
                Some(q) => rest is Some && (if rest->Some_0.0 < 0 {
                    q.yes_shares.mantissa == 0
                } else {
                    q.yes_shares.parts() == rest->0
                }),
                None => rest is None,
            }
        }),
        ({
            let rest = decimal::decimal_difference(p.no_shares.parts(), size.parts());
            match position_after(p, TokenSide::No, OrderSide::Sell, size) {
                Some(q) => rest is Some && (if rest->Some_0.0 < 0 {
                    q.no_shares.mantissa == 0
                } else {
                    q.no_shares.parts() == rest->0
                }),
                None => rest is None,
            }
        }),
{
    assert forall|d: Dec| #[trigger] d.less(zero_dec()) <==> d.mantissa < 0 by {
        let one = vstd::arithmetic::power::pow(10, zero_dec().scale as nat);
        vstd::arithmetic::power::lemma_pow0(10);
        assert(d.mantissa * one == d.mantissa);
        assert(zero_dec().mantissa * vstd::arithmetic::power::pow(10, d.scale as nat) == 0)
            by (nonlinear_arith)
            requires
                zero_dec().mantissa == 0,
        ;
    }
}

/// The exposure is the sum of the shares of both tokens.
pub proof fn both_tokens_are_exposed(p: Position)
    ensures
        decimal::opt_parts(exposure_of(p)) == decimal::decimal_sum(
            p.yes_shares.parts(),
            p.no_shares.parts(),
        ),
{
}

} // verus!
