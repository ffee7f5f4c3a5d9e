//! What a strategy asks for, and what becomes of it.

use vstd::prelude::*;
use vstd::string::*;

use crate::decimal::Dec;
use crate::text::Text;

verus! {

/// A price or a size: its IEEE 754 bits, the nearest decimal number, and its text in
/// messages and in JSON.
pub struct Num {
    pub bits: u64,
    pub dec: Dec,
    pub shown: String,
    pub json: String,
}

/// What a price or a size holds.
pub struct NumView {
    pub bits: u64,
    pub dec: Dec,
    pub shown: Text,
    pub json: Text,
}

impl View for Num {
    type V = NumView;

    open spec fn view(&self) -> NumView {
        NumView { bits: self.bits, dec: self.dec, shown: self.shown@, json: self.json@ }
    }
}

impl Num {
    /// A copy of this number.
    pub fn duplicate(&self) -> (n: Num)
        ensures
            n@ == self@,
    {
        Num {
            bits: self.bits,
            dec: self.dec,
            shown: self.shown.clone(),
            json: self.json.clone(),
        }
    }
}

/// One of the two tokens of a market.
#[derive(Clone, Copy, Debug, PartialEq, Eq, Structural)]
pub enum TokenSide {
    Yes,
    No,
}

/// Buying or selling.
#[derive(Clone, Copy, Debug, PartialEq, Eq, Structural)]
pub enum OrderSide {
    Buy,
    Sell,
}

/// Something that a strategy asks for.
pub enum Action {
    PlaceLimitBuyYes { price: Num, size: Num },
    PlaceLimitBuyNo { price: Num, size: Num },
    PlaceLimitSellYes { price: Num, size: Num },
    PlaceLimitSellNo { price: Num, size: Num },
    PlacePostOnlyBuyYes { price: Num, size: Num },
    PlacePostOnlyBuyNo { price: Num, size: Num },
    PlacePostOnlySellYes { price: Num, size: Num },
    PlacePostOnlySellNo { price: Num, size: Num },
    SplitUsdc { amount: u64 },
    RegisterPositions,
    CancelOrder { order_id: String },
    CancelAll,
}

/// What an action holds.
pub enum ActionView {
    Place { post_only: bool, side: OrderSide, token: TokenSide, price: NumView, size: NumView },
    SplitUsdc { amount: u64 },
    RegisterPositions,
    CancelOrder { order_id: Text },
    CancelAll,
}

/// An order.
pub open spec fn place(
    post_only: bool,
    side: OrderSide,
    token: TokenSide,
    price: NumView,
    size: NumView,
) -> ActionView {
    ActionView::Place { post_only, side, token, price, size }
}

impl View for Action {
    type V = ActionView;

    open spec fn view(&self) -> ActionView {
        match self {
            Action::PlaceLimitBuyYes { price, size } => place(
                false,
                OrderSide::Buy,
                TokenSide::Yes,
                price@,
                size@,
            ),
            Action::PlaceLimitBuyNo { price, size } => place(
                false,
                OrderSide::Buy,
                TokenSide::No,
                price@,
                size@,
            ),
            Action::PlaceLimitSellYes { price, size } => place(
                false,
                OrderSide::Sell,
                TokenSide::Yes,
                price@,
                size@,
            ),
            Action::PlaceLimitSellNo { price, size } => place(
                false,
                OrderSide::Sell,
                TokenSide::No,
                price@,
                size@,
            ),
            Action::PlacePostOnlyBuyYes { price, size } => place(
                true,
                OrderSide::Buy,
                TokenSide::Yes,
                price@,
                size@,
            ),
            Action::PlacePostOnlyBuyNo { price, size } => place(
                true,
                OrderSide::Buy,
                TokenSide::No,
                price@,
                size@,
            ),
            Action::PlacePostOnlySellYes { price, size } => place(
                true,
                OrderSide::Sell,
                TokenSide::Yes,
                price@,
                size@,
            ),
            Action::PlacePostOnlySellNo { price, size } => place(
                true,
                OrderSide::Sell,
                TokenSide::No,
                price@,
                size@,
            ),
            Action::SplitUsdc { amount } => ActionView::SplitUsdc { amount: *amount },
            Action::RegisterPositions => ActionView::RegisterPositions,
            Action::CancelOrder { order_id } => ActionView::CancelOrder { order_id: order_id@ },
            Action::CancelAll => ActionView::CancelAll,
        }
    }
}

/// What a list of actions holds.
pub open spec fn actions_view(actions: Seq<Action>) -> Seq<ActionView> {
    actions.map_values(|a: Action| a@)
}

/// The parts of an order.
pub struct OrderParts<'a> {
    pub post_only: bool,
    pub side: OrderSide,
    pub token: TokenSide,
    pub price: &'a Num,
    pub size: &'a Num,
}

impl Action {
    /// The parts of this action, where it is an order.
    pub fn order(&self) -> (o: Option<OrderParts<'_>>)
        ensures
            match o {
                Some(o) => self@ == place(o.post_only, o.side, o.token, o.price@, o.size@),
                None => !(self@ is Place),
            },
    {
        match self {
            Action::PlaceLimitBuyYes { price, size } => Some(
                OrderParts {
                    post_only: false,
                    side: OrderSide::Buy,
                    token: TokenSide::Yes,
                    price,
                    size,
                },
            ),
            Action::PlaceLimitBuyNo { price, size } => Some(
                OrderParts {
                    post_only: false,
                    side: OrderSide::Buy,
                    token: TokenSide::No,
                    price,
                    size,
                },
            ),
            Action::PlaceLimitSellYes { price, size } => Some(
                OrderParts {
                    post_only: false,
                    side: OrderSide::Sell,
                    token: TokenSide::Yes,
                    price,
                    size,
                },
            ),
            Action::PlaceLimitSellNo { price, size } => Some(
                OrderParts {
                    post_only: false,
                    side: OrderSide::Sell,
                    token: TokenSide::No,
                    price,
                    size,
                },
            ),
            Action::PlacePostOnlyBuyYes { price, size } => Some(
                OrderParts {
                    post_only: true,
                    side: OrderSide::Buy,
                    token: TokenSide::Yes,
                    price,
                    size,
                },
            ),
            Action::PlacePostOnlyBuyNo { price, size } => Some(
                OrderParts {
                    post_only: true,
                    side: OrderSide::Buy,
                    token: TokenSide::No,
                    price,
                    size,
                },
            ),
            Action::PlacePostOnlySellYes { price, size } => Some(
                OrderParts {
                    post_only: true,
                    side: OrderSide::Sell,
                    token: TokenSide::Yes,
                    price,
                    size,
                },
            ),
            Action::PlacePostOnlySellNo { price, size } => Some(
                OrderParts {
                    post_only: true,
                    side: OrderSide::Sell,
                    token: TokenSide::No,
                    price,
                    size,
                },
            ),
            _ => None,
        }
    }
}

/// What became of an action.
pub enum ActionResult {
    OrderPlaced { order_id: String },
    Rejected { reason: String },
    Success { detail: String },
    Error { reason: String },
    DryRun { description: String },
}

/// What the result of an action holds.
pub enum ResultView {
    OrderPlaced { order_id: Text },
    Rejected { reason: Text },
    Success { detail: Text },
    Error { reason: Text },
    DryRun { description: Text },
}

impl View for ActionResult {
    type V = ResultView;

    open spec fn view(&self) -> ResultView {
        match self {
            ActionResult::OrderPlaced { order_id } => ResultView::OrderPlaced {
                order_id: order_id@,
            },
            ActionResult::Rejected { reason } => ResultView::Rejected { reason: reason@ },
            ActionResult::Success { detail } => ResultView::Success { detail: detail@ },
            ActionResult::Error { reason } => ResultView::Error { reason: reason@ },
            ActionResult::DryRun { description } => ResultView::DryRun {
                description: description@,
            },
        }
    }
}

/// A strategy: it is asked for actions again and again, and told what became of them.
pub trait Strategy {
    /// What the strategy is told at each tick.
    type Tick;

    /// What the strategy is told of a fill.
    type Fill;

    /// The strategy has room to count one more failure.
    spec fn ready(&self) -> bool;

    fn on_tick(&mut self, tick: &Self::Tick) -> Vec<Action>;

    fn on_action_result(&mut self, action: &Action, result: &ActionResult, clock_ms: u64)
        requires
            old(self).ready(),
    ;

    fn on_fill(&mut self, fill: &Self::Fill);
}

/// A strategy that never does anything.
pub struct NoopStrategy;

impl Strategy for NoopStrategy {
    type Tick = ();

    type Fill = ();

    open spec fn ready(&self) -> bool {
        true
    }

    fn on_tick(&mut self, tick: &()) -> (actions: Vec<Action>)
        ensures
            actions@.len() == 0,
    {
        Vec::new()
    }

    fn on_action_result(&mut self, action: &Action, result: &ActionResult, clock_ms: u64) {
    }

    fn on_fill(&mut self, fill: &()) {
    }
}

/// An action is the order that it is named after: post-only or not, a purchase or a sale, of the
/// one token or the other, at its price and in its size.
pub proof fn orders_are_what_they_are_named(a: Action)
    ensures
        match a {
            Action::PlaceLimitBuyYes { price, size } => a@ == (ActionView::Place {
                post_only: false,
                side: OrderSide::Buy,
                token: TokenSide::Yes,
                price: price@,
                size: size@,
            }),
            Action::PlaceLimitBuyNo { price, size } => a@ == (ActionView::Place {
                post_only: false,
                side: OrderSide::Buy,
                token: TokenSide::No,
                price: price@,
                size: size@,
            }),
            Action::PlaceLimitSellYes { price, size } => a@ == (ActionView::Place {
                post_only: false,
                side: OrderSide::Sell,
                token: TokenSide::Yes,
                price: price@,
                size: size@,
            }),
            Action::PlaceLimitSellNo { price, size } => a@ == (ActionView::Place {
                post_only: false,
                side: OrderSide::Sell,
                token: TokenSide::No,
                price: price@,
                size: size@,
            }),
            Action::PlacePostOnlyBuyYes { price, size } => a@ == (ActionView::Place {
                post_only: true,
                side: OrderSide::Buy,
                token: TokenSide::Yes,
                price: price@,
                size: size@,
            }),
            Action::PlacePostOnlyBuyNo { price, size } => a@ == (ActionView::Place {
                post_only: true,
                side: OrderSide::Buy,
                token: TokenSide::No,
                price: price@,
                size: size@,
            }),
            Action::PlacePostOnlySellYes { price, size } => a@ == (ActionView::Place {
                post_only: true,
                side: OrderSide::Sell,
                token: TokenSide::Yes,
                price: price@,
                size: size@,
            }),
            Action::PlacePostOnlySellNo { price, size } => a@ == (ActionView::Place {
                post_only: true,
                side: OrderSide::Sell,
                token: TokenSide::No,
                price: price@,
                size: size@,
            }),
            _ => !(a@ is Place),
        },
{
}

} // verus!
