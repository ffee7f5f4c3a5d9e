//! Orders as the exchange takes them, and what it answers.

use vstd::prelude::*;
use vstd::string::*;

use crate::decimal::Dec;
use crate::executor::strategy::OrderSide;
use crate::text::{join2, Text};

verus! {

/// What went wrong with a request to the exchange.
pub enum ClobError {
    RequestFailed(String),
    OrderRejected(String),
}

/// The message of a failed request.
pub open spec fn clob_message(e: ClobError) -> Text {
    match e {
        ClobError::RequestFailed(s) => "CLOB request failed: "@ + s@,
        ClobError::OrderRejected(s) => "order rejected: "@ + s@,
    }
}

impl ClobError {
    /// The message of this failure.
    pub fn message(&self) -> (m: String)
        ensures
            m@ == clob_message(*self),
    {
        match self {
            ClobError::RequestFailed(s) => join2("CLOB request failed: ", s.as_str()),
            ClobError::OrderRejected(s) => join2("order rejected: ", s.as_str()),
        }
    }
}

/// An order at a price.
pub struct LimitOrderParams {
    pub token_id: String,
    pub side: OrderSide,
    pub price: Dec,
    pub size: Dec,
}

/// What an order at a price holds.
pub struct LimitView {
    pub token_id: Text,
    pub side: OrderSide,
    pub price: Dec,
    pub size: Dec,
}

impl View for LimitOrderParams {
    type V = LimitView;

    open spec fn view(&self) -> LimitView {
        LimitView {
            token_id: self.token_id@,
            side: self.side,
            price: self.price,
            size: self.size,
        }
    }
}

/// An order at the price of the market.
pub struct MarketOrderParams {
    pub token_id: String,
    pub side: OrderSide,
    pub size: Dec,
}

/// An order that the exchange has taken.
pub struct OrderResponse {
    pub order_id: String,
    pub status: String,
}

/// The two sides of a book.
pub struct OrderBookSummary {
    pub bids: Vec<PriceLevel>,
    pub asks: Vec<PriceLevel>,
}

/// A price and what is offered at it.
#[derive(Clone, Copy, Debug, PartialEq, Eq, Structural)]
pub struct PriceLevel {
    pub price: Dec,
    pub size: Dec,
}

/// Where an order stands.
#[derive(Clone, Copy, Debug, PartialEq, Eq, Structural)]
pub enum OrderState {
    Live,
    Matched,
    Canceled,
    Other,
}

// Tokens

/// The bytes of a 256-bit number, or the words of what is wrong with its text.
pub uninterp spec fn token_number(s: Seq<char>) -> Result<Seq<u8>, Seq<char>>;

/// What the result of reading a token holds.
pub open spec fn token_view(r: Result<Vec<u8>, String>) -> Result<Seq<u8>, Seq<char>> {
    match r {
        Ok(b) => Ok(b@),
        Err(e) => Err(e@),
    }
}

/// Reads a token with the `FromStr` of `alloy`'s `U256` and hands out its bytes, the highest
/// first, or the words of the fault. Both are functions of the text; the bytes are 32.
#[verifier::external_body]
pub(crate) fn read_token(s: &str) -> (r: Result<Vec<u8>, String>)
    ensures
        token_view(r) == token_number(s@),
        r matches Ok(b) ==> b@.len() == 32,
{
    let parsed: Result<alloy::primitives::U256, _> = s.parse();
    parsed.map(|n: alloy::primitives::U256| n.to_be_bytes_vec()).map_err(|e| format!("{e}"))
}

/// The number of a token, or the failure of a request with it. The words name the token.
pub open spec fn token_of(number: Result<Seq<u8>, Seq<char>>, name: Text) -> Result<Seq<u8>, Text> {
    match number {
        Ok(b) => Ok(b),
        Err(e) => Err("CLOB request failed: "@ + ("invalid "@ + name + ": "@ + e)),
    }
}

/// The bytes of a token, or the message of a failure.
pub open spec fn token_result(r: Result<Vec<u8>, ClobError>) -> Result<Seq<u8>, Text> {
    match r {
        Ok(b) => Ok(b@),
        Err(e) => Err(clob_message(e)),
    }
}

/// Turns what was read of a token into the result of a request. The words of a fault name
/// the token.
pub fn token_or_failure(number: Result<Vec<u8>, String>, name: &str) -> (r: Result<
    Vec<u8>,
    ClobError,
>)
    ensures
        token_result(r) == token_of(token_view(number), name@),
        r matches Ok(b) ==> number == Ok::<Vec<u8>, String>(b),
{
    match number {
        Ok(b) => Ok(b),
        Err(e) => {
            let mut m: String = join2("invalid ", name);
            m.append(": ");
            m.append(e.as_str());
            Err(ClobError::RequestFailed(m))
        },
    }
}

/// The number of the token of an order.
pub fn token_id(s: &str) -> (r: Result<Vec<u8>, ClobError>)
    ensures
        token_result(r) == token_of(token_number(s@), "token ID"@),
        r matches Ok(b) ==> b@.len() == 32,
{
    token_or_failure(read_token(s), "token ID")
}

/// The numbers of the two tokens of a pair of orders. The first fault counts.
pub open spec fn pair_of(yes: Result<Seq<u8>, Text>, no: Result<Seq<u8>, Text>) -> Result<
    (Seq<u8>, Seq<u8>),
    Text,
> {
    match (yes, no) {
        (Err(e), _) => Err(e),
        (Ok(_), Err(e)) => Err(e),
        (Ok(y), Ok(n)) => Ok((y, n)),
    }
}

/// What the result of reading a pair of tokens holds.
pub open spec fn pair_view(r: Result<(Vec<u8>, Vec<u8>), ClobError>) -> Result<
    (Seq<u8>, Seq<u8>),
    Text,
> {
    match r {
        Ok((y, n)) => Ok((y@, n@)),
        Err(e) => Err(clob_message(e)),
    }
}

/// The numbers of the two tokens of a pair of orders.
pub fn token_pair(yes: &str, no: &str) -> (r: Result<(Vec<u8>, Vec<u8>), ClobError>)
    ensures
        pair_view(r) == pair_of(
            token_of(token_number(yes@), "YES token ID"@),
            token_of(token_number(no@), "NO token ID"@),
        ),
{
    let yes_id: Vec<u8> = match token_or_failure(read_token(yes), "YES token ID") {
        Ok(b) => b,
        Err(e) => {
            return Err(e);
        },
    };
    let no_id: Vec<u8> = match token_or_failure(read_token(no), "NO token ID") {
        Ok(b) => b,
        Err(e) => {
            return Err(e);
        },
    };
    Ok((yes_id, no_id))
}

// Answers

/// What the exchange answers to an order that may only rest in the book.
pub struct PostAnswer {
    pub success: bool,
    pub order_id: String,
    pub status: String,
    pub error_msg: Option<String>,
}

/// Why an order was rejected: in the words of the exchange, or by its status.
pub open spec fn rejection(a: PostAnswer) -> Text {
    match a.error_msg {
        Some(m) => m@,
        None => "status="@ + a.status@,
    }
}

/// Reads the answer to an order that may only rest in the book.
pub fn post_only_outcome(a: PostAnswer) -> (r: Result<OrderResponse, ClobError>)
    ensures
        match r {
            Ok(o) => a.success && o.order_id@ == a.order_id@ && o.status@ == a.status@,
            Err(ClobError::OrderRejected(reason)) => !a.success && reason@ == rejection(a),
            Err(ClobError::RequestFailed(_)) => false,
        },
{
    if !a.success {
        let reason: String = match a.error_msg {
            Some(m) => m,
            None => join2("status=", a.status.as_str()),
        };
        return Err(ClobError::OrderRejected(reason));
    }
    Ok(OrderResponse { order_id: a.order_id, status: a.status })
}

/// A pair of tokens keeps its order, and the first fault counts. A fault names its token and
/// carries its words.
pub proof fn pairs_keep_their_order(y: Seq<u8>, n: Seq<u8>, fault: Seq<char>, name: Text)
    ensures
        pair_of(Ok(y), Ok(n)) == Ok::<(Seq<u8>, Seq<u8>), Text>((y, n)),
        pair_of(Err(fault), Ok(n)) == Err::<(Seq<u8>, Seq<u8>), Text>(fault),
        pair_of(Err(fault), Err(name)) == Err::<(Seq<u8>, Seq<u8>), Text>(fault),
        pair_of(Ok(y), Err(fault)) == Err::<(Seq<u8>, Seq<u8>), Text>(fault),
        token_of(Ok(y), name) == Ok::<Seq<u8>, Text>(y),
        token_of(Err(fault), name) == Err::<Seq<u8>, Text>(
            "CLOB request failed: "@ + ("invalid "@ + name + ": "@ + fault),
        ),
{
}

} // verus!
