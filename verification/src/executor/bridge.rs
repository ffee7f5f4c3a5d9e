//! Addresses at which money can be paid in.

use vstd::prelude::*;
use vstd::string::*;

use crate::executor::bytes;
use crate::executor::bytes::hex_of;
use crate::json::{Json, JsonView};
use crate::text::{join2, Text};

verus! {

/// Why the addresses could not be had.
pub enum BridgeError {
    RequestFailed(String),
    ParseError(String),
}

/// The message of a failure.
pub open spec fn bridge_message(e: BridgeError) -> Text {
    match e {
        BridgeError::RequestFailed(s) => "bridge request failed: "@ + s@,
        BridgeError::ParseError(s) => "bridge response parse error: "@ + s@,
    }
}

impl BridgeError {
    /// The message of this failure.
    pub fn message(&self) -> (m: String)
        ensures
            m@ == bridge_message(*self),
    {
        match self {
            BridgeError::RequestFailed(s) => join2("bridge request failed: ", s.as_str()),
            BridgeError::ParseError(s) => join2("bridge response parse error: ", s.as_str()),
        }
    }
}

/// Addresses at which money can be paid in, by chain.
pub struct DepositAddresses {
    pub evm: Option<String>,
    pub svm: Option<String>,
    pub btc: Option<String>,
}

/// Where to ask for the addresses.
pub fn deposit_url(bridge_host: &str) -> (url: String)
    ensures
        url@ == bridge_host@ + "/deposit"@,
{
    join2(bridge_host, "/deposit")
}

/// What to ask for the addresses of a wallet.
pub fn deposit_request(wallet: &Vec<u8>) -> (j: Json)
    ensures
        j@ == JsonView::Object(
            seq![("address"@, JsonView::Str("0x"@ + bytes::hex_text(wallet@)))],
        ),
{
    let address: String = hex_of(wallet);
    Json::object1("address", Json::text(address.as_str()))
}

/// The failure of a request that was not answered with success.
pub fn refused(status: &str, text: &str) -> (e: BridgeError)
    ensures
        bridge_message(e) == "bridge request failed: "@ + ("HTTP "@ + status@ + ": "@ + text@),
{
    let mut m: String = join2("HTTP ", status);
    m.append(": ");
    m.append(text);
    BridgeError::RequestFailed(m)
}

} // verus!
