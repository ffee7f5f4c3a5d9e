//! Calls that a relayer carries to the chain: how they are packed and signed for it, and what
//! it answers.

use vstd::prelude::*;
use vstd::string::*;

use crate::executor::bytes;
use crate::executor::bytes::{extend, hex_of, keccak_of, selector_of, word_of};
use crate::executor::config;
use crate::executor::config::{parse_address, show_address, AppConfig};
use crate::executor::ctf_ops;
use crate::json;
use crate::json::{Json, JsonView};
use crate::json_read;
use crate::number;
use crate::number::parse_u64;
use crate::text;
use crate::text::{join2, join3, same_text, u64_text, Text};

verus! {

/// The gas that a call may use.
pub const DEFAULT_GAS_LIMIT: u64 = 500_000;

/// How often the state of a transaction is asked for.
pub const POLL_ATTEMPTS: u32 = 60;

/// Seconds from one question for the state of a transaction to the next.
pub const POLL_SECS: u64 = 2;

/// The address of the contract that makes proxy wallets.
pub open spec fn proxy_factory() -> Seq<u8> {
    seq![
        0xab, 0x45, 0xc5, 0xa4, 0xb0, 0xc9, 0x41, 0xa2, 0xf2, 0x31, 0xc0, 0x4c, 0x3f, 0x49, 0x18,
        0x2e, 0x1a, 0x25, 0x40, 0x52,
    ]
}

/// The address of the contract that makes proxy wallets.
pub fn proxy_factory_address() -> (a: Vec<u8>)
    ensures
        a@ == proxy_factory(),
{
    let a: Vec<u8> = vec![
        0xab, 0x45, 0xc5, 0xa4, 0xb0, 0xc9, 0x41, 0xa2, 0xf2, 0x31, 0xc0, 0x4c, 0x3f, 0x49, 0x18,
        0x2e, 0x1a, 0x25, 0x40, 0x52,
    ];
    assert(a@ =~= proxy_factory());
    a
}

/// The address of the hub of the relayers.
pub open spec fn relay_hub() -> Seq<u8> {
    seq![
        0xd2, 0x16, 0x15, 0x3c, 0x06, 0xe8, 0x57, 0xcd, 0x7f, 0x72, 0x66, 0x5e, 0x0a, 0xf1, 0xd7,
        0xd8, 0x21, 0x72, 0xf4, 0x94,
    ]
}

/// The address of the hub of the relayers.
pub fn relay_hub_address() -> (a: Vec<u8>)
    ensures
        a@ == relay_hub(),
{
    let a: Vec<u8> = vec![
        0xd2, 0x16, 0x15, 0x3c, 0x06, 0xe8, 0x57, 0xcd, 0x7f, 0x72, 0x66, 0x5e, 0x0a, 0xf1, 0xd7,
        0xd8, 0x21, 0x72, 0xf4, 0x94,
    ];
    assert(a@ =~= relay_hub());
    a
}

// Calls

/// One call of a contract through a proxy wallet.
pub struct ProxyCall {
    pub type_code: u8,
    pub to: Vec<u8>,
    pub value: u64,
    pub data: Vec<u8>,
}

/// What a call holds: its type, the contract, the value that goes with it, and its data.
pub open spec fn call_view(c: ProxyCall) -> (u8, Seq<u8>, u64, Seq<u8>) {
    (c.type_code, c.to@, c.value, c.data@)
}

/// What a list of calls holds.
pub open spec fn calls_view(calls: Seq<ProxyCall>) -> Seq<(u8, Seq<u8>, u64, Seq<u8>)> {
    calls.map_values(|c: ProxyCall| call_view(c))
}

/// The contracts of all calls are addresses.
pub open spec fn calls_wf(calls: Seq<ProxyCall>) -> bool {
    forall|i: int| 0 <= i < calls.len() ==> (#[trigger] calls[i]).to@.len() == 20
}

/// Zeros that fill the last word of some bytes.
pub open spec fn filling(len: nat) -> Seq<u8> {
    Seq::new(((32 - len % 32) % 32) as nat, |i: int| 0u8)
}

/// The encoding of a call: a word for its type, its contract, its value, and for the distance
/// of its data, which begins behind these four; then the length of the data and the data in
/// whole words.
pub open spec fn call_words(c: (u8, Seq<u8>, u64, Seq<u8>)) -> Seq<u8> {
    bytes::word(c.0 as nat) + ctf_ops::padded_address(c.1) + bytes::word(c.2 as nat) + bytes::word(
        128,
    ) + bytes::word(c.3.len()) + c.3 + filling(c.3.len())
}

/// The encodings of calls, one behind another.
pub open spec fn calls_words(calls: Seq<(u8, Seq<u8>, u64, Seq<u8>)>) -> Seq<u8>
    decreases calls.len(),
{
    if calls.len() == 0 {
        seq![]
    } else {
        calls_words(calls.drop_last()) + call_words(calls.last())
    }
}

/// A word for each of some calls: how far its encoding lies behind the first of `count` such
/// words.
pub open spec fn call_distances(calls: Seq<(u8, Seq<u8>, u64, Seq<u8>)>, count: nat) -> Seq<u8>
    decreases calls.len(),
{
    if calls.len() == 0 {
        seq![]
    } else {
        call_distances(calls.drop_last(), count) + bytes::word(
            32 * count + calls_words(calls.drop_last()).len(),
        )
    }
}

/// The encoding of a list of calls as the one argument of a function of a contract: how far the
/// list lies behind the start, how many calls it holds, where each of them begins, and the calls.
pub open spec fn proxy_args(calls: Seq<(u8, Seq<u8>, u64, Seq<u8>)>) -> Seq<u8> {
    bytes::word(32) + bytes::word(calls.len()) + call_distances(calls, calls.len()) + calls_words(
        calls,
    )
}

/// Encodes a list of calls with the `abi_encode_sequence` of `alloy`'s `SolType`, as the one
/// argument of a function, of the type `(uint8,address,uint256,bytes)[]`: the distance of the
/// list, its length, the distances of its items, and the items, each with its own distance to
/// its bytes.
#[verifier::external_body]
fn encode_proxy_args(calls: &Vec<ProxyCall>) -> (out: Vec<u8>)
    requires
        calls_wf(calls@),
    ensures
        out@ == proxy_args(calls_view(calls@)),
{
    let list: Vec<(u8, alloy::primitives::Address, alloy::primitives::U256, alloy::primitives::Bytes)> =
        calls.iter().map(|c: &ProxyCall| {
            let to = alloy::primitives::Address::from_slice(&c.to);
            let value = alloy::primitives::U256::from(c.value);
            (c.type_code, to, value, alloy::primitives::Bytes::copy_from_slice(&c.data))
        }).collect();
    <(alloy::sol_types::sol_data::Array<(
        alloy::sol_types::sol_data::Uint<8>,
        alloy::sol_types::sol_data::Address,
        alloy::sol_types::sol_data::Uint<256>,
        alloy::sol_types::sol_data::Bytes,
    )>,) as alloy::sol_types::SolType>::abi_encode_sequence(&(list,))
}

/// The data that hands calls to a proxy wallet.
pub open spec fn proxy_data(calls: Seq<(u8, Seq<u8>, u64, Seq<u8>)>) -> Seq<u8> {
    bytes::selector("proxy((uint8,address,uint256,bytes)[])".spec_bytes()) + proxy_args(calls)
}

/// The data that hands calls to a proxy wallet.
pub fn proxy_call_data(calls: &Vec<ProxyCall>) -> (out: Vec<u8>)
    requires
        calls_wf(calls@),
    ensures
        out@ == proxy_data(calls_view(calls@)),
{
    let mut out: Vec<u8> = selector_of("proxy((uint8,address,uint256,bytes)[])");
    extend(&mut out, &encode_proxy_args(calls));
    out
}

/// The number of a transaction; zero where the text is none.
pub open spec fn nonce_of(s: Text) -> nat {
    match number::u64_of_text(s) {
        Some(n) => n as nat,
        None => 0,
    }
}

/// What is hashed to sign calls: a tag, the signer, the factory, the data, the fee and the price
/// of gas, both zero, the gas, the number of the transaction, the hub and the relayer.
pub open spec fn packed(
    signer: Seq<u8>,
    data: Seq<u8>,
    gas_limit: nat,
    nonce: nat,
    relay: Seq<u8>,
) -> Seq<u8> {
    seq![114u8, 108, 120, 58] + signer + proxy_factory() + data + bytes::word(0) + bytes::word(0)
        + bytes::word(gas_limit) + bytes::word(nonce) + relay_hub() + relay
}

/// The hash that is signed for calls.
pub fn build_struct_hash(
    signer: &Vec<u8>,
    encoded_data: &Vec<u8>,
    gas_limit: u64,
    nonce: &str,
    relay: &Vec<u8>,
) -> (h: Vec<u8>)
    ensures
        h@ == bytes::keccak(
            packed(signer@, encoded_data@, gas_limit as nat, nonce_of(nonce@), relay@),
        ),
        h@.len() == 32,
{
    let number: u64 = match parse_u64(nonce) {
        Some(n) => n,
        None => 0,
    };
    let mut out: Vec<u8> = vec![114, 108, 120, 58];
    assert(out@ =~= seq![114u8, 108, 120, 58]);
    extend(&mut out, signer);
    extend(&mut out, &proxy_factory_address());
    extend(&mut out, encoded_data);
    extend(&mut out, &word_of(0));
    extend(&mut out, &word_of(0));
    extend(&mut out, &word_of(gas_limit as u128));
    extend(&mut out, &word_of(number as u128));
    extend(&mut out, &relay_hub_address());
    extend(&mut out, relay);
    keccak_of(&out)
}

// Signatures

/// What base64 text with the alphabet for URLs and padding decodes to.
pub uninterp spec fn url_safe_decoded(s: Seq<char>) -> Option<Seq<u8>>;

/// What base64 text with the alphabet for URLs and without padding decodes to.
pub uninterp spec fn url_safe_no_pad_decoded(s: Seq<char>) -> Option<Seq<u8>>;

/// What base64 text with the standard alphabet and padding decodes to.
pub uninterp spec fn standard_decoded(s: Seq<char>) -> Option<Seq<u8>>;

/// The base64 text of bytes, with the alphabet for URLs and padding.
pub uninterp spec fn url_safe_encoded(bytes: Seq<u8>) -> Seq<char>;

/// The HMAC with SHA-256 of a message under a key.
pub uninterp spec fn hmac_of(key: Seq<u8>, message: Seq<char>) -> Seq<u8>;

/// Decodes with `base64`'s `URL_SAFE` engine; the result is a function of the text.
#[verifier::external_body]
fn decode_url_safe(s: &str) -> (b: Option<Vec<u8>>)
    ensures
        bytes::opt_bytes(b) == url_safe_decoded(s@),
{
    base64::Engine::decode(&base64::engine::general_purpose::URL_SAFE, s).ok()
}

/// Decodes with `base64`'s `URL_SAFE_NO_PAD` engine; the result is a function of the text.
#[verifier::external_body]
fn decode_url_safe_no_pad(s: &str) -> (b: Option<Vec<u8>>)
    ensures
        bytes::opt_bytes(b) == url_safe_no_pad_decoded(s@),
{
    base64::Engine::decode(&base64::engine::general_purpose::URL_SAFE_NO_PAD, s).ok()
}

/// Decodes with `base64`'s `STANDARD` engine; the result is a function of the text.
#[verifier::external_body]
fn decode_standard(s: &str) -> (b: Option<Vec<u8>>)
    ensures
        bytes::opt_bytes(b) == standard_decoded(s@),
{
    base64::Engine::decode(&base64::engine::general_purpose::STANDARD, s).ok()
}

/// Encodes with `base64`'s `URL_SAFE` engine; the result is a function of the bytes.
#[verifier::external_body]
fn encode_url_safe(b: &Vec<u8>) -> (s: String)
    ensures
        s@ == url_safe_encoded(b@),
{
    base64::Engine::encode(&base64::engine::general_purpose::URL_SAFE, b)
}

/// Computes the HMAC of the UTF-8 bytes of a message with `hmac`'s `Hmac` over `sha2`'s
/// `Sha256`, which takes keys of any length. It is a function of the key and the message and has
/// 32 bytes.
#[verifier::external_body]
fn hmac_sha256(key: &Vec<u8>, message: &str) -> (mac: Vec<u8>)
    ensures
        mac@ == hmac_of(key@, message@),
        mac@.len() == 32,
{
    let mut mac: hmac::Hmac<sha2::Sha256> = hmac::Mac::new_from_slice(key).expect("any key length");
    hmac::Mac::update(&mut mac, message.as_bytes());
    hmac::Mac::finalize(mac).into_bytes().to_vec()
}

/// The first of three readings of a secret that succeeds.
pub open spec fn first_of(
    a: Option<Seq<u8>>,
    b: Option<Seq<u8>>,
    c: Option<Seq<u8>>,
) -> Option<Seq<u8>> {
    if a is Some {
        a
    } else if b is Some {
        b
    } else {
        c
    }
}

/// The first of three readings that succeeds.
pub fn pick_first(a: Option<Vec<u8>>, b: Option<Vec<u8>>, c: Option<Vec<u8>>) -> (r: Option<
    Vec<u8>,
>)
    ensures
        bytes::opt_bytes(r) == first_of(bytes::opt_bytes(a), bytes::opt_bytes(b), bytes::opt_bytes(c)),
{
    if a.is_some() {
        a
    } else if b.is_some() {
        b
    } else {
        c
    }
}

/// The bytes of a secret in base64: for URLs with or without padding, or else standard. None
/// where it is neither.
pub fn decode_secret(secret: &str) -> (b: Option<Vec<u8>>)
    ensures
        bytes::opt_bytes(b) == first_of(
            url_safe_decoded(secret@),
            url_safe_no_pad_decoded(secret@),
            standard_decoded(secret@),
        ),
{
    pick_first(decode_url_safe(secret), decode_url_safe_no_pad(secret), decode_standard(secret))
}

/// What is signed of a request: the time, the method, the path and the body, one after another.
pub open spec fn signed_text(timestamp: nat, method: Text, path: Text, body: Option<Text>) -> Text {
    text::nat_text(timestamp) + method + path + match body {
        Some(b) => b,
        None => seq![],
    }
}

/// What is signed of a request.
pub fn text_to_sign(timestamp: u64, method: &str, path: &str, body: Option<&str>) -> (s: String)
    ensures
        s@ == signed_text(timestamp as nat, method@, path@, json::opt_text(body)),
{
    let mut s: String = u64_text(timestamp);
    s.append(method);
    s.append(path);
    match body {
        Some(b) => {
            s.append(b);
        },
        None => {},
    }
    assert(s@ =~= signed_text(timestamp as nat, method@, path@, json::opt_text(body)));
    s
}

/// The signature of a request under the bytes of a secret.
pub fn hmac_signature(
    secret: &Vec<u8>,
    timestamp: u64,
    method: &str,
    path: &str,
    body: Option<&str>,
) -> (s: String)
    ensures
        s@ == url_safe_encoded(
            hmac_of(
                secret@,
                signed_text(timestamp as nat, method@, path@, json::opt_text(body)),
            ),
        ),
{
    let message: String = text_to_sign(timestamp, method, path, body);
    encode_url_safe(&hmac_sha256(secret, message.as_str()))
}

// The client

/// What the relayer asks for besides the signature of a call.
pub struct Credentials {
    pub key: String,
    pub secret: String,
    pub passphrase: String,
}

/// The first of the credentials that is missing.
pub open spec fn missing_credential(c: AppConfig) -> Option<Text> {
    if c.relayer_api_key is None {
        Some("RELAYER_API_KEY required for proxy wallet CTF operations"@)
    } else if c.relayer_api_secret is None {
        Some("RELAYER_API_SECRET required for proxy wallet CTF operations"@)
    } else if c.relayer_passphrase is None {
        Some("RELAYER_PASSPHRASE required for proxy wallet CTF operations"@)
    } else {
        None
    }
}

/// The credentials in the settings, or the first that is missing.
pub fn credentials(c: &AppConfig) -> (r: Result<Credentials, String>)
    ensures
        match (r, missing_credential(*c)) {
            (Err(m), Some(missing)) => m@ == missing,
            (Ok(k), None) => k.key@ == c.relayer_api_key->0@ && k.secret@
                == c.relayer_api_secret->0@ && k.passphrase@ == c.relayer_passphrase->0@,
            _ => false,
        },
{
    match (&c.relayer_api_key, &c.relayer_api_secret, &c.relayer_passphrase) {
        (None, _, _) => Err("RELAYER_API_KEY required for proxy wallet CTF operations".to_owned()),
        (Some(_), None, _) => Err(
            "RELAYER_API_SECRET required for proxy wallet CTF operations".to_owned(),
        ),
        (Some(_), Some(_), None) => Err(
            "RELAYER_PASSPHRASE required for proxy wallet CTF operations".to_owned(),
        ),
        (Some(k), Some(s), Some(p)) => Ok(
            Credentials {
                key: k.expose().to_owned(),
                secret: s.expose().to_owned(),
                passphrase: p.expose().to_owned(),
            },
        ),
    }
}

/// Where to ask for the relayer and the number of the next transaction of a signer.
pub fn relay_payload_url(host: &str, signer: &Vec<u8>) -> (url: String)
    requires
        signer@.len() == 20,
    ensures
        url@ == host@ + "/relay-payload?address="@ + config::address_text(signer@)
            + "&type=PROXY"@,
{
    let mut url: String = join2(host, "/relay-payload?address=");
    url.append(show_address(signer).as_str());
    url.append("&type=PROXY");
    url
}

/// Where to ask for the state of a transaction.
pub fn transaction_url(host: &str, tx_id: &str) -> (url: String)
    ensures
        url@ == host@ + "/transaction?id="@ + tx_id@,
{
    join3(host, "/transaction?id=", tx_id)
}

/// The failure of a request that was not answered with success.
pub fn http_failure(what: &str, status: &str, body: &str) -> (m: String)
    ensures
        m@ == what@ + " failed ("@ + status@ + "): "@ + body@,
{
    let mut m: String = join2(what, " failed (");
    m.append(status);
    m.append("): ");
    m.append(body);
    m
}

/// The relayer and the number of the next transaction of a signer.
pub struct RelayPayload {
    pub address: String,
    pub nonce: String,
}

/// A request that is ready to be signed: the data of the calls and the hash to sign.
pub struct PreparedCall {
    pub data: Vec<u8>,
    pub struct_hash: Vec<u8>,
}

/// The hash that is signed for calls through a relayer.
pub open spec fn prepared_hash(
    calls: Seq<(u8, Seq<u8>, u64, Seq<u8>)>,
    signer: Seq<u8>,
    nonce: Text,
    relay: Seq<u8>,
) -> Seq<u8> {
    bytes::keccak(
        packed(signer, proxy_data(calls), DEFAULT_GAS_LIMIT as nat, nonce_of(nonce), relay),
    )
}

/// Prepares calls for a relayer; none where the relayer has no valid address.
pub fn prepare(calls: &Vec<ProxyCall>, signer: &Vec<u8>, payload: &RelayPayload) -> (p: Option<
    PreparedCall,
>)
    requires
        calls_wf(calls@),
    ensures
        match (p, config::address_of_text(payload.address@)) {
            (Some(p), Some(relay)) => p.data@ == proxy_data(calls_view(calls@))
                && p.struct_hash@ == prepared_hash(
                calls_view(calls@),
                signer@,
                payload.nonce@,
                relay,
            ),
            (None, None) => true,
            _ => false,
        },
{
    match parse_address(payload.address.as_str()) {
        Some(relay) => {
            let data: Vec<u8> = proxy_call_data(calls);
            let struct_hash: Vec<u8> = build_struct_hash(
                signer,
                &data,
                DEFAULT_GAS_LIMIT,
                payload.nonce.as_str(),
                &relay,
            );
            Some(PreparedCall { data, struct_hash })
        },
        None => None,
    }
}

/// The body of a request to the relayer.
pub open spec fn submit_json(
    signer: Seq<u8>,
    wallet: Seq<u8>,
    data: Seq<u8>,
    nonce: Text,
    signature: Seq<u8>,
    relay: Text,
    metadata: Text,
) -> JsonView {
    JsonView::Object(
        seq![
            ("type"@, JsonView::Str("PROXY"@)),
            ("from"@, JsonView::Str(config::address_text(signer))),
            ("to"@, JsonView::Str(config::address_text(proxy_factory()))),
            ("proxyWallet"@, JsonView::Str(config::address_text(wallet))),
            ("data"@, JsonView::Str("0x"@ + bytes::hex_text(data))),
            ("nonce"@, JsonView::Str(nonce)),
            ("signature"@, JsonView::Str("0x"@ + bytes::hex_text(signature))),
            (
                "signatureParams"@,
                JsonView::Object(
                    seq![
                        ("gasPrice"@, JsonView::Str("0"@)),
                        ("gasLimit"@, JsonView::Str(text::nat_text(DEFAULT_GAS_LIMIT as nat))),
                        ("relayerFee"@, JsonView::Str("0"@)),
                        ("relayHub"@, JsonView::Str(config::address_text(relay_hub()))),
                        ("relay"@, JsonView::Str(relay)),
                    ],
                ),
            ),
            ("metadata"@, JsonView::Str(metadata)),
        ],
    )
}

fn signature_params(relay: &str) -> (j: Json)
    ensures
        j@ == JsonView::Object(
            seq![
                ("gasPrice"@, JsonView::Str("0"@)),
                ("gasLimit"@, JsonView::Str(text::nat_text(DEFAULT_GAS_LIMIT as nat))),
                ("relayerFee"@, JsonView::Str("0"@)),
                ("relayHub"@, JsonView::Str(config::address_text(relay_hub()))),
                ("relay"@, JsonView::Str(relay@)),
            ],
        ),
{
    let gas: String = u64_text(DEFAULT_GAS_LIMIT);
    let hub: String = show_address(&relay_hub_address());
    let j: Json = Json::object3(
        "gasPrice",
        Json::text("0"),
        "gasLimit",
        Json::text(gas.as_str()),
        "relayerFee",
        Json::text("0"),
    ).with_field("relayHub", Json::text(hub.as_str())).with_field("relay", Json::text(relay));
    assert(j@->Object_0 =~= seq![
        ("gasPrice"@, JsonView::Str("0"@)),
        ("gasLimit"@, JsonView::Str(text::nat_text(DEFAULT_GAS_LIMIT as nat))),
        ("relayerFee"@, JsonView::Str("0"@)),
        ("relayHub"@, JsonView::Str(config::address_text(relay_hub()))),
        ("relay"@, JsonView::Str(relay@)),
    ]);
    j
}

/// The body of a request to the relayer.
pub fn submit_request(
    signer: &Vec<u8>,
    wallet: &Vec<u8>,
    prepared: &PreparedCall,
    payload: &RelayPayload,
    signature: &Vec<u8>,
    metadata: &str,
) -> (j: Json)
    requires
        signer@.len() == 20,
        wallet@.len() == 20,
    ensures
        j@ == submit_json(
            signer@,
            wallet@,
            prepared.data@,
            payload.nonce@,
            signature@,
            payload.address@,
            metadata@,
        ),
{
    let from: String = show_address(signer);
    let to: String = show_address(&proxy_factory_address());
    let proxy: String = show_address(wallet);
    let data: String = hex_of(&prepared.data);
    let sig: String = hex_of(signature);
    let j: Json = Json::object3(
        "type",
        Json::text("PROXY"),
        "from",
        Json::text(from.as_str()),
        "to",
        Json::text(to.as_str()),
    ).with_field("proxyWallet", Json::text(proxy.as_str())).with_field(
        "data",
        Json::text(data.as_str()),
    ).with_field("nonce", Json::text(payload.nonce.as_str())).with_field(
        "signature",
        Json::text(sig.as_str()),
    ).with_field("signatureParams", signature_params(payload.address.as_str())).with_field(
        "metadata",
        Json::text(metadata),
    );
    assert(j@->Object_0 =~= submit_json(
        signer@,
        wallet@,
        prepared.data@,
        payload.nonce@,
        signature@,
        payload.address@,
        metadata@,
    )->Object_0);
    j
}

// Answers

/// What the relayer says of a transaction.
pub struct RelayerResponse {
    pub transaction_id: Option<String>,
    pub transaction_id_alt: Option<String>,
    pub state: Option<String>,
    pub hash: Option<String>,
    pub transaction_hash: Option<String>,
}

/// The transaction that an answer speaks of, under either of its names.
pub open spec fn id_of(r: RelayerResponse) -> Option<Text> {
    match r.transaction_id {
        Some(s) => Some(s@),
        None => json::opt_string(r.transaction_id_alt),
    }
}

impl RelayerResponse {
    /// The transaction that this answer speaks of.
    pub fn tx_id(&self) -> (id: Option<&str>)
        ensures
            json::opt_text(id) == id_of(*self),
    {
        match &self.transaction_id {
            Some(s) => Some(s.as_str()),
            None => match &self.transaction_id_alt {
                Some(s) => Some(s.as_str()),
                None => None,
            },
        }
    }
}

/// The transaction to wait for, or the fault that none is named.
pub fn submitted_id(r: &RelayerResponse) -> (id: Result<String, String>)
    ensures
        match (id, id_of(*r)) {
            (Ok(s), Some(t)) => s@ == t,
            (Err(m), None) => m@ == "no transaction ID in response"@,
            _ => false,
        },
{
    match r.tx_id() {
        Some(s) => Ok(s.to_owned()),
        None => Err("no transaction ID in response".to_owned()),
    }
}

/// What came back when the state of a transaction was asked for: no success, something that is
/// no JSON, or a value.
pub enum PollAnswer {
    NoSuccess,
    NoJson { body: String },
    Value { json: Json, body: String },
}

/// Whether an answer is what came back with a status and a body.
pub open spec fn is_answer(a: PollAnswer, success: bool, body: Text) -> bool {
    if !success {
        a is NoSuccess
    } else {
        match json_read::value_of_text(body) {
            Ok(v) => a matches PollAnswer::Value { json, body: b } && json@ == v && b@ == body,
            Err(_) => a matches PollAnswer::NoJson { body: b } && b@ == body,
        }
    }
}

/// What came back, from whether the status tells success and from the body.
pub fn poll_answer(success: bool, body: String) -> (a: PollAnswer)
    ensures
        is_answer(a, success, body@),
{
    if !success {
        return PollAnswer::NoSuccess;
    }
    match Json::parse(body.as_str()) {
        Ok(json) => PollAnswer::Value { json, body },
        Err(_) => PollAnswer::NoJson { body },
    }
}

/// What to do next: ask again later, or end with a result.
pub enum PollStep {
    Again,
    Finished(Result<RelayerResponse, String>),
}

/// The entry of an answer: the first of a list, or the answer itself.
pub open spec fn poll_entry(j: JsonView) -> JsonView {
    match j {
        JsonView::Array(items) => if items.len() > 0 { items[0] } else { JsonView::Null },
        _ => j,
    }
}

/// A text in an entry, or no text.
pub open spec fn entry_text(j: JsonView, key: Text) -> Text {
    match json::str_of(json::field(j, key)) {
        Some(s) => s,
        None => seq![],
    }
}

/// The state of a transaction that was carried out.
pub open spec fn is_complete(state: Text) -> bool {
    state == "STATE_CONFIRMED"@ || state == "STATE_MINED"@
}

/// What follows from an answer is the right thing: a transaction that was carried out gives its
/// state and hash, one that failed or is invalid a fault with the body, no JSON a fault, and
/// anything else another question.
pub open spec fn is_poll_step(step: PollStep, answer: PollAnswer, tx_id: Text) -> bool {
    match answer {
        PollAnswer::NoSuccess => step is Again,
        PollAnswer::NoJson { body } => step matches PollStep::Finished(Err(m)) && m@
            == "parsing poll response: "@ + body@,
        PollAnswer::Value { json, body } => {
            let state = entry_text(poll_entry(json@), "state"@);
            let hash = entry_text(poll_entry(json@), "transactionHash"@);
            if is_complete(state) {
                step matches PollStep::Finished(Ok(r)) && json::opt_string(r.transaction_id)
                    == Some(tx_id) && r.transaction_id_alt is None && json::opt_string(r.state)
                    == Some(state) && json::opt_string(r.hash) == Some(hash) && json::opt_string(
                    r.transaction_hash,
                ) == Some(hash)
            } else if state == "STATE_FAILED"@ {
                step matches PollStep::Finished(Err(m)) && m@ == "Transaction failed: "@ + body@
            } else if state == "STATE_INVALID"@ {
                step matches PollStep::Finished(Err(m)) && m@ == "Transaction invalid: "@ + body@
            } else {
                step is Again
            }
        },
    }
}

fn text_at(j: &Json, key: &str) -> (s: String)
    ensures
        s@ == entry_text(j@, key@),
{
    match j.str_field(key) {
        Some(s) => s.to_owned(),
        None => {
            let s: String = String::new();
            assert(s@ =~= seq![]);
            s
        },
    }
}

/// Reads what came back when the state of a transaction was asked for.
pub fn poll_step(answer: &PollAnswer, tx_id: &str) -> (step: PollStep)
    ensures
        is_poll_step(step, *answer, tx_id@),
{
    match answer {
        PollAnswer::NoSuccess => PollStep::Again,
        PollAnswer::NoJson { body } => PollStep::Finished(
            Err(join2("parsing poll response: ", body.as_str())),
        ),
        PollAnswer::Value { json, body } => {
            let none: Json = Json::Null;
            let entry: &Json = match json {
                Json::Array(items) => {
                    assert(json::items_view(items@).len() == items@.len());
                    if items.len() > 0 {
                        &items[0]
                    } else {
                        &none
                    }
                },
                _ => json,
            };
            assert(entry@ == poll_entry(json@));
            let state: String = text_at(entry, "state");
            let hash: String = text_at(entry, "transactionHash");
            let confirmed: bool = same_text(state.as_str(), "STATE_CONFIRMED");
            let mined: bool = same_text(state.as_str(), "STATE_MINED");
            if confirmed || mined {
                PollStep::Finished(
                    Ok(
                        RelayerResponse {
                            transaction_id: Some(tx_id.to_owned()),
                            transaction_id_alt: None,
                            state: Some(state),
                            hash: Some(hash.clone()),
                            transaction_hash: Some(hash),
                        },
                    ),
                )
            } else if same_text(state.as_str(), "STATE_FAILED") {
                PollStep::Finished(Err(join2("Transaction failed: ", body.as_str())))
            } else if same_text(state.as_str(), "STATE_INVALID") {
                PollStep::Finished(Err(join2("Transaction invalid: ", body.as_str())))
            } else {
                PollStep::Again
            }
        },
    }
}

/// The fault of a transaction that was not carried out in time.
pub fn poll_timeout() -> (m: String)
    ensures
        m@ == "Transaction did not confirm within timeout"@,
{
    "Transaction did not confirm within timeout".to_owned()
}

/// What follows a question for the state of a transaction: the end with a result, another
/// question after some seconds, or, after as many, the end without one.
pub enum PollNext {
    Finished(Result<RelayerResponse, String>),
    Ask { after_secs: u64 },
    GiveUp { after_secs: u64, reason: String },
}

/// What follows the question number `attempt`, counted from zero, and its step. A transaction
/// is asked for only so often.
pub fn after_poll(attempt: u32, step: PollStep) -> (next: PollNext)
    ensures
        match step {
            PollStep::Finished(r) => next == PollNext::Finished(r),
            PollStep::Again => if attempt + 1 >= POLL_ATTEMPTS {
                next matches PollNext::GiveUp { after_secs, reason } && after_secs == POLL_SECS
                    && reason@ == "Transaction did not confirm within timeout"@
            } else {
                next == (PollNext::Ask { after_secs: POLL_SECS })
            },
        },
{
    match step {
        PollStep::Finished(r) => PollNext::Finished(r),
        PollStep::Again => if attempt >= POLL_ATTEMPTS - 1 {
            PollNext::GiveUp { after_secs: POLL_SECS, reason: poll_timeout() }
        } else {
            PollNext::Ask { after_secs: POLL_SECS }
        },
    }
}

/// The words for a transaction that was carried out: its hash, if it has one.
pub fn transaction_words(r: &RelayerResponse) -> (s: String)
    ensures
        s@ == (match r.transaction_hash {
            Some(h) => h@,
            None => "pending"@,
        }),
{
    match &r.transaction_hash {
        Some(h) => h.clone(),
        None => "pending".to_owned(),
    }
}

// Laws

/// What is hashed begins with a tag and the signer, holds the data, the gas and the number of the
/// transaction, and ends with the hub and the relayer.
pub proof fn signed_calls_hold_all(
    signer: Seq<u8>,
    data: Seq<u8>,
    gas_limit: nat,
    nonce: nat,
    relay: Seq<u8>,
)
    ensures
        packed(signer, data, gas_limit, nonce, relay) == seq![0x72u8, 0x6c, 0x78, 0x3a] + (signer + (
        proxy_factory() + (data + (bytes::word(0) + (bytes::word(0) + (bytes::word(gas_limit) + (
        bytes::word(nonce) + (relay_hub() + relay)))))))),
{
    assert(packed(signer, data, gas_limit, nonce, relay) =~= seq![0x72u8, 0x6c, 0x78, 0x3a] + (signer
        + (proxy_factory() + (data + (bytes::word(0) + (bytes::word(0) + (bytes::word(gas_limit) + (
    bytes::word(nonce) + (relay_hub() + relay)))))))));
}

/// A request is signed with its time, its method, its path and its body, in this order.
pub proof fn requests_are_signed_whole(timestamp: nat, method: Text, path: Text, body: Text)
    ensures
        signed_text(timestamp, method, path, Some(body)) == text::nat_text(timestamp) + (method + (
        path + body)),
        signed_text(timestamp, method, path, None) == text::nat_text(timestamp) + (method + path),
{
    assert(signed_text(timestamp, method, path, Some(body)) =~= text::nat_text(timestamp) + (method
        + (path + body)));
    assert(signed_text(timestamp, method, path, None) =~= text::nat_text(timestamp) + (method
        + path));
}

/// The first reading of a secret that succeeds is taken.
pub proof fn first_reading_counts(a: Seq<u8>, b: Option<Seq<u8>>, c: Option<Seq<u8>>)
    ensures
        first_of(Some(a), b, c) == Some(a),
        first_of(None, Some(a), c) == Some(a),
        first_of(None, None, c) == c,
{
}

/// What the relayer is told of a request: who signs, for which wallet, the data, the number, the
/// signature and what it is for, each under its name.
pub proof fn relayers_are_told_all(
    signer: Seq<u8>,
    wallet: Seq<u8>,
    data: Seq<u8>,
    nonce: Text,
    signature: Seq<u8>,
    relay: Text,
    metadata: Text,
)
    ensures
        ({
            let j = submit_json(signer, wallet, data, nonce, signature, relay, metadata);
            let params = json::field(j, "signatureParams"@);
            &&& json::field(j, "type"@) == JsonView::Str("PROXY"@)
            &&& json::field(j, "from"@) == JsonView::Str(config::address_text(signer))
            &&& json::field(j, "to"@) == JsonView::Str(config::address_text(proxy_factory()))
            &&& json::field(j, "proxyWallet"@) == JsonView::Str(config::address_text(wallet))
            &&& json::field(j, "data"@) == JsonView::Str("0x"@ + bytes::hex_text(data))
            &&& json::field(j, "nonce"@) == JsonView::Str(nonce)
            &&& json::field(j, "signature"@) == JsonView::Str("0x"@ + bytes::hex_text(signature))
            &&& json::field(j, "metadata"@) == JsonView::Str(metadata)
            &&& json::field(params, "relay"@) == JsonView::Str(relay)
            &&& json::field(params, "gasLimit"@) == JsonView::Str(text::nat_text(500_000))
        }),
{
    let j = submit_json(signer, wallet, data, nonce, signature, relay, metadata);
    let fields = j->Object_0;
    reveal_strlit("type");
    reveal_strlit("from");
    reveal_strlit("to");
    reveal_strlit("proxyWallet");
    reveal_strlit("data");
    reveal_strlit("nonce");
    reveal_strlit("signature");
    reveal_strlit("signatureParams");
    reveal_strlit("metadata");
    assert("type"@[0] == 't' && "from"@[0] == 'f' && "data"@[0] == 'd' && "to"@.len() == 2);
    assert("proxyWallet"@.len() == 11 && "nonce"@.len() == 5 && "signature"@.len() == 9
        && "signatureParams"@.len() == 15 && "metadata"@.len() == 8 && "type"@.len() == 4
        && "from"@.len() == 4 && "data"@.len() == 4);
    json::first_fields_are_found(fields, 0);
    json::first_fields_are_found(fields, 1);
    json::first_fields_are_found(fields, 2);
    json::first_fields_are_found(fields, 3);
    json::first_fields_are_found(fields, 4);
    json::first_fields_are_found(fields, 5);
    json::first_fields_are_found(fields, 6);
    json::first_fields_are_found(fields, 7);
    json::first_fields_are_found(fields, 8);
    reveal_strlit("gasPrice");
    reveal_strlit("gasLimit");
    reveal_strlit("relayerFee");
    reveal_strlit("relayHub");
    reveal_strlit("relay");
    assert("gasPrice"@[3] == 'P' && "gasLimit"@[3] == 'L' && "relayHub"@[0] == 'r'
        && "relayerFee"@.len() == 10 && "relay"@.len() == 5 && "relayHub"@.len() == 8);
    let params = fields[7].1->Object_0;
    json::first_fields_are_found(params, 1);
    json::first_fields_are_found(params, 4);
}

/// A transaction that was mined or confirmed ends the questions with its hash; one that failed or
/// is invalid ends them with a fault; any other is asked for again.
pub proof fn questions_end_as_told(step: PollStep, json: Json, body: String, tx_id: Text, state: Text)
    requires
        is_poll_step(step, PollAnswer::Value { json, body }, tx_id),
        json@ is Object,
        json::field(json@, "state"@) == JsonView::Str(state),
    ensures
        state == "STATE_CONFIRMED"@ || state == "STATE_MINED"@ ==> step is Finished
            && step->Finished_0 is Ok && json::opt_string(step->Finished_0->Ok_0.state) == Some(state)
            && json::opt_string(step->Finished_0->Ok_0.transaction_id) == Some(tx_id) && (
        json::field(json@, "transactionHash"@) matches JsonView::Str(hash) ==> json::opt_string(
            step->Finished_0->Ok_0.transaction_hash,
        ) == Some(hash)),
        state == "STATE_FAILED"@ || state == "STATE_INVALID"@ ==> step is Finished
            && step->Finished_0 is Err,
        state != "STATE_CONFIRMED"@ && state != "STATE_MINED"@ && state != "STATE_FAILED"@ && state
            != "STATE_INVALID"@ ==> step is Again,
{
    reveal_strlit("STATE_CONFIRMED");
    reveal_strlit("STATE_MINED");
    reveal_strlit("STATE_FAILED");
    reveal_strlit("STATE_INVALID");
    assert("STATE_CONFIRMED"@.len() == 15 && "STATE_MINED"@.len() == 11 && "STATE_FAILED"@.len()
        == 12 && "STATE_INVALID"@.len() == 13);
}

/// A list is answered for by its first entry.
pub proof fn first_entries_answer(items: Seq<JsonView>)
    requires
        items.len() > 0,
    ensures
        poll_entry(JsonView::Array(items)) == items[0],
{
}

/// Nothing that a request needs is missing exactly where all three credentials are there.
pub proof fn credentials_are_all_needed(c: AppConfig)
    ensures
        missing_credential(c) is None <==> c.relayer_api_key is Some && c.relayer_api_secret is Some
            && c.relayer_passphrase is Some,
{
}

/// An answer is kept with its body, and with its value where the body is JSON; without success only
/// that is kept.
pub proof fn answers_are_kept(a: PollAnswer, body: Text)
    ensures
        is_answer(a, false, body) ==> a is NoSuccess,
        is_answer(a, true, body) ==> match json_read::value_of_text(body) {
            Ok(v) => a is Value && a->json@ == v && a->Value_body@ == body,
            Err(_) => a is NoJson && a->NoJson_body@ == body,
        },
{
}

} // verus!
