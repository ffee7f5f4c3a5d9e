//! The settings of the executor.

use vstd::prelude::*;
use vstd::string::*;

use crate::decimal;
use crate::decimal::{less_dec, parse_dec, Dec};
use crate::executor::bytes;
use crate::executor::bytes::hex_of;
use crate::executor::strategy::Num;
use crate::json;
use crate::number;
use crate::number::parse_u64;
use crate::poly_gamma;
use crate::poly_gamma::debug_form;
use crate::text;
use crate::text::{join2, join3, push_u64, same_text, Text};

verus! {

/// A setting that is missing or wrong.
pub enum ConfigError {
    Missing(String),
    InvalidAddress { name: String, value: String },
    InvalidValue { name: String, msg: String },
}

/// The message of a fault in the settings.
pub open spec fn config_message(e: ConfigError) -> Text {
    match e {
        ConfigError::Missing(name) => "missing required env var: "@ + name@,
        ConfigError::InvalidAddress { name, value } => "invalid address format for "@ + name@
            + ": "@ + value@,
        ConfigError::InvalidValue { name, msg } => "invalid value for "@ + name@ + ": "@ + msg@,
    }
}

impl ConfigError {
    /// The message of this fault.
    pub fn message(&self) -> (m: String)
        ensures
            m@ == config_message(*self),
    {
        match self {
            ConfigError::Missing(name) => join2("missing required env var: ", name.as_str()),
            ConfigError::InvalidAddress { name, value } => {
                let mut m: String = join3("invalid address format for ", name.as_str(), ": ");
                m.append(value.as_str());
                m
            },
            ConfigError::InvalidValue { name, msg } => {
                let mut m: String = join3("invalid value for ", name.as_str(), ": ");
                m.append(msg.as_str());
                m
            },
        }
    }
}

/// A secret, which only [`SecretString::expose`] gives away.
pub struct SecretString {
    secret: String,
}

impl View for SecretString {
    type V = Text;

    closed spec fn view(&self) -> Text {
        self.secret@
    }
}

impl SecretString {
    /// Keeps a secret.
    pub fn new(s: &str) -> (r: SecretString)
        ensures
            r@ == s@,
    {
        SecretString { secret: s.to_owned() }
    }

    /// The secret itself.
    pub fn expose(&self) -> (s: &str)
        ensures
            s@ == self@,
    {
        self.secret.as_str()
    }

    /// What is shown in place of the secret.
    pub fn shown(&self) -> (s: String)
        ensures
            s@ == redacted(*self),
    {
        "[REDACTED]".to_owned()
    }
}

/// What is shown in place of a secret.
pub open spec fn redacted(s: SecretString) -> Text {
    "[REDACTED]"@
}

/// How orders are signed.
#[derive(Clone, Copy, Debug, PartialEq, Eq, Structural)]
pub enum SignatureType {
    Eoa,
    Proxy,
    GnosisSafe,
    Poly1271,
}

/// The kind of signature that a text names.
pub open spec fn signature_named(s: Text) -> Option<SignatureType> {
    if s == "0"@ || s == "eoa"@ || s == "EOA"@ {
        Some(SignatureType::Eoa)
    } else if s == "1"@ || s == "proxy"@ || s == "PROXY"@ {
        Some(SignatureType::Proxy)
    } else if s == "2"@ || s == "gnosis_safe"@ || s == "GNOSIS_SAFE"@ {
        Some(SignatureType::GnosisSafe)
    } else if s == "3"@ || s == "poly1271"@ || s == "POLY1271"@ {
        Some(SignatureType::Poly1271)
    } else {
        None
    }
}

impl SignatureType {
    /// Reads the kind of signature.
    pub fn parse(s: &str) -> (r: Result<SignatureType, ConfigError>)
        ensures
            match signature_named(s@) {
                Some(kind) => r == Ok::<SignatureType, ConfigError>(kind),
                None => r matches Err(e) && config_message(e)
                    == "invalid value for "@ + "SIGNATURE_TYPE"@ + ": "@
                    + ("unknown signature type: "@ + s@),
            },
    {
        if same_text(s, "0") || same_text(s, "eoa") || same_text(s, "EOA") {
            Ok(SignatureType::Eoa)
        } else if same_text(s, "1") || same_text(s, "proxy") || same_text(s, "PROXY") {
            Ok(SignatureType::Proxy)
        } else if same_text(s, "2") || same_text(s, "gnosis_safe") || same_text(s, "GNOSIS_SAFE") {
            Ok(SignatureType::GnosisSafe)
        } else if same_text(s, "3") || same_text(s, "poly1271") || same_text(s, "POLY1271") {
            Ok(SignatureType::Poly1271)
        } else {
            Err(
                ConfigError::InvalidValue {
                    name: "SIGNATURE_TYPE".to_owned(),
                    msg: join2("unknown signature type: ", s),
                },
            )
        }
    }
}

// Truth values

/// The truth value that a text writes.
pub open spec fn bool_of_text(s: Text) -> Option<bool> {
    if s == "true"@ {
        Some(true)
    } else if s == "false"@ {
        Some(false)
    } else {
        None
    }
}

/// Reads a truth value.
pub fn parse_bool(s: &str) -> (b: Option<bool>)
    ensures
        b == bool_of_text(s@),
{
    if same_text(s, "true") {
        Some(true)
    } else if same_text(s, "false") {
        Some(false)
    } else {
        None
    }
}

// Addresses

/// The twenty bytes that `Address::from_str` reads in a text.
pub uninterp spec fn address_of_text(s: Seq<char>) -> Option<Seq<u8>>;

/// The text that an address has, with the checksum in the case of its letters.
pub uninterp spec fn address_text(bytes: Seq<u8>) -> Seq<char>;

/// What optional bytes hold.
pub open spec fn opt_bytes(b: Option<Vec<u8>>) -> Option<Seq<u8>> {
    match b {
        Some(b) => Some(b@),
        None => None,
    }
}

/// Reads an address with `alloy`'s `Address::from_str`. What it reads has twenty bytes, and
/// is a function of the text.
#[verifier::external_body]
pub(crate) fn parse_address(s: &str) -> (b: Option<Vec<u8>>)
    ensures
        opt_bytes(b) == address_of_text(s@),
        b matches Some(b) ==> b@.len() == 20,
{
    let parsed: Result<alloy::primitives::Address, _> = s.parse();
    parsed.ok().map(|a: alloy::primitives::Address| a.to_vec())
}

/// Writes an address with the `Display` of `alloy`'s `Address`, which depends on its bytes
/// alone.
#[verifier::external_body]
pub(crate) fn show_address(bytes: &Vec<u8>) -> (s: String)
    requires
        bytes@.len() == 20,
    ensures
        s@ == address_text(bytes@),
{
    format!("{}", alloy::primitives::Address::from_slice(bytes))
}

// Settings

/// The settings as they stand in the environment. `order_size` is the size of the orders of a
/// strategy: none where that is no number.
pub struct EnvVars {
    pub private_key: Option<String>,
    pub wallet_address: Option<String>,
    pub funder_address: Option<String>,
    pub signature_type: Option<String>,
    pub clob_host: Option<String>,
    pub gamma_host: Option<String>,
    pub bridge_host: Option<String>,
    pub rpc_url: Option<String>,
    pub relayer_host: Option<String>,
    pub relayer_api_key: Option<String>,
    pub relayer_api_secret: Option<String>,
    pub relayer_passphrase: Option<String>,
    pub chain_id: Option<String>,
    pub dry_run: Option<String>,
    pub enable_test_order: Option<String>,
    pub max_order_size: Option<String>,
    pub max_position_size: Option<String>,
    pub order_price_min: Option<String>,
    pub order_price_max: Option<String>,
    pub strategy: Option<String>,
    pub split_amount: Option<String>,
    pub order_size: Option<Num>,
    pub max_markets: Option<String>,
}

/// The settings of the executor.
pub struct AppConfig {
    pub private_key: SecretString,
    pub wallet_address: Vec<u8>,
    pub funder_address: Option<Vec<u8>>,
    pub signature_type: SignatureType,
    pub clob_host: String,
    pub gamma_host: String,
    pub bridge_host: String,
    pub rpc_url: String,
    pub chain_id: u64,
    pub dry_run: bool,
    pub enable_test_order: bool,
    pub max_order_size: Dec,
    pub max_position_size: Dec,
    pub order_price_min: Dec,
    pub order_price_max: Dec,
    pub relayer_host: String,
    pub relayer_api_key: Option<SecretString>,
    pub relayer_api_secret: Option<SecretString>,
    pub relayer_passphrase: Option<SecretString>,
    pub strategy_name: String,
    pub split_amount: u64,
    pub strategy_order_size: Num,
    pub max_markets: u64,
}

impl AppConfig {
    /// The limits can be computed with, and addresses have twenty bytes.
    pub open spec fn wf(self) -> bool {
        &&& self.max_order_size.wf()
        &&& self.max_position_size.wf()
        &&& self.order_price_min.wf()
        &&& self.order_price_max.wf()
        &&& self.wallet_address@.len() == 20
        &&& self.funder_address matches Some(f) ==> f@.len() == 20
    }

    /// The limits make sense: prices lie between zero and one, the lowest below the highest,
    /// and orders may have a size.
    pub open spec fn sound_limits(self) -> bool {
        limits_are_sound(self.order_price_min, self.order_price_max, self.max_order_size)
    }
}

/// Prices lie between zero and one, the lowest below the highest, and orders may have a size.
pub open spec fn limits_are_sound(low: Dec, high: Dec, order: Dec) -> bool {
    let zero = Dec { mantissa: 0, scale: 0 };
    let one = Dec { mantissa: 1, scale: 0 };
    low.less(high) && zero.less(low) && high.less(one) && zero.less(order)
}

/// A text, or another one where it is not set.
pub open spec fn text_or(v: Option<Text>, default: Text) -> Text {
    match v {
        Some(s) => s,
        None => default,
    }
}

/// A text that is set and not empty.
pub open spec fn filled(v: Option<Text>) -> Option<Text> {
    match v {
        Some(s) => if s.len() > 0 { Some(s) } else { None },
        None => None,
    }
}

/// A number, or another one where it is not set. None where what is set is no number.
pub open spec fn u64_or(v: Option<Text>, default: u64) -> Option<u64> {
    match filled(v) {
        Some(s) => number::u64_of_text(s),
        None => Some(default),
    }
}

/// A truth value, or another one where it is not set. None where what is set is none.
pub open spec fn bool_or(v: Option<Text>, default: bool) -> Option<bool> {
    match filled(v) {
        Some(s) => bool_of_text(s),
        None => Some(default),
    }
}

/// A decimal number, or another one where it is not set. None where what is set is none.
pub open spec fn dec_or(v: Option<Text>, default: Dec) -> Option<Dec> {
    match filled(v) {
        Some(s) => decimal::opt_dec(decimal::decimal_of_text(s)),
        None => Some(default),
    }
}

/// An address that is set and can be read.
pub open spec fn optional_address(v: Option<Text>) -> Option<Seq<u8>> {
    match filled(v) {
        Some(s) => address_of_text(s),
        None => None,
    }
}

/// All settings that have to be there are there and can be read, and the limits make sense.
pub open spec fn acceptable(v: EnvVars) -> bool {
    &&& v.private_key is Some
    &&& v.wallet_address matches Some(w) && address_of_text(w@) is Some
    &&& signature_named(text_or(json::opt_string(v.signature_type), "0"@)) is Some
    &&& u64_or(json::opt_string(v.chain_id), 137) is Some
    &&& bool_or(json::opt_string(v.dry_run), true) is Some
    &&& bool_or(json::opt_string(v.enable_test_order), false) is Some
    &&& dec_or(json::opt_string(v.max_order_size), Dec { mantissa: 10, scale: 0 }) is Some
    &&& dec_or(json::opt_string(v.max_position_size), Dec { mantissa: 50, scale: 0 }) is Some
    &&& dec_or(json::opt_string(v.order_price_min), Dec { mantissa: 5, scale: 2 }) is Some
    &&& dec_or(json::opt_string(v.order_price_max), Dec { mantissa: 95, scale: 2 }) is Some
    &&& u64_or(json::opt_string(v.split_amount), 10) is Some
    &&& v.order_size is Some
    &&& u64_or(json::opt_string(v.max_markets), 0) is Some
    &&& limits_are_sound(
        dec_or(json::opt_string(v.order_price_min), Dec { mantissa: 5, scale: 2 })->0,
        dec_or(json::opt_string(v.order_price_max), Dec { mantissa: 95, scale: 2 })->0,
        dec_or(json::opt_string(v.max_order_size), Dec { mantissa: 10, scale: 0 })->0,
    )
}

/// What optional secrets hold.
pub open spec fn opt_secret(s: Option<SecretString>) -> Option<Text> {
    match s {
        Some(s) => Some(s@),
        None => None,
    }
}

/// The settings that acceptable variables give.
pub open spec fn settings_match(v: EnvVars, c: AppConfig) -> bool {
    &&& c.private_key@ == v.private_key->0@
    &&& Some(c.wallet_address@) == address_of_text(v.wallet_address->0@)
    &&& opt_bytes(c.funder_address) == optional_address(json::opt_string(v.funder_address))
    &&& Some(c.signature_type) == signature_named(
        text_or(json::opt_string(v.signature_type), "0"@),
    )
    &&& c.clob_host@ == text_or(json::opt_string(v.clob_host), "https://clob.polymarket.com"@)
    &&& c.gamma_host@ == text_or(
        json::opt_string(v.gamma_host),
        "https://gamma-api.polymarket.com"@,
    )
    &&& c.bridge_host@ == text_or(
        json::opt_string(v.bridge_host),
        "https://bridge.polymarket.com"@,
    )
    &&& c.rpc_url@ == text_or(json::opt_string(v.rpc_url), "https://polygon-rpc.com"@)
    &&& c.relayer_host@ == text_or(
        json::opt_string(v.relayer_host),
        "https://relayer-v2.polymarket.com"@,
    )
    &&& opt_secret(c.relayer_api_key) == filled(json::opt_string(v.relayer_api_key))
    &&& opt_secret(c.relayer_api_secret) == filled(json::opt_string(v.relayer_api_secret))
    &&& opt_secret(c.relayer_passphrase) == filled(json::opt_string(v.relayer_passphrase))
    &&& Some(c.chain_id) == u64_or(json::opt_string(v.chain_id), 137)
    &&& Some(c.dry_run) == bool_or(json::opt_string(v.dry_run), true)
    &&& Some(c.enable_test_order) == bool_or(json::opt_string(v.enable_test_order), false)
    &&& Some(c.max_order_size) == dec_or(
        json::opt_string(v.max_order_size),
        Dec { mantissa: 10, scale: 0 },
    )
    &&& Some(c.max_position_size) == dec_or(
        json::opt_string(v.max_position_size),
        Dec { mantissa: 50, scale: 0 },
    )
    &&& Some(c.order_price_min) == dec_or(
        json::opt_string(v.order_price_min),
        Dec { mantissa: 5, scale: 2 },
    )
    &&& Some(c.order_price_max) == dec_or(
        json::opt_string(v.order_price_max),
        Dec { mantissa: 95, scale: 2 },
    )
    &&& c.strategy_name@ == text_or(json::opt_string(v.strategy), "noop"@)
    &&& Some(c.split_amount) == u64_or(json::opt_string(v.split_amount), 10)
    &&& c.strategy_order_size@ == v.order_size->0@
    &&& Some(c.max_markets) == u64_or(json::opt_string(v.max_markets), 0)
}

fn or_text(v: &Option<String>, default: &str) -> (s: String)
    ensures
        s@ == text_or(json::opt_string(*v), default@),
{
    match v {
        Some(s) => s.clone(),
        None => default.to_owned(),
    }
}

fn if_filled(v: &Option<String>) -> (s: Option<&str>)
    ensures
        json::opt_text(s) == filled(json::opt_string(*v)),
{
    match v {
        Some(s) => if s.as_str().is_empty() { None } else { Some(s.as_str()) },
        None => None,
    }
}

fn secret_if_filled(v: &Option<String>) -> (s: Option<SecretString>)
    ensures
        opt_secret(s) == filled(json::opt_string(*v)),
{
    match if_filled(v) {
        Some(s) => Some(SecretString::new(s)),
        None => None,
    }
}

fn or_u64(v: &Option<String>, default: u64) -> (n: Option<u64>)
    ensures
        n == u64_or(json::opt_string(*v), default),
{
    match if_filled(v) {
        Some(s) => parse_u64(s),
        None => Some(default),
    }
}

fn or_bool(v: &Option<String>, default: bool) -> (b: Option<bool>)
    ensures
        b == bool_or(json::opt_string(*v), default),
{
    match if_filled(v) {
        Some(s) => parse_bool(s),
        None => Some(default),
    }
}

fn or_dec(v: &Option<String>, default: Dec) -> (d: Option<Dec>)
    requires
        default.wf(),
    ensures
        d == dec_or(json::opt_string(*v), default),
        d matches Some(d) ==> d.wf(),
{
    match if_filled(v) {
        Some(s) => {
            let d: Option<Dec> = parse_dec(s);
            assert(d == decimal::opt_dec(decimal::opt_parts(d)));
            d
        },
        None => Some(default),
    }
}

fn sound(low: Dec, high: Dec, order: Dec) -> (b: bool)
    requires
        low.wf(),
        high.wf(),
        order.wf(),
    ensures
        b == limits_are_sound(low, high, order),
{
    let zero: Dec = Dec { mantissa: 0, scale: 0 };
    let one: Dec = Dec { mantissa: 1, scale: 0 };
    less_dec(low, high) && less_dec(zero, low) && less_dec(high, one) && less_dec(zero, order)
}

impl AppConfig {
    /// Reads the settings; none where one that has to be there is missing, one cannot be read,
    /// or the limits make no sense.
    pub fn try_from_env(v: &EnvVars) -> (c: Option<AppConfig>)
        ensures
            c is Some <==> acceptable(*v),
            c matches Some(c) ==> settings_match(*v, c) && c.wf() && c.sound_limits(),
    {
        let private_key: SecretString = match &v.private_key {
            Some(s) => SecretString::new(s.as_str()),
            None => {
                return None;
            },
        };
        let wallet_address: Vec<u8> = match &v.wallet_address {
            Some(s) => match parse_address(s.as_str()) {
                Some(a) => a,
                None => {
                    return None;
                },
            },
            None => {
                return None;
            },
        };
        let funder_address: Option<Vec<u8>> = match if_filled(&v.funder_address) {
            Some(s) => parse_address(s),
            None => None,
        };
        let named: String = or_text(&v.signature_type, "0");
        let signature_type: SignatureType = match SignatureType::parse(named.as_str()) {
            Ok(kind) => kind,
            Err(_) => {
                return None;
            },
        };
        match (
            or_u64(&v.chain_id, 137),
            or_bool(&v.dry_run, true),
            or_bool(&v.enable_test_order, false),
            or_u64(&v.split_amount, 10),
            &v.order_size,
            or_u64(&v.max_markets, 0),
        ) {
            (
                Some(chain_id),
                Some(dry_run),
                Some(enable_test_order),
                Some(split_amount),
                Some(order_size),
                Some(max_markets),
            ) => match (
                or_dec(&v.max_order_size, Dec { mantissa: 10, scale: 0 }),
                or_dec(&v.max_position_size, Dec { mantissa: 50, scale: 0 }),
                or_dec(&v.order_price_min, Dec { mantissa: 5, scale: 2 }),
                or_dec(&v.order_price_max, Dec { mantissa: 95, scale: 2 }),
            ) {
                (
                    Some(max_order_size),
                    Some(max_position_size),
                    Some(order_price_min),
                    Some(order_price_max),
                ) => {
                    if !sound(order_price_min, order_price_max, max_order_size) {
                        return None;
                    }
                    Some(
                        AppConfig {
                            private_key,
                            wallet_address,
                            funder_address,
                            signature_type,
                            clob_host: or_text(&v.clob_host, "https://clob.polymarket.com"),
                            gamma_host: or_text(
                                &v.gamma_host,
                                "https://gamma-api.polymarket.com",
                            ),
                            bridge_host: or_text(&v.bridge_host, "https://bridge.polymarket.com"),
                            rpc_url: or_text(&v.rpc_url, "https://polygon-rpc.com"),
                            chain_id,
                            dry_run,
                            enable_test_order,
                            max_order_size,
                            max_position_size,
                            order_price_min,
                            order_price_max,
                            relayer_host: or_text(
                                &v.relayer_host,
                                "https://relayer-v2.polymarket.com",
                            ),
                            relayer_api_key: secret_if_filled(&v.relayer_api_key),
                            relayer_api_secret: secret_if_filled(&v.relayer_api_secret),
                            relayer_passphrase: secret_if_filled(&v.relayer_passphrase),
                            strategy_name: or_text(&v.strategy, "noop"),
                            split_amount,
                            strategy_order_size: order_size.duplicate(),
                            max_markets,
                        },
                    )
                },
                _ => None,
            },
            _ => None,
        }
    }

    /// Reads the settings, or tells that they are missing.
    pub fn from_env(v: &EnvVars) -> (r: Result<AppConfig, ConfigError>)
        ensures
            r is Ok <==> acceptable(*v),
            r matches Ok(c) ==> settings_match(*v, c) && c.wf() && c.sound_limits(),
            r matches Err(e) ==> config_message(e) == "missing required env var: "@
                + "PRIVATE_KEY or POLYMARKET_WALLET_ADDRESS"@,
    {
        match AppConfig::try_from_env(v) {
            Some(c) => Ok(c),
            None => Err(
                ConfigError::Missing("PRIVATE_KEY or POLYMARKET_WALLET_ADDRESS".to_owned()),
            ),
        }
    }
}

// The text of the settings

/// The word for a kind of signature.
pub open spec fn signature_word(t: SignatureType) -> Text {
    match t {
        SignatureType::Eoa => "Eoa"@,
        SignatureType::Proxy => "Proxy"@,
        SignatureType::GnosisSafe => "GnosisSafe"@,
        SignatureType::Poly1271 => "Poly1271"@,
    }
}

/// The word for a truth value.
pub open spec fn bool_word(b: bool) -> Text {
    if b { "true"@ } else { "false"@ }
}

/// Whether a secret is set.
pub open spec fn set_word(s: Option<SecretString>) -> Text {
    match s {
        Some(_) => "Some(\"[SET]\")"@,
        None => "None"@,
    }
}

/// The bytes of an address that may be missing.
pub open spec fn address_word(a: Option<Vec<u8>>) -> Text {
    match a {
        Some(a) => "Some("@ + ("0x"@ + bytes::hex_text(a@)) + ")"@,
        None => "None"@,
    }
}

/// The text of the settings, given that of the size of the orders. Of the secrets it only tells
/// which are set.
pub open spec fn settings_text(c: AppConfig, order_size: Text) -> Text {
    "AppConfig { private_key: "@ + redacted(c.private_key) + ", wallet_address: "@
        + ("0x"@ + bytes::hex_text(c.wallet_address@)) + ", funder_address: "@ + address_word(c.funder_address)
        + ", signature_type: "@ + signature_word(c.signature_type) + ", clob_host: "@
        + poly_gamma::debug_text(c.clob_host@) + ", gamma_host: "@ + poly_gamma::debug_text(
        c.gamma_host@,
    ) + ", bridge_host: "@ + poly_gamma::debug_text(c.bridge_host@) + ", rpc_url: "@
        + poly_gamma::debug_text(c.rpc_url@) + ", chain_id: "@ + text::nat_text(c.chain_id as nat)
        + ", dry_run: "@ + bool_word(c.dry_run) + ", enable_test_order: "@ + bool_word(
        c.enable_test_order,
    ) + ", max_order_size: "@ + decimal::dec_text(c.max_order_size) + ", max_position_size: "@
        + decimal::dec_text(c.max_position_size) + ", order_price_min: "@ + decimal::dec_text(
        c.order_price_min,
    ) + ", order_price_max: "@ + decimal::dec_text(c.order_price_max) + ", relayer_host: "@
        + poly_gamma::debug_text(c.relayer_host@) + ", relayer_api_key: "@ + set_word(
        c.relayer_api_key,
    ) + ", relayer_api_secret: "@ + set_word(c.relayer_api_secret) + ", relayer_passphrase: "@
        + set_word(c.relayer_passphrase) + ", strategy_name: "@ + poly_gamma::debug_text(
        c.strategy_name@,
    ) + ", split_amount: "@ + text::nat_text(c.split_amount as nat) + ", strategy_order_size: "@
        + order_size + ", max_markets: "@ + text::nat_text(c.max_markets as nat) + " }"@
}

fn name_signature(t: SignatureType) -> (s: &'static str)
    ensures
        s@ == signature_word(t),
{
    match t {
        SignatureType::Eoa => "Eoa",
        SignatureType::Proxy => "Proxy",
        SignatureType::GnosisSafe => "GnosisSafe",
        SignatureType::Poly1271 => "Poly1271",
    }
}

fn name_bool(b: bool) -> (s: &'static str)
    ensures
        s@ == bool_word(b),
{
    if b { "true" } else { "false" }
}

fn name_set(s: &Option<SecretString>) -> (r: &'static str)
    ensures
        r@ == set_word(*s),
{
    match s {
        Some(_) => "Some(\"[SET]\")",
        None => "None",
    }
}

fn name_address(a: &Option<Vec<u8>>) -> (s: String)
    ensures
        s@ == address_word(*a),
{
    match a {
        Some(a) => join3("Some(", hex_of(a).as_str(), ")"),
        None => "None".to_owned(),
    }
}

impl AppConfig {
    /// The text of these settings, given that of the size of the orders. Of the secrets it only
    /// tells which are set.
    pub fn shown(&self, order_size: &str) -> (s: String)
        requires
            self.wf(),
        ensures
            s@ == settings_text(*self, order_size@),
    {
        let mut s: String = join2("AppConfig { private_key: ", self.private_key.shown().as_str());
        s.append(", wallet_address: ");
        s.append(hex_of(&self.wallet_address).as_str());
        s.append(", funder_address: ");
        s.append(name_address(&self.funder_address).as_str());
        s.append(", signature_type: ");
        s.append(name_signature(self.signature_type));
        s.append(", clob_host: ");
        s.append(debug_form(self.clob_host.as_str()).as_str());
        s.append(", gamma_host: ");
        s.append(debug_form(self.gamma_host.as_str()).as_str());
        s.append(", bridge_host: ");
        s.append(debug_form(self.bridge_host.as_str()).as_str());
        s.append(", rpc_url: ");
        s.append(debug_form(self.rpc_url.as_str()).as_str());
        s.append(", chain_id: ");
        push_u64(&mut s, self.chain_id);
        s.append(", dry_run: ");
        s.append(name_bool(self.dry_run));
        s.append(", enable_test_order: ");
        s.append(name_bool(self.enable_test_order));
        s.append(", max_order_size: ");
        s.append(self.max_order_size.to_text().as_str());
        s.append(", max_position_size: ");
        s.append(self.max_position_size.to_text().as_str());
        s.append(", order_price_min: ");
        s.append(self.order_price_min.to_text().as_str());
        s.append(", order_price_max: ");
        s.append(self.order_price_max.to_text().as_str());
        s.append(", relayer_host: ");
        s.append(debug_form(self.relayer_host.as_str()).as_str());
        s.append(", relayer_api_key: ");
        s.append(name_set(&self.relayer_api_key));
        s.append(", relayer_api_secret: ");
        s.append(name_set(&self.relayer_api_secret));
        s.append(", relayer_passphrase: ");
        s.append(name_set(&self.relayer_passphrase));
        s.append(", strategy_name: ");
        s.append(debug_form(self.strategy_name.as_str()).as_str());
        s.append(", split_amount: ");
        push_u64(&mut s, self.split_amount);
        s.append(", strategy_order_size: ");
        s.append(order_size);
        s.append(", max_markets: ");
        push_u64(&mut s, self.max_markets);
        s.append(" }");
        s
    }
}

/// The text of the settings tells nothing of the secrets but which are set: it stays the same
/// whatever else they are.
pub proof fn secrets_do_not_show(
    c: AppConfig,
    private_key: SecretString,
    api_key: SecretString,
    api_secret: SecretString,
    passphrase: SecretString,
    order_size: Text,
)
    ensures
        settings_text(
            AppConfig {
                private_key,
                relayer_api_key: if c.relayer_api_key is Some { Some(api_key) } else { None },
                relayer_api_secret: if c.relayer_api_secret is Some {
                    Some(api_secret)
                } else {
                    None
                },
                relayer_passphrase: if c.relayer_passphrase is Some {
                    Some(passphrase)
                } else {
                    None
                },
                ..c
            },
            order_size,
        ) == settings_text(c, order_size),
{
}

/// Orders are only rehearsed unless they are told not to be, and test orders are not placed unless
/// they are enabled.
pub proof fn orders_are_rehearsed_by_default(v: EnvVars, c: AppConfig)
    requires
        settings_match(v, c),
        acceptable(v),
    ensures
        c.dry_run <==> v.dry_run is None || v.dry_run->0@.len() == 0 || v.dry_run->0@ == "true"@,
        c.enable_test_order <==> v.enable_test_order is Some && v.enable_test_order->0@ == "true"@,
{
    reveal_strlit("true");
    reveal_strlit("false");
    assert("true"@.len() == 4 && "false"@.len() == 5);
}

/// A setting that is set is taken as it is, and one that is not has its default.
pub proof fn settings_are_taken(v: EnvVars, c: AppConfig)
    requires
        settings_match(v, c),
        acceptable(v),
    ensures
        c.private_key@ == v.private_key->0@,
        Some(c.wallet_address@) == address_of_text(v.wallet_address->0@),
        v.clob_host matches Some(s) ==> c.clob_host@ == s@,
        v.gamma_host matches Some(s) ==> c.gamma_host@ == s@,
        v.bridge_host matches Some(s) ==> c.bridge_host@ == s@,
        v.rpc_url matches Some(s) ==> c.rpc_url@ == s@,
        v.relayer_host matches Some(s) ==> c.relayer_host@ == s@,
        v.strategy matches Some(s) ==> c.strategy_name@ == s@,
        v.strategy is None ==> c.strategy_name@ == "noop"@,
        v.signature_type is None ==> c.signature_type == SignatureType::Eoa,
        v.chain_id is None ==> c.chain_id == 137,
        v.split_amount is None ==> c.split_amount == 10,
        v.max_markets is None ==> c.max_markets == 0,
        v.max_order_size is None ==> c.max_order_size == (Dec { mantissa: 10, scale: 0 }),
        v.max_position_size is None ==> c.max_position_size == (Dec { mantissa: 50, scale: 0 }),
        v.order_price_min is None ==> c.order_price_min == (Dec { mantissa: 5, scale: 2 }),
        v.order_price_max is None ==> c.order_price_max == (Dec { mantissa: 95, scale: 2 }),
        v.max_order_size matches Some(s) ==> (s@.len() > 0 ==> Some(c.max_order_size.parts())
            == decimal::decimal_of_text(s@)),
        v.max_position_size matches Some(s) ==> (s@.len() > 0 ==> Some(c.max_position_size.parts())
            == decimal::decimal_of_text(s@)),
        v.order_price_min matches Some(s) ==> (s@.len() > 0 ==> Some(c.order_price_min.parts())
            == decimal::decimal_of_text(s@)),
        v.order_price_max matches Some(s) ==> (s@.len() > 0 ==> Some(c.order_price_max.parts())
            == decimal::decimal_of_text(s@)),
        v.chain_id matches Some(s) ==> (s@.len() > 0 ==> Some(c.chain_id) == number::u64_of_text(
            s@,
        )),
        v.split_amount matches Some(s) ==> (s@.len() > 0 ==> Some(c.split_amount)
            == number::u64_of_text(s@)),
        v.max_markets matches Some(s) ==> (s@.len() > 0 ==> Some(c.max_markets)
            == number::u64_of_text(s@)),
        v.relayer_api_key matches Some(s) ==> (s@.len() > 0 ==> c.relayer_api_key is Some
            && c.relayer_api_key->0@ == s@),
        v.relayer_api_secret matches Some(s) ==> (s@.len() > 0 ==> c.relayer_api_secret is Some
            && c.relayer_api_secret->0@ == s@),
        v.relayer_passphrase matches Some(s) ==> (s@.len() > 0 ==> c.relayer_passphrase is Some
            && c.relayer_passphrase->0@ == s@),
        v.funder_address matches Some(s) ==> (s@.len() > 0 ==> opt_bytes(c.funder_address)
            == address_of_text(s@)),
        v.order_size matches Some(n) ==> c.strategy_order_size@ == n@,
{
}

/// Settings are accepted only with a key, a wallet and limits that make sense: prices between zero
/// and one, the lowest below the highest, and orders of some size.
pub proof fn accepted_settings_make_sense(v: EnvVars, c: AppConfig)
    requires
        settings_match(v, c),
        acceptable(v),
    ensures
        v.private_key is Some && v.wallet_address is Some,
        c.order_price_min.less(c.order_price_max),
        (Dec { mantissa: 0, scale: 0 }).less(c.order_price_min),
        c.order_price_max.less(Dec { mantissa: 1, scale: 0 }),
        (Dec { mantissa: 0, scale: 0 }).less(c.max_order_size),
{
}

/// The kinds of signature go by a digit or by their name, in small or in capital letters.
pub proof fn signatures_are_named(s: Text)
    ensures
        signature_named(s) == Some(SignatureType::Eoa) <==> s == "0"@ || s == "eoa"@ || s == "EOA"@,
        signature_named(s) == Some(SignatureType::Proxy) <==> s == "1"@ || s == "proxy"@ || s
            == "PROXY"@,
        signature_named(s) == Some(SignatureType::GnosisSafe) <==> s == "2"@ || s == "gnosis_safe"@
            || s == "GNOSIS_SAFE"@,
        signature_named(s) == Some(SignatureType::Poly1271) <==> s == "3"@ || s == "poly1271"@ || s
            == "POLY1271"@,
{
    reveal_strlit("0");
    reveal_strlit("1");
    reveal_strlit("2");
    reveal_strlit("3");
    reveal_strlit("eoa");
    reveal_strlit("EOA");
    reveal_strlit("proxy");
    reveal_strlit("PROXY");
    reveal_strlit("gnosis_safe");
    reveal_strlit("GNOSIS_SAFE");
    reveal_strlit("poly1271");
    reveal_strlit("POLY1271");
    assert("0"@.len() == 1 && "1"@.len() == 1 && "2"@.len() == 1 && "3"@.len() == 1);
    assert("0"@[0] == '0' && "1"@[0] == '1' && "2"@[0] == '2' && "3"@[0] == '3');
    assert("eoa"@.len() == 3 && "EOA"@.len() == 3 && "proxy"@.len() == 5 && "PROXY"@.len() == 5);
    assert("gnosis_safe"@.len() == 11 && "GNOSIS_SAFE"@.len() == 11 && "poly1271"@.len() == 8
        && "POLY1271"@.len() == 8);
}

/// A setting that is set to nothing counts as not set.
pub proof fn empty_settings_have_their_defaults(n: u64, b: bool, d: Dec)
    ensures
        u64_or(Some(Seq::empty()), n) == Some(n) && u64_or(None, n) == Some(n),
        bool_or(Some(Seq::empty()), b) == Some(b) && bool_or(None, b) == Some(b),
        dec_or(Some(Seq::empty()), d) == Some(d) && dec_or(None, d) == Some(d),
        optional_address(Some(Seq::empty())) is None && optional_address(None) is None,
        filled(Some(Seq::empty())) is None && filled(None) is None,
{
}

/// The words of the settings say what is set.
pub proof fn settings_are_worded(b: bool, s: Option<SecretString>)
    ensures
        bool_word(b) == "true"@ <==> b,
        bool_word(b) == "false"@ <==> !b,
        set_word(s) == "None"@ <==> s is None,
        bool_of_text(bool_word(b)) == Some(b),
{
    reveal_strlit("true");
    reveal_strlit("false");
    reveal_strlit("None");
    reveal_strlit("Some(\"[SET]\")");
    assert("true"@.len() == 4 && "false"@.len() == 5 && "None"@.len() == 4);
    assert("Some(\"[SET]\")"@.len() == 13);
}

} // verus!
