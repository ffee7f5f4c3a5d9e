//! Timing constants, addresses and file names.

use vstd::prelude::*;
use vstd::string::*;

use crate::json;
use crate::json::{Json, JsonView};
use crate::text;
use crate::text::{join3, Text};

verus! {

/// Seconds before its start at which collection of a market begins.
pub const PRE_START_SECONDS: u64 = 70;

/// Length of a market, in seconds.
pub const MARKET_DURATION: u64 = 300;

/// Seconds of collection after the end of a market.
pub const TAIL_SECONDS: u64 = 20;

/// Distance between the starts of two markets, in seconds.
pub const MARKET_INTERVAL: u64 = 300;

/// Seconds after the start of a market until which its metadata is looked up.
pub const GAMMA_LOOKUP_DEADLINE: u64 = 10;

/// First delay between two lookups, in seconds.
pub const GAMMA_RETRY_BASE_SECS: u64 = 1;

/// Longest delay between two lookups, in seconds.
pub const GAMMA_RETRY_MAX_SECS: u64 = 8;

/// First delay before a reconnect, in seconds.
pub const WS_RECONNECT_BASE_SECS: u64 = 1;

/// Longest delay before a reconnect, in seconds.
pub const WS_RECONNECT_MAX_SECS: u64 = 16;

/// Number of redundant connections to the prediction market.
pub const POLY_WS_CONNECTIONS: usize = 10;

/// How often a failed worker is started again.
pub const MAX_RESTARTS: u32 = 1;

/// Interval between two fair value computations, in milliseconds.
pub const FV_TICK_MS: u64 = 100;

/// Book levels that enter the depth microprice.
pub const FV_DEPTH_LEVELS: usize = 10;

/// Book levels that enter the book imbalance.
pub const FV_IMBALANCE_LEVELS: usize = 10;

pub const GAMMA_API_BASE: &'static str = "https://gamma-api.polymarket.com";

pub const POLYMARKET_WS_URL: &'static str = "wss://ws-subscriptions-clob.polymarket.com/ws/market";

pub const BINANCE_WS_URL: &'static str =
    "wss://stream.binance.com:9443/stream?streams=btcusdt@bookTicker/btcusdt@depth@100ms/btcusdt@trade";

pub const BINANCE_DEPTH_SNAPSHOT_URL: &'static str =
    "https://api.binance.com/api/v3/depth?symbol=BTCUSDT&limit=5000";

pub const CLOB_FILENAME: &'static str = "clob.jsonl";

pub const DEPTH_FILENAME: &'static str = "depth-trade.jsonl";

pub const FV_FILENAME: &'static str = "fair-value.jsonl";

/// The address at which the metadata of the market `slug` is found.
pub fn gamma_market_url(slug: &str) -> (url: String)
    ensures
        url@ == GAMMA_API_BASE@ + "/markets/slug/"@ + slug@,
{
    join3(GAMMA_API_BASE, "/markets/slug/", slug)
}

/// The delay that follows `delay`: twice as long, and at most `longest`.
pub open spec fn next_delay(delay: int, longest: int) -> int {
    if delay * 2 <= longest { delay * 2 } else { longest }
}

/// The delay that follows `delay`: twice as long, and at most `longest`.
pub fn double_delay(delay: u64, longest: u64) -> (next: u64)
    ensures
        next == next_delay(delay as int, longest as int),
{
    if delay <= longest / 2 { delay * 2 } else { longest }
}

/// What a collector does after a connection ended or could not be made.
#[derive(Clone, Copy, Debug, PartialEq, Eq, Structural)]
pub enum Next {
    /// It makes another connection after so many seconds.
    Connect { after_secs: u64 },
    /// It ends.
    Stop,
}

/// What a collector does next: it ends where it is to stop, and connects again otherwise.
pub open spec fn next_connection(stopping: bool, delay: u64) -> Next {
    if stopping { Next::Stop } else { Next::Connect { after_secs: delay } }
}

/// What a collector does next: it ends where it is to stop, and connects again otherwise.
pub fn after_connection(stopping: bool, delay: u64) -> (next: Next)
    ensures
        next == next_connection(stopping, delay),
{
    if stopping { Next::Stop } else { Next::Connect { after_secs: delay } }
}

/// How a connection came to its end: whether the collector was to stop then, and the delay
/// before another one.
pub struct End {
    pub stopping: bool,
    pub delay: u64,
}

/// Whether a collector that went through these ends makes another connection.
pub open spec fn connects_again(ends: Seq<End>) -> bool
    decreases ends.len(),
{
    ends.len() == 0 || (connects_again(ends.drop_last()) && next_connection(
        ends.last().stopping,
        ends.last().delay,
    ) is Connect)
}

/// Only a stop ends a collector: however many connections ended or failed, another one is
/// made unless it was to stop at one of those ends.
pub proof fn only_a_stop_ends_a_collector(ends: Seq<End>)
    ensures
        connects_again(ends) <==> forall|i: int|
            0 <= i < ends.len() ==> !(#[trigger] ends[i]).stopping,
    decreases ends.len(),
{
    if ends.len() > 0 {
        only_a_stop_ends_a_collector(ends.drop_last());
        assert forall|i: int| 0 <= i < ends.len() - 1 implies ends.drop_last()[i] == (
        #[trigger] ends[i]) by {}
        if connects_again(ends) {
            assert forall|i: int| 0 <= i < ends.len() implies !(#[trigger] ends[i]).stopping by {
                if i < ends.len() - 1 {
                    assert(!ends.drop_last()[i].stopping);
                }
            }
        } else if connects_again(ends.drop_last()) {
            assert(ends[ends.len() - 1].stopping);
        } else {
            let i: int = choose|i: int|
                0 <= i < ends.drop_last().len() && (#[trigger] ends.drop_last()[i]).stopping;
            assert(ends[i].stopping);
        }
    }
}

/// A delay before a reconnect: a power of two, up to the longest.
pub open spec fn is_reconnect_delay(delay: u64) -> bool {
    delay == 1 || delay == 2 || delay == 4 || delay == 8 || delay == 16
}

/// The bits and the text of a delay before a reconnect, as a floating-point number.
pub open spec fn delay_parts(delay: u64) -> (u64, Text) {
    if delay == 1 {
        (0x3FF0_0000_0000_0000, "1.0"@)
    } else if delay == 2 {
        (0x4000_0000_0000_0000, "2.0"@)
    } else if delay == 4 {
        (0x4010_0000_0000_0000, "4.0"@)
    } else if delay == 8 {
        (0x4020_0000_0000_0000, "8.0"@)
    } else {
        (0x4030_0000_0000_0000, "16.0"@)
    }
}

/// A delay before a reconnect as JSON: a floating-point number of seconds.
pub open spec fn delay_json(delay: u64) -> JsonView {
    json::double(delay_parts(delay).0, delay_parts(delay).1)
}

/// A delay before a reconnect as JSON.
pub fn delay_value(delay: u64) -> (j: Json)
    requires
        is_reconnect_delay(delay),
    ensures
        j@ == delay_json(delay),
{
    if delay == 1 {
        Json::double(0x3FF0_0000_0000_0000, "1.0")
    } else if delay == 2 {
        Json::double(0x4000_0000_0000_0000, "2.0")
    } else if delay == 4 {
        Json::double(0x4010_0000_0000_0000, "4.0")
    } else if delay == 8 {
        Json::double(0x4020_0000_0000_0000, "8.0")
    } else {
        Json::double(0x4030_0000_0000_0000, "16.0")
    }
}

/// The `n`-th delay of a series that starts at `base`.
pub open spec fn nth_delay(base: int, longest: int, n: nat) -> int
    decreases n,
{
    if n == 0 {
        base
    } else {
        next_delay(nth_delay(base, longest, (n - 1) as nat), longest)
    }
}

/// Delays never shrink and never pass the longest one.
pub proof fn delays_grow_to_the_longest(base: int, longest: int, n: nat)
    requires
        0 < base <= longest,
    ensures
        base <= nth_delay(base, longest, n) <= nth_delay(base, longest, n + 1) <= longest,
    decreases n,
{
    if n > 0 {
        delays_grow_to_the_longest(base, longest, (n - 1) as nat);
    }
}

/// A delay is twice as long as the one before it, unless that is longer than the longest.
pub proof fn delays_double(delay: int, longest: int)
    ensures
        2 * delay <= longest ==> next_delay(delay, longest) == 2 * delay,
        2 * delay > longest ==> next_delay(delay, longest) == longest,
{
}

/// A delay is written as it is: its text is the number with a zero behind the point, and its bits
/// grow by one in the exponent as it doubles.
pub proof fn delays_are_written(delay: u64)
    requires
        is_reconnect_delay(delay),
    ensures
        delay_parts(delay).1 == text::nat_text(delay as nat) + ".0"@,
        delay == 1 ==> delay_parts(delay).0 == 0x3FF0_0000_0000_0000,
        delay < 16 ==> delay_parts((2 * delay) as u64).0 == delay_parts(delay).0
            + 0x10_0000_0000_0000,
{
    reveal_strlit(".0");
    reveal_strlit("1.0");
    reveal_strlit("2.0");
    reveal_strlit("4.0");
    reveal_strlit("8.0");
    reveal_strlit("16.0");
    reveal_with_fuel(text::nat_text, 3);
    assert(delay_parts(delay).1 =~= text::nat_text(delay as nat) + ".0"@);
}

} // verus!
