//! Redundant connections to a prediction market: each message counts once, whichever
//! connection brings it first.

use vstd::prelude::*;
use vstd::string::*;

use crate::config;
use crate::config::{
    after_connection,
    delay_value,
    double_delay,
    Next,
    POLYMARKET_WS_URL,
    WS_RECONNECT_BASE_SECS,
    WS_RECONNECT_MAX_SECS,
};
use crate::json;
use crate::json::{Json, JsonNumber, JsonView, NumberView};
use crate::json_read;
use crate::polymarket;
use crate::polymarket::{PolySession, PolyView};
use crate::text::Text;
use crate::types;
use crate::types::{emit, emit_all, Event, EventView, RawJson, RawView};

verus! {

// Keys of messages

/// One piece of content that enters the key of a message.
pub enum KeyPart {
    Byte(u8),
    Signed(i64),
    Unsigned(u64),
    Bytes(Seq<u8>),
}

/// `ahash`'s hasher, as it is.
#[verifier::external_type_specification]
#[verifier::external_body]
pub struct ExAHasher(ahash::AHasher);

/// A hasher after `Hasher::write_u8`.
pub uninterp spec fn fed_byte(h: ahash::AHasher, b: u8) -> ahash::AHasher;

/// A hasher after `Hasher::write_i64`.
pub uninterp spec fn fed_signed(h: ahash::AHasher, n: i64) -> ahash::AHasher;

/// A hasher after `Hasher::write_u64`.
pub uninterp spec fn fed_unsigned(h: ahash::AHasher, n: u64) -> ahash::AHasher;

/// A hasher after `Hasher::write`.
pub uninterp spec fn fed_bytes(h: ahash::AHasher, bytes: Seq<u8>) -> ahash::AHasher;

/// What `AHasher::finish` gives of a hasher.
pub uninterp spec fn finished(h: ahash::AHasher) -> u64;

/// Makes a hasher with `AHasher::default`. It is seeded anew in each process, so nothing is
/// said of it.
#[verifier::external_body]
pub(crate) fn new_hasher() -> (h: ahash::AHasher) {
    ahash::AHasher::default()
}

/// Copies a hasher with `AHasher::clone`, which keeps all of its fields.
#[verifier::external_body]
pub(crate) fn copy_hasher(h: &ahash::AHasher) -> (copy: ahash::AHasher)
    ensures
        copy == *h,
{
    h.clone()
}

/// Writes a byte with `Hasher::write_u8`: the hasher after it depends on the hasher before
/// it and the byte alone.
#[verifier::external_body]
fn write_byte(h: &mut ahash::AHasher, b: u8)
    ensures
        *final(h) == fed_byte(*old(h), b),
{
    std::hash::Hasher::write_u8(h, b)
}

/// Writes a signed number with `Hasher::write_i64`: the hasher after it depends on the
/// hasher before it and the number alone.
#[verifier::external_body]
fn write_signed(h: &mut ahash::AHasher, n: i64)
    ensures
        *final(h) == fed_signed(*old(h), n),
{
    std::hash::Hasher::write_i64(h, n)
}

/// Writes an unsigned number with `Hasher::write_u64`: the hasher after it depends on the
/// hasher before it and the number alone.
#[verifier::external_body]
fn write_unsigned(h: &mut ahash::AHasher, n: u64)
    ensures
        *final(h) == fed_unsigned(*old(h), n),
{
    std::hash::Hasher::write_u64(h, n)
}

/// Writes bytes with `Hasher::write`: the hasher after it depends on the hasher before it
/// and the bytes alone.
#[verifier::external_body]
fn write_bytes(h: &mut ahash::AHasher, bytes: &[u8])
    ensures
        *final(h) == fed_bytes(*old(h), bytes@),
{
    std::hash::Hasher::write(h, bytes)
}

/// Reads the hash with `Hasher::finish`, which depends on the hasher alone.
#[verifier::external_body]
fn finish(h: &ahash::AHasher) -> (key: u64)
    ensures
        key == finished(*h),
{
    std::hash::Hasher::finish(h)
}

/// A hasher after one more piece of content.
pub open spec fn fed(h: ahash::AHasher, part: KeyPart) -> ahash::AHasher {
    match part {
        KeyPart::Byte(b) => fed_byte(h, b),
        KeyPart::Signed(n) => fed_signed(h, n),
        KeyPart::Unsigned(n) => fed_unsigned(h, n),
        KeyPart::Bytes(bytes) => fed_bytes(h, bytes),
    }
}

/// A hasher after some content.
pub open spec fn fed_all(h: ahash::AHasher, parts: Seq<KeyPart>) -> ahash::AHasher
    decreases parts.len(),
{
    if parts.len() == 0 {
        h
    } else {
        fed(fed_all(h, parts.drop_last()), parts.last())
    }
}

proof fn lemma_fed_all_adds(h: ahash::AHasher, a: Seq<KeyPart>, b: Seq<KeyPart>)
    ensures
        fed_all(h, a + b) == fed_all(fed_all(h, a), b),
    decreases b.len(),
{
    if b.len() == 0 {
        assert(a + b =~= a);
    } else {
        lemma_fed_all_adds(h, a, b.drop_last());
        assert((a + b).drop_last() =~= a + b.drop_last());
        assert((a + b).last() == b.last());
    }
}

proof fn lemma_fed_one(h: ahash::AHasher, part: KeyPart)
    ensures
        fed_all(h, seq![part]) == fed(h, part),
{
    assert(seq![part].drop_last() =~= seq![]);
    assert(fed_all(h, seq![part].drop_last()) == h);
}

/// The content of a number.
pub open spec fn number_parts(n: NumberView) -> Seq<KeyPart> {
    match n {
        NumberView::PosInt(n) => if n <= i64::MAX {
            seq![KeyPart::Signed(n as i64)]
        } else {
            seq![KeyPart::Unsigned(n)]
        },
        NumberView::NegInt(n) => seq![KeyPart::Signed(n)],
        NumberView::Float { bits, text } => seq![KeyPart::Unsigned(bits)],
    }
}

/// The content of a value, which makes its key.
pub open spec fn key_parts(j: JsonView) -> Seq<KeyPart>
    decreases j,
{
    match j {
        JsonView::Null => seq![KeyPart::Byte(0)],
        JsonView::Bool(b) => seq![KeyPart::Byte(1), KeyPart::Byte(if b { 1 } else { 0 })],
        JsonView::Number(n) => seq![KeyPart::Byte(2)] + number_parts(n),
        JsonView::Str(s) => seq![KeyPart::Byte(3), KeyPart::Bytes(vstd::utf8::encode_utf8(s))],
        JsonView::Array(items) => seq![KeyPart::Byte(4)] + items_parts(items),
        JsonView::Object(fields) => seq![KeyPart::Byte(5)] + fields_parts(fields),
    }
}

/// The content of items.
pub open spec fn items_parts(items: Seq<JsonView>) -> Seq<KeyPart>
    decreases items,
{
    if items.len() == 0 {
        seq![]
    } else {
        items_parts(items.drop_last()) + key_parts(items.last())
    }
}

/// The content of fields.
pub open spec fn fields_parts(fields: Seq<(Text, JsonView)>) -> Seq<KeyPart>
    decreases fields,
{
    if fields.len() == 0 {
        seq![]
    } else {
        fields_parts(fields.drop_last()) + seq![
            KeyPart::Bytes(vstd::utf8::encode_utf8(fields.last().0)),
        ] + key_parts(fields.last().1)
    }
}

fn hash_number(h: &mut ahash::AHasher, n: &JsonNumber)
    ensures
        *final(h) == fed_all(*old(h), number_parts(n@)),
{
    proof {
        lemma_fed_one(*h, number_parts(n@)[0]);
    }
    match n {
        JsonNumber::PosInt(n) => if *n <= 0x7fff_ffff_ffff_ffff {
            write_signed(h, *n as i64);
        } else {
            write_unsigned(h, *n);
        },
        JsonNumber::NegInt(n) => write_signed(h, *n),
        JsonNumber::Float { bits, text: _ } => write_unsigned(h, *bits),
    }
    assert(number_parts(n@) =~= seq![number_parts(n@)[0]]);
}

/// Writes the content of a value into a hasher.
pub fn hash_json_value(h: &mut ahash::AHasher, val: &Json)
    ensures
        *final(h) == fed_all(*old(h), key_parts(val@)),
    decreases val,
{
    let ghost before = *h;
    match val {
        Json::Null => {
            proof {
                lemma_fed_one(before, KeyPart::Byte(0));
            }
            write_byte(h, 0);
        },
        Json::Bool(b) => {
            proof {
                let last = KeyPart::Byte(if *b { 1 } else { 0 });
                lemma_fed_one(before, KeyPart::Byte(1));
                lemma_fed_one(fed(before, KeyPart::Byte(1)), last);
                lemma_fed_all_adds(before, seq![KeyPart::Byte(1)], seq![last]);
                assert(key_parts(val@) =~= seq![KeyPart::Byte(1)] + seq![last]);
            }
            write_byte(h, 1);
            write_byte(h, if *b { 1 } else { 0 });
        },
        Json::Number(n) => {
            proof {
                lemma_fed_one(before, KeyPart::Byte(2));
                lemma_fed_all_adds(before, seq![KeyPart::Byte(2)], number_parts(n@));
            }
            write_byte(h, 2);
            hash_number(h, n);
        },
        Json::Str(s) => {
            proof {
                let last = KeyPart::Bytes(vstd::utf8::encode_utf8(s@));
                lemma_fed_one(before, KeyPart::Byte(3));
                lemma_fed_one(fed(before, KeyPart::Byte(3)), last);
                lemma_fed_all_adds(before, seq![KeyPart::Byte(3)], seq![last]);
                assert(key_parts(val@) =~= seq![KeyPart::Byte(3)] + seq![last]);
            }
            write_byte(h, 3);
            write_bytes(h, s.as_str().as_bytes());
        },
        Json::Array(items) => {
            let ghost all = json::items_view(items@);
            let ghost head = seq![KeyPart::Byte(4)];
            write_byte(h, 4);
            let mut i: usize = 0;
            proof {
                lemma_fed_one(before, KeyPart::Byte(4));
                assert(all.take(0) =~= seq![]);
                assert(head + items_parts(all.take(0)) =~= head);
            }
            while i < items.len()
                invariant
                    i <= items.len(),
                    all == json::items_view(items@),
                    val == Json::Array(*items),
                    *h == fed_all(before, head + items_parts(all.take(i as int))),
                decreases items.len() - i,
            {
                proof {
                    json::lemma_item_smaller(*val, i as int);
                    assert(all.take(i + 1).drop_last() =~= all.take(i as int));
                    assert(all.take(i + 1).last() == items@[i as int]@);
                    let done = head + items_parts(all.take(i as int));
                    let next = key_parts(items@[i as int]@);
                    lemma_fed_all_adds(before, done, next);
                    assert(head + items_parts(all.take(i + 1)) =~= done + next);
                }
                hash_json_value(h, &items[i]);
                i = i + 1;
            }
            assert(all.take(all.len() as int) =~= all);
        },
        Json::Object(fields) => {
            let ghost all = json::fields_view(fields@);
            let ghost head = seq![KeyPart::Byte(5)];
            write_byte(h, 5);
            let mut i: usize = 0;
            proof {
                lemma_fed_one(before, KeyPart::Byte(5));
                assert(all.take(0) =~= seq![]);
                assert(head + fields_parts(all.take(0)) =~= head);
            }
            while i < fields.len()
                invariant
                    i <= fields.len(),
                    all == json::fields_view(fields@),
                    val == Json::Object(*fields),
                    *h == fed_all(before, head + fields_parts(all.take(i as int))),
                decreases fields.len() - i,
            {
                proof {
                    json::lemma_field_smaller(*val, i as int);
                    assert(all.take(i + 1).drop_last() =~= all.take(i as int));
                    assert(all.take(i + 1).last() == (fields@[i as int].0@, fields@[i as int].1@));
                    let done = head + fields_parts(all.take(i as int));
                    let name = KeyPart::Bytes(vstd::utf8::encode_utf8(fields@[i as int].0@));
                    let next = key_parts(fields@[i as int].1@);
                    lemma_fed_all_adds(before, done, seq![name]);
                    lemma_fed_one(fed_all(before, done), name);
                    lemma_fed_all_adds(before, done + seq![name], next);
                    assert(head + fields_parts(all.take(i + 1)) =~= done + seq![name] + next);
                }
                write_bytes(h, fields[i].0.as_str().as_bytes());
                hash_json_value(h, &fields[i].1);
                i = i + 1;
            }
            assert(all.take(all.len() as int) =~= all);
        },
    }
}

/// The key that a hasher gives for the content of a message.
pub open spec fn key_from(h: ahash::AHasher, msg: JsonView) -> u64 {
    finished(fed_all(h, key_parts(msg)))
}

/// The key that a hasher gives for the content of a message.
pub(crate) fn key_with(hasher: ahash::AHasher, msg: &Json) -> (key: u64)
    ensures
        key == key_from(hasher, msg@),
{
    let mut h: ahash::AHasher = hasher;
    hash_json_value(&mut h, msg);
    finish(&h)
}

/// The key of a message: the hash of its content. Hashers are seeded anew in each process,
/// so the number itself is not fixed.
pub fn dedup_hash(msg: &Json) -> (key: u64)
    ensures
        exists|h: ahash::AHasher| key == #[trigger] key_from(h, msg@),
{
    let hasher: ahash::AHasher = new_hasher();
    let ghost h = hasher;
    let key: u64 = key_with(hasher, msg);
    assert(key == key_from(h, msg@));
    key
}

// Connections

/// One of the redundant connections. Counters run over reconnects.
pub struct PolyConnection {
    pub conn_id: u64,
    pub msgs_received: u64,
    pub msgs_deduped: u64,
    pub backoff: u64,
}

/// What one message does: a copy is only counted, a new message is processed. The result is
/// the state after it, the events, whether the best prices may have changed, and whether it
/// was a copy.
pub open spec fn one_taken(s: PolyView, msg: JsonView) -> (PolyView, Seq<EventView>, bool, bool) {
    let key = key_from(s.hasher, msg);
    if s.seen.contains(key) {
        (s, seq![], false, true)
    } else {
        let (after, events, prices) = polymarket::poly_step(
            polymarket::with_seen(s, s.seen.insert(key)),
            msg,
        );
        (after, events, prices, false)
    }
}

/// What messages do, one after another: the state after them, the events, whether the best
/// prices may have changed, and how many were copies.
pub open spec fn all_taken(s: PolyView, msgs: Seq<JsonView>) -> (
    PolyView,
    Seq<EventView>,
    bool,
    int,
)
    decreases msgs.len(),
{
    if msgs.len() == 0 {
        (s, seq![], false, 0)
    } else {
        let (before, events, prices, copies) = all_taken(s, msgs.drop_last());
        let (after, more, also, copy) = one_taken(before, msgs.last());
        (after, events + more, prices || also, copies + if copy { 1int } else { 0int })
    }
}

/// The messages in a value: its items where it is an array, itself otherwise.
pub open spec fn messages_in(value: JsonView) -> Seq<JsonView> {
    match value {
        JsonView::Array(items) => items,
        other => seq![other],
    }
}

/// The subscription to the tokens of a market.
pub open spec fn subscription_json(token_ids: Seq<Text>) -> JsonView {
    JsonView::Object(
        seq![
            ("assets_ids"@, json::text_list(token_ids)),
            ("custom_feature_enabled"@, JsonView::Bool(true)),
            ("type"@, JsonView::Str("market"@)),
        ],
    )
}

/// The subscription to the tokens of a market.
pub fn subscription(token_ids: &Vec<String>) -> (j: Json)
    ensures
        j@ == subscription_json(json::strings(token_ids@)),
{
    Json::object3(
        "assets_ids",
        Json::texts(token_ids),
        "custom_feature_enabled",
        Json::Bool(true),
        "type",
        Json::text("market"),
    )
}

/// The connection that an event is about.
pub open spec fn conn_json(conn_id: u64) -> RawView {
    RawView::Value(JsonView::Object(seq![("conn_id"@, json::num(conn_id as int))]))
}

/// The event that tells that a connection is being made.
pub open spec fn poly_connecting(conn_id: u64) -> EventView {
    types::system_event(
        "ws_connecting"@,
        RawView::Value(
            JsonView::Object(
                seq![
                    ("conn_id"@, json::num(conn_id as int)),
                    ("url"@, JsonView::Str(POLYMARKET_WS_URL@)),
                ],
            ),
        ),
    )
}

/// The event that tells that the tokens were subscribed to. It records what was sent.
pub open spec fn poly_subscribed(conn_id: u64, token_ids: Seq<Text>) -> EventView {
    EventView {
        event_type: "system"@,
        raw: RawView::Value(subscription_json(token_ids)),
        normalized: RawView::Value(
            JsonView::Object(
                seq![
                    ("conn_id"@, json::num(conn_id as int)),
                    ("token_ids"@, json::text_list(token_ids)),
                ],
            ),
        ),
        system_type: Some("ws_subscribed"@),
    }
}

/// How long a connection waits before the next attempt.
pub open spec fn poly_reconnecting(conn_id: u64, backoff: u64) -> EventView {
    types::system_event(
        "ws_reconnecting"@,
        RawView::Value(
            JsonView::Object(
                seq![
                    ("backoff"@, config::delay_json(backoff)),
                    ("conn_id"@, json::num(conn_id as int)),
                ],
            ),
        ),
    )
}

/// Why something failed, and on which connection.
pub open spec fn reason_json(conn_id: u64, reason: Text) -> RawView {
    RawView::Value(
        JsonView::Object(
            seq![("conn_id"@, json::num(conn_id as int)), ("reason"@, JsonView::Str(reason))],
        ),
    )
}

/// The event that tells that text arrived that is no JSON.
pub open spec fn undecodable_event(conn_id: u64, text: Text) -> EventView {
    types::data_event(
        "error"@,
        RawView::Value(
            JsonView::Object(
                seq![("conn_id"@, json::num(conn_id as int)), ("raw"@, JsonView::Str(text))],
            ),
        ),
        reason_json(conn_id, "json_decode_error"@),
    )
}

/// The events that follow the end of a connection: its counters and, unless the collector
/// stops, that another one is made.
pub open spec fn poly_closed(c: PolyConnection, stopping: bool) -> Seq<EventView> {
    let closed = types::system_event(
        "ws_disconnected"@,
        RawView::Value(
            JsonView::Object(
                seq![
                    ("conn_id"@, json::num(c.conn_id as int)),
                    ("msgs_deduped"@, json::num(c.msgs_deduped as int)),
                    ("msgs_received"@, json::num(c.msgs_received as int)),
                ],
            ),
        ),
    );
    if stopping { seq![closed] } else { seq![closed, poly_reconnecting(c.conn_id, c.backoff)] }
}

/// The events that follow a failed connection: the error and, unless the collector stops,
/// the delay.
pub open spec fn poly_failed(c: PolyConnection, error: Text, stopping: bool) -> Seq<EventView> {
    let failed = types::data_event(
        "error"@,
        RawView::Value(
            JsonView::Object(
                seq![
                    ("conn_id"@, json::num(c.conn_id as int)),
                    ("error"@, JsonView::Str(error)),
                    ("type"@, JsonView::Str("WsConnectionError"@)),
                ],
            ),
        ),
        reason_json(c.conn_id, "ws_connection_error"@),
    );
    if stopping { seq![failed] } else { seq![failed, poly_reconnecting(c.conn_id, c.backoff)] }
}

impl PolyConnection {
    /// The next attempt waits for one of the delays.
    pub open spec fn wf(self) -> bool {
        config::is_reconnect_delay(self.backoff)
    }

    /// A connection that has brought nothing yet.
    pub fn new(conn_id: u64) -> (c: PolyConnection)
        ensures
            c == (PolyConnection {
                conn_id,
                msgs_received: 0,
                msgs_deduped: 0,
                backoff: WS_RECONNECT_BASE_SECS,
            }),
            c.wf(),
    {
        PolyConnection {
            conn_id,
            msgs_received: 0,
            msgs_deduped: 0,
            backoff: WS_RECONNECT_BASE_SECS,
        }
    }

    /// The connection is being made.
    pub fn connecting(&self) -> (e: Event)
        ensures
            e@ == poly_connecting(self.conn_id),
    {
        Event::system(
            "ws_connecting",
            RawJson::of(
                Json::object2(
                    "conn_id",
                    Json::count(self.conn_id),
                    "url",
                    Json::text(POLYMARKET_WS_URL),
                ),
            ),
        )
    }

    /// The connection was made: the next delay is the shortest one again.
    pub fn connected(&mut self) -> (e: Event)
        ensures
            e@ == types::system_event("ws_connected"@, conn_json(old(self).conn_id)),
            *final(self) == (PolyConnection { backoff: WS_RECONNECT_BASE_SECS, ..*old(self) }),
            final(self).wf(),
    {
        self.backoff = WS_RECONNECT_BASE_SECS;
        Event::system(
            "ws_connected",
            RawJson::of(Json::object1("conn_id", Json::count(self.conn_id))),
        )
    }

    /// The tokens were subscribed to.
    pub fn subscribed(&self, token_ids: &Vec<String>) -> (e: Event)
        ensures
            e@ == poly_subscribed(self.conn_id, json::strings(token_ids@)),
    {
        let mut e: Event = Event::system(
            "ws_subscribed",
            RawJson::of(
                Json::object2(
                    "conn_id",
                    Json::count(self.conn_id),
                    "token_ids",
                    Json::texts(token_ids),
                ),
            ),
        );
        e.raw = RawJson::of(subscription(token_ids));
        e
    }

    fn undecodable(&self, text: &str) -> (e: Event)
        ensures
            e@ == undecodable_event(self.conn_id, text@),
    {
        Event::data(
            "error",
            RawJson::of(
                Json::object2("conn_id", Json::count(self.conn_id), "raw", Json::text(text)),
            ),
            self.reason("json_decode_error"),
        )
    }

    fn reason(&self, reason: &str) -> (r: RawJson)
        ensures
            r@ == reason_json(self.conn_id, reason@),
    {
        RawJson::of(
            Json::object2("conn_id", Json::count(self.conn_id), "reason", Json::text(reason)),
        )
    }

    fn reconnecting(&self) -> (e: Event)
        requires
            self.wf(),
        ensures
            e@ == poly_reconnecting(self.conn_id, self.backoff),
    {
        Event::system(
            "ws_reconnecting",
            RawJson::of(
                Json::object2(
                    "backoff",
                    delay_value(self.backoff),
                    "conn_id",
                    Json::count(self.conn_id),
                ),
            ),
        )
    }

    /// The connection ended. Unless the collector stops, another one is made at once.
    pub fn closed(&self, stopping: bool) -> (r: (Vec<Event>, Next))
        requires
            self.wf(),
        ensures
            types::events_view(r.0@) == poly_closed(*self, stopping),
            r.1 == config::next_connection(stopping, 0),
    {
        let mut events: Vec<Event> = Vec::new();
        emit(
            &mut events,
            Event::system(
                "ws_disconnected",
                RawJson::of(
                    Json::object3(
                        "conn_id",
                        Json::count(self.conn_id),
                        "msgs_deduped",
                        Json::count(self.msgs_deduped),
                        "msgs_received",
                        Json::count(self.msgs_received),
                    ),
                ),
            ),
        );
        if !stopping {
            emit(&mut events, self.reconnecting());
        }
        assert(types::events_view(events@) =~= poly_closed(*self, stopping));
        (events, after_connection(stopping, 0))
    }

    /// The connection could not be made. Unless the collector stops, the next attempt waits,
    /// and the one after it twice as long.
    pub fn failed(&mut self, error: &str, stopping: bool) -> (r: (Vec<Event>, Next))
        requires
            old(self).wf(),
        ensures
            final(self).wf(),
            types::events_view(r.0@) == poly_failed(*old(self), error@, stopping),
            r.1 == config::next_connection(stopping, old(self).backoff),
            *final(self) == (PolyConnection {
                backoff: if stopping {
                    old(self).backoff
                } else {
                    config::next_delay(
                        old(self).backoff as int,
                        WS_RECONNECT_MAX_SECS as int,
                    ) as u64
                },
                ..*old(self)
            }),
    {
        let mut events: Vec<Event> = Vec::new();
        emit(
            &mut events,
            Event::data(
                "error",
                RawJson::of(
                    Json::object3(
                        "conn_id",
                        Json::count(self.conn_id),
                        "error",
                        Json::text(error),
                        "type",
                        Json::text("WsConnectionError"),
                    ),
                ),
                self.reason("ws_connection_error"),
            ),
        );
        if stopping {
            assert(types::events_view(events@) =~= poly_failed(*old(self), error@, stopping));
            return (events, Next::Stop);
        }
        let wait: u64 = self.backoff;
        emit(&mut events, self.reconnecting());
        assert(types::events_view(events@) =~= poly_failed(*old(self), error@, stopping));
        self.backoff = double_delay(wait, WS_RECONNECT_MAX_SECS);
        (events, after_connection(stopping, wait))
    }

    /// Takes one message. Its key decides whether it is a copy.
    pub fn take(&mut self, session: &mut PolySession, msg: &Json) -> (r: (Vec<Event>, bool))
        requires
            old(session).wf(),
            old(self).msgs_received < u64::MAX,
            old(self).msgs_deduped < u64::MAX,
        ensures
            final(session).wf(),
            ({
                let (after, events, prices, copy) = one_taken(old(session)@, msg@);
                &&& final(session)@ == after
                &&& types::events_view(r.0@) == events
                &&& r.1 == prices
                &&& *final(self) == (PolyConnection {
                    msgs_received: (old(self).msgs_received + 1) as u64,
                    msgs_deduped: (old(self).msgs_deduped + if copy { 1int } else { 0int }) as u64,
                    ..*old(self)
                })
            }),
    {
        self.msgs_received = self.msgs_received + 1;
        let key: u64 = session.key_of(msg);
        if session.first_sight(key) {
            session.process_poly_message(msg)
        } else {
            proof {
                let same = PolyView { seen: old(session)@.seen.insert(key), ..old(session)@ };
                assert(same.seen =~= old(session)@.seen);
            }
            self.msgs_deduped = self.msgs_deduped + 1;
            let events: Vec<Event> = Vec::new();
            assert(types::events_view(events@) =~= seq![]);
            (events, false)
        }
    }

    /// Takes what arrived: one message, or an array of messages. All of them are counted as
    /// received, and the copies among them also as such.
    pub fn receive(&mut self, session: &mut PolySession, value: &Json) -> (r: (Vec<Event>, bool))
        requires
            old(session).wf(),
            old(self).msgs_received + messages_in(value@).len() <= u64::MAX,
            old(self).msgs_deduped + messages_in(value@).len() <= u64::MAX,
        ensures
            final(session).wf(),
            received(*old(self), old(session)@, value@, *final(self), final(session)@, r),
    {
        let ghost start = session@;
        let ghost msgs = messages_in(value@);
        match value {
            Json::Array(items) => {
                assert(msgs =~= json::items_view(items@));
                let mut events: Vec<Event> = Vec::new();
                let mut prices: bool = false;
                let ghost mut copies: int = 0;
                let mut i: usize = 0;
                assert(msgs.take(0) =~= seq![]);
                assert(types::events_view(events@) =~= seq![]);
                while i < items.len()
                    invariant
                        i <= items.len(),
                        msgs == json::items_view(items@),
                        session.wf(),
                        0 <= copies <= i,
                        (session@, types::events_view(events@), prices, copies) == all_taken(
                            start,
                            msgs.take(i as int),
                        ),
                        old(self).msgs_received + msgs.len() <= u64::MAX,
                        old(self).msgs_deduped + msgs.len() <= u64::MAX,
                        msgs.len() == items.len(),
                        *self == (PolyConnection {
                            msgs_received: (old(self).msgs_received + i) as u64,
                            msgs_deduped: (old(self).msgs_deduped + copies) as u64,
                            ..*old(self)
                        }),
                    decreases items.len() - i,
                {
                    proof {
                        let upto = msgs.take(i + 1);
                        assert(upto.drop_last() =~= msgs.take(i as int));
                        assert(upto.last() == items@[i as int]@);
                        let copy = one_taken(session@, msgs[i as int]).3;
                        copies = copies + if copy { 1int } else { 0int };
                    }
                    let (more, also): (Vec<Event>, bool) = self.take(session, &items[i]);
                    emit_all(&mut events, more);
                    prices = prices || also;
                    i = i + 1;
                }
                assert(msgs.take(msgs.len() as int) =~= msgs);
                (events, prices)
            },
            _ => {
                proof {
                    assert(msgs =~= seq![value@]);
                    assert(msgs.drop_last() =~= seq![]);
                    assert(all_taken(start, msgs.drop_last()) == (
                        start,
                        Seq::<EventView>::empty(),
                        false,
                        0int,
                    ));
                    let (after, more, also, copy) = one_taken(start, value@);
                    assert(Seq::<EventView>::empty() + more =~= more);
                }
                self.take(session, value)
            },
        }
    }

    /// Takes the text of what arrived. Text that is no JSON is recorded and changes nothing;
    /// nothing is taken, either, where a counter has no room for it, which is told by `None`.
    pub fn receive_text(&mut self, session: &mut PolySession, text: &str) -> (r: Option<
        (Vec<Event>, bool),
    >)
        requires
            old(session).wf(),
        ensures
            final(session).wf(),
            match json_read::value_of_text(text@) {
                Err(_) => {
                    &&& r matches Some(told)
                    &&& types::events_view(told.0@) == seq![
                        undecodable_event(old(self).conn_id, text@),
                    ]
                    &&& !told.1
                    &&& final(session)@ == old(session)@
                    &&& *final(self) == *old(self)
                },
                Ok(value) => if has_room(*old(self), value) {
                    r matches Some(told) && received(
                        *old(self),
                        old(session)@,
                        value,
                        *final(self),
                        final(session)@,
                        told,
                    )
                } else {
                    r is None && final(session)@ == old(session)@ && *final(self) == *old(self)
                },
            },
    {
        match Json::parse(text) {
            Err(_) => {
                let mut events: Vec<Event> = Vec::new();
                emit(&mut events, self.undecodable(text));
                assert(types::events_view(events@) =~= seq![
                    undecodable_event(old(self).conn_id, text@),
                ]);
                Some((events, false))
            },
            Ok(value) => {
                let count: u64 = match &value {
                    Json::Array(items) => {
                        assert(messages_in(value@) == json::items_view(items@));
                        items.len() as u64
                    },
                    _ => {
                        assert(messages_in(value@) == seq![value@]);
                        1
                    },
                };
                if self.msgs_received <= u64::MAX - count && self.msgs_deduped <= u64::MAX - count {
                    Some(self.receive(session, &value))
                } else {
                    None
                }
            },
        }
    }
}

/// Whether the counters of a connection have room for the messages in a value.
pub open spec fn has_room(c: PolyConnection, value: JsonView) -> bool {
    c.msgs_received + messages_in(value).len() <= u64::MAX && c.msgs_deduped + messages_in(
        value,
    ).len() <= u64::MAX
}

/// A connection and a market before and after a value arrived, and what was told of it: the
/// events, and whether the best prices may have changed.
pub open spec fn received(
    before: PolyConnection,
    s: PolyView,
    value: JsonView,
    after: PolyConnection,
    t: PolyView,
    told: (Vec<Event>, bool),
) -> bool {
    let (state, events, prices, copies) = all_taken(s, messages_in(value));
    &&& t == state
    &&& types::events_view(told.0@) == events
    &&& told.1 == prices
    &&& after == (PolyConnection {
        msgs_received: (before.msgs_received + messages_in(value).len()) as u64,
        msgs_deduped: (before.msgs_deduped + copies) as u64,
        ..before
    })
}

// Laws

/// The first copy of a message wins: messages with a key that was seen change nothing and
/// are not recorded, on whichever connection they arrive.
pub proof fn copies_are_dropped(s: PolyView, msg: JsonView, again: JsonView)
    requires
        key_from(s.hasher, again) == key_from(s.hasher, msg),
    ensures
        ({
            let after = one_taken(s, msg).0;
            &&& after.hasher == s.hasher
            &&& after.seen == s.seen.insert(key_from(s.hasher, msg))
            &&& one_taken(after, again) == (after, Seq::<EventView>::empty(), false, true)
        }),
{
    let key = key_from(s.hasher, msg);
    polymarket::only_books_and_changes_touch_books(
        polymarket::with_seen(s, s.seen.insert(key)),
        msg,
    );
    assert(one_taken(s, msg).0.seen =~= s.seen.insert(key));
}

/// A message whose key is new is processed.
pub proof fn new_messages_are_processed(s: PolyView, msg: JsonView)
    requires
        !s.seen.contains(key_from(s.hasher, msg)),
    ensures
        one_taken(s, msg).1.len() >= 1,
        one_taken(s, msg).1[0].raw == RawView::Raw(json::json_text(msg)),
        !one_taken(s, msg).3,
{
    polymarket::every_message_is_recorded(
        polymarket::with_seen(s, s.seen.insert(key_from(s.hasher, msg))),
        msg,
    );
}

/// Messages count in the order in which they arrive, whichever connections bring them:
/// taking some and then others is taking all of them.
pub proof fn arrivals_add_up(s: PolyView, first: Seq<JsonView>, more: Seq<JsonView>)
    ensures
        ({
            let a = all_taken(s, first);
            let b = all_taken(a.0, more);
            all_taken(s, first + more) == (b.0, a.1 + b.1, a.2 || b.2, a.3 + b.3)
        }),
    decreases more.len(),
{
    if more.len() == 0 {
        assert(first + more =~= first);
        assert(all_taken(s, first).1 + Seq::<EventView>::empty() =~= all_taken(s, first).1);
    } else {
        arrivals_add_up(s, first, more.drop_last());
        assert((first + more).drop_last() =~= first + more.drop_last());
        assert((first + more).last() == more.last());
        let a = all_taken(s, first);
        let b = all_taken(a.0, more.drop_last());
        let last = one_taken(b.0, more.last());
        assert(a.1 + b.1 + last.1 =~= a.1 + (b.1 + last.1));
    }
}

/// The messages that differ from all that came before them, in the order of arrival.
pub open spec fn first_arrivals(msgs: Seq<JsonView>) -> Seq<JsonView>
    decreases msgs.len(),
{
    if msgs.len() == 0 {
        seq![]
    } else {
        let before = first_arrivals(msgs.drop_last());
        if msgs.drop_last().contains(msgs.last()) { before } else { before.push(msgs.last()) }
    }
}

/// What messages do where each of them is processed: the state after them, the events, and
/// whether the best prices may have changed.
pub open spec fn all_processed(s: PolyView, msgs: Seq<JsonView>) -> (PolyView, Seq<EventView>, bool)
    decreases msgs.len(),
{
    if msgs.len() == 0 {
        (s, seq![], false)
    } else {
        let (before, events, prices) = all_processed(s, msgs.drop_last());
        let (after, more, also) = polymarket::poly_step(before, msgs.last());
        (after, events + more, prices || also)
    }
}

/// Different messages among these have different keys.
pub open spec fn keys_tell_apart(h: ahash::AHasher, msgs: Seq<JsonView>) -> bool {
    forall|i: int, j: int|
        0 <= i < msgs.len() && 0 <= j < msgs.len() && key_from(h, #[trigger] msgs[i]) == key_from(
            h,
            #[trigger] msgs[j],
        ) ==> msgs[i] == msgs[j]
}

/// The keys of messages.
pub open spec fn keys_of(h: ahash::AHasher, msgs: Seq<JsonView>) -> Set<u64> {
    Set::new(|key: u64| exists|i: int| 0 <= i < msgs.len() && key == key_from(h, #[trigger] msgs[i]))
}

/// Each content is processed exactly once, when it arrives first; later copies write nothing
/// and change nothing, and each of them counts as one copy. This holds of messages that no
/// earlier one had the key of, and whose keys tell them apart.
pub proof fn each_content_counts_once(s: PolyView, msgs: Seq<JsonView>)
    requires
        keys_tell_apart(s.hasher, msgs),
        forall|i: int|
            0 <= i < msgs.len() ==> !s.seen.contains(key_from(s.hasher, #[trigger] msgs[i])),
    ensures
        ({
            let taken = all_taken(s, msgs);
            let once = all_processed(s, first_arrivals(msgs));
            &&& taken.0 == polymarket::with_seen(once.0, s.seen.union(keys_of(s.hasher, msgs)))
            &&& taken.1 == once.1
            &&& taken.2 == once.2
            &&& taken.3 == msgs.len() - first_arrivals(msgs).len()
        }),
    decreases msgs.len(),
{
    if msgs.len() == 0 {
        assert(s.seen.union(keys_of(s.hasher, msgs)) =~= s.seen);
    } else {
        let fewer = msgs.drop_last();
        let msg = msgs.last();
        let key = key_from(s.hasher, msg);
        assert forall|i: int, j: int|
            0 <= i < fewer.len() && 0 <= j < fewer.len() && key_from(
                s.hasher,
                #[trigger] fewer[i],
            ) == key_from(s.hasher, #[trigger] fewer[j]) implies fewer[i] == fewer[j] by {
            assert(msgs[i] == fewer[i] && msgs[j] == fewer[j]);
        }
        assert forall|i: int| 0 <= i < fewer.len() implies !s.seen.contains(
            key_from(s.hasher, #[trigger] fewer[i]),
        ) by {
            assert(msgs[i] == fewer[i]);
        }
        each_content_counts_once(s, fewer);
        let before = all_taken(s, fewer).0;
        let once = all_processed(s, first_arrivals(fewer));
        lemma_processing_keeps_the_keys(s, first_arrivals(fewer));
        assert(before.hasher == s.hasher);
        assert(msgs[msgs.len() - 1] == msg);
        lemma_keys_of_more(s.hasher, fewer, msg);
        assert(fewer.push(msg) =~= msgs);
        if fewer.contains(msg) {
            let i = fewer.index_of(msg);
            assert(keys_of(s.hasher, fewer).contains(key)) by {
                assert(key == key_from(s.hasher, fewer[i]));
            }
            assert(before.seen.contains(key));
            assert(s.seen.union(keys_of(s.hasher, msgs)) =~= s.seen.union(
                keys_of(s.hasher, fewer),
            ));
            assert(all_taken(s, fewer).1 + Seq::<EventView>::empty() =~= all_taken(s, fewer).1);
        } else {
            if before.seen.contains(key) {
                let i = choose|i: int|
                    0 <= i < fewer.len() && key == key_from(s.hasher, #[trigger] fewer[i]);
                assert(msgs[i] == fewer[i]);
                assert(fewer[i] == msg);
                assert(false);
            }
            assert(s.seen.union(keys_of(s.hasher, msgs)) =~= before.seen.insert(key));
            polymarket::keys_do_not_matter_to_a_message(once.0, before.seen.insert(key), msg);
            assert(polymarket::with_seen(before, before.seen.insert(key)) == polymarket::with_seen(
                once.0,
                before.seen.insert(key),
            ));
            let first = first_arrivals(msgs);
            assert(first.drop_last() =~= first_arrivals(fewer));
            assert(first.last() == msg);
        }
    }
}

proof fn lemma_keys_of_more(h: ahash::AHasher, msgs: Seq<JsonView>, msg: JsonView)
    ensures
        keys_of(h, msgs.push(msg)) == keys_of(h, msgs).insert(key_from(h, msg)),
{
    let more = msgs.push(msg);
    assert forall|key: u64| keys_of(h, more).contains(key) <==> #[trigger] keys_of(h, msgs).insert(
        key_from(h, msg),
    ).contains(key) by {
        if keys_of(h, more).contains(key) {
            let i = choose|i: int| 0 <= i < more.len() && key == key_from(h, #[trigger] more[i]);
            if i < msgs.len() {
                assert(key == key_from(h, msgs[i]));
            }
        }
        if keys_of(h, msgs).contains(key) {
            let i = choose|i: int| 0 <= i < msgs.len() && key == key_from(h, #[trigger] msgs[i]);
            assert(key == key_from(h, more[i]));
        }
        if key == key_from(h, msg) {
            assert(key == key_from(h, more[msgs.len() as int]));
        }
    }
    assert(keys_of(h, more) =~= keys_of(h, msgs).insert(key_from(h, msg)));
}

proof fn lemma_processing_keeps_the_keys(s: PolyView, msgs: Seq<JsonView>)
    ensures
        all_processed(s, msgs).0.hasher == s.hasher,
        all_processed(s, msgs).0.seen == s.seen,
    decreases msgs.len(),
{
    if msgs.len() > 0 {
        lemma_processing_keeps_the_keys(s, msgs.drop_last());
        polymarket::only_books_and_changes_touch_books(
            all_processed(s, msgs.drop_last()).0,
            msgs.last(),
        );
    }
}

/// Values that differ make different keys: the texts, the truth values and the whole numbers that
/// they hold enter into them.
pub proof fn contents_enter_the_key(a: Text, b: Text, x: bool, y: bool, m: i64, n: i64)
    ensures
        key_parts(JsonView::Str(a)) == key_parts(JsonView::Str(b)) ==> a == b,
        key_parts(JsonView::Bool(x)) == key_parts(JsonView::Bool(y)) ==> x == y,
        key_parts(json::num(m as int)) == key_parts(json::num(n as int)) ==> m == n,
        key_parts(JsonView::Str(a)) != key_parts(JsonView::Null),
        key_parts(JsonView::Str(a)) != key_parts(json::num(m as int)),
{
    let (p, q) = (key_parts(JsonView::Str(a)), key_parts(JsonView::Str(b)));
    if p == q {
        assert(p[1] == q[1]);
        vstd::utf8::encode_utf8_decode_utf8(a);
        vstd::utf8::encode_utf8_decode_utf8(b);
    }
    if key_parts(JsonView::Bool(x)) == key_parts(JsonView::Bool(y)) {
        assert(key_parts(JsonView::Bool(x))[1] == key_parts(JsonView::Bool(y))[1]);
    }
    let (r, s) = (key_parts(json::num(m as int)), key_parts(json::num(n as int)));
    assert(r[0] == KeyPart::Byte(2) && r[1] == KeyPart::Signed(m));
    assert(s[1] == KeyPart::Signed(n));
    assert(p[0] == KeyPart::Byte(3));
    assert(key_parts(JsonView::Null)[0] == KeyPart::Byte(0));
}

/// Every field enters the key of a message: where the value of one is replaced by another, the
/// content of the key changes exactly where that of the value does.
pub proof fn every_field_enters_the_key(fields: Seq<(Text, JsonView)>, i: int, v: JsonView)
    requires
        0 <= i < fields.len(),
    ensures
        key_parts(JsonView::Object(fields.update(i, (fields[i].0, v)))) == key_parts(
            JsonView::Object(fields),
        ) <==> key_parts(v) == key_parts(fields[i].1),
{
    let other = fields.update(i, (fields[i].0, v));
    lemma_fields_split(fields, i);
    lemma_fields_split(other, i);
    assert(fields.take(i) =~= other.take(i));
    assert(fields.skip(i + 1) =~= other.skip(i + 1));
    let head = seq![KeyPart::Byte(5)] + (fields_parts(fields.take(i)) + seq![
        KeyPart::Bytes(vstd::utf8::encode_utf8(fields[i].0)),
    ]);
    let tail = fields_parts(fields.skip(i + 1));
    let (a, b) = (key_parts(fields[i].1), key_parts(v));
    assert(key_parts(JsonView::Object(fields)) =~= head + a + tail);
    assert(key_parts(JsonView::Object(other)) =~= head + b + tail);
    if head + a + tail == head + b + tail {
        assert(a.len() == b.len());
        assert((head + a + tail).subrange(head.len() as int, (head.len() + a.len()) as int) =~= a);
        assert((head + b + tail).subrange(head.len() as int, (head.len() + b.len()) as int) =~= b);
    }
}

proof fn lemma_fields_split(fields: Seq<(Text, JsonView)>, i: int)
    requires
        0 <= i < fields.len(),
    ensures
        fields_parts(fields) == fields_parts(fields.take(i)) + seq![
            KeyPart::Bytes(vstd::utf8::encode_utf8(fields[i].0)),
        ] + key_parts(fields[i].1) + fields_parts(fields.skip(i + 1)),
    decreases fields.len(),
{
    let n = fields.len() - 1;
    if i == n {
        assert(fields.take(i) =~= fields.drop_last());
        assert(fields.skip(i + 1) =~= seq![]);
        assert(fields_parts(fields) =~= fields_parts(fields.take(i)) + seq![
            KeyPart::Bytes(vstd::utf8::encode_utf8(fields[i].0)),
        ] + key_parts(fields[i].1) + fields_parts(fields.skip(i + 1)));
    } else {
        lemma_fields_split(fields.drop_last(), i);
        assert(fields.drop_last().take(i) =~= fields.take(i));
        let rest = fields.skip(i + 1);
        assert(fields.drop_last().skip(i + 1) =~= rest.drop_last());
        assert(rest.last() == fields.last());
        assert(fields_parts(fields) =~= fields_parts(fields.take(i)) + seq![
            KeyPart::Bytes(vstd::utf8::encode_utf8(fields[i].0)),
        ] + key_parts(fields[i].1) + fields_parts(rest));
    }
}

/// A list brings all its messages, and any other value is one message.
pub proof fn all_messages_are_taken(items: Seq<JsonView>, j: JsonView)
    requires
        !(j is Array),
    ensures
        messages_in(JsonView::Array(items)) == items,
        messages_in(j) == seq![j],
{
}

/// The tokens of the market are subscribed to, in their order.
pub proof fn tokens_are_subscribed_to(token_ids: Seq<Text>, i: int)
    requires
        0 <= i < token_ids.len(),
    ensures
        ({
            let j = subscription_json(token_ids);
            let list = json::field(j, "assets_ids"@);
            &&& list is Array && list->Array_0.len() == token_ids.len()
            &&& list->Array_0[i] == JsonView::Str(token_ids[i])
            &&& json::field(j, "type"@) == JsonView::Str("market"@)
            &&& json::field(j, "custom_feature_enabled"@) == JsonView::Bool(true)
        }),
{
    reveal_strlit("assets_ids");
    reveal_strlit("custom_feature_enabled");
    reveal_strlit("type");
    assert("assets_ids"@.len() == 10 && "custom_feature_enabled"@.len() == 22 && "type"@.len() == 4);
    let fields = subscription_json(token_ids)->Object_0;
    json::first_fields_are_found(fields, 0);
    json::first_fields_are_found(fields, 1);
    json::first_fields_are_found(fields, 2);
}

/// The end of a connection is told with what it received and dropped, a failure with its error;
/// another connection is announced with its delay unless the collector stops.
pub proof fn connections_are_told(c: PolyConnection, error: Text)
    ensures
        ({
            let closed = poly_closed(c, false);
            let failed = poly_failed(c, error, false);
            let counts = closed[0].normalized->Value_0;
            &&& poly_closed(c, true) == seq![closed[0]] && closed.len() == 2
            &&& poly_failed(c, error, true) == seq![failed[0]] && failed.len() == 2
            &&& closed[1] == failed[1]
            &&& closed[0].system_type == Some("ws_disconnected"@)
            &&& json::field(counts, "msgs_received"@) == json::num(c.msgs_received as int)
            &&& json::field(counts, "msgs_deduped"@) == json::num(c.msgs_deduped as int)
            &&& json::field(counts, "conn_id"@) == json::num(c.conn_id as int)
            &&& failed[0].event_type == "error"@
            &&& json::field(failed[0].raw->Value_0, "error"@) == JsonView::Str(error)
            &&& closed[1].system_type == Some("ws_reconnecting"@)
            &&& json::field(closed[1].normalized->Value_0, "backoff"@) == config::delay_json(
                c.backoff,
            )
        }),
{
    reveal_strlit("conn_id");
    reveal_strlit("msgs_deduped");
    reveal_strlit("msgs_received");
    reveal_strlit("error");
    reveal_strlit("backoff");
    assert("conn_id"@.len() == 7 && "msgs_deduped"@.len() == 12 && "msgs_received"@.len() == 13
        && "error"@.len() == 5 && "backoff"@.len() == 7);
    let closed = poly_closed(c, false);
    let failed = poly_failed(c, error, false);
    let counts = closed[0].normalized->Value_0->Object_0;
    json::first_fields_are_found(counts, 0);
    json::first_fields_are_found(counts, 1);
    json::first_fields_are_found(counts, 2);
    json::first_fields_are_found(failed[0].raw->Value_0->Object_0, 1);
    json::first_fields_are_found(closed[1].normalized->Value_0->Object_0, 0);
}

/// Every item of a list enters the key, in its order.
pub proof fn every_item_enters_the_key(items: Seq<JsonView>, j: JsonView)
    ensures
        key_parts(JsonView::Array(items.push(j))) == key_parts(JsonView::Array(items)) + key_parts(j),
        key_parts(JsonView::Array(Seq::empty())) == seq![KeyPart::Byte(4)],
{
    assert(items.push(j).drop_last() =~= items);
    assert(key_parts(JsonView::Array(items.push(j))) =~= key_parts(JsonView::Array(items))
        + key_parts(j));
    assert(seq![KeyPart::Byte(4)] + items_parts(Seq::empty()) =~= seq![KeyPart::Byte(4)]);
}

} // verus!
