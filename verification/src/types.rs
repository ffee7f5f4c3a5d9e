//! Events, the lines in which they are recorded, and the keys by which price levels
//! are ordered.

use vstd::arithmetic::div_mod::*;
use vstd::arithmetic::power::*;
use vstd::prelude::*;
use vstd::string::*;

use crate::json;
use crate::json::{push_json, push_quoted, Json, JsonView};
use crate::text;
use crate::text::{push_i64, push_u64, Text};

verus! {

/// A JSON value, or JSON text that is recorded as it came.
pub enum RawJson {
    Null,
    Raw(String),
    Value(Json),
}

/// What a recorded value holds.
pub enum RawView {
    Null,
    Raw(Text),
    Value(JsonView),
}

impl View for RawJson {
    type V = RawView;

    open spec fn view(&self) -> RawView {
        match self {
            RawJson::Null => RawView::Null,
            RawJson::Raw(s) => RawView::Raw(s@),
            RawJson::Value(j) => RawView::Value(j@),
        }
    }
}

/// The text that `RawValue::from_string` keeps of a text, where that is JSON.
pub uninterp spec fn raw_value_text(s: Seq<char>) -> Option<Seq<char>>;

/// Checks JSON text with `serde_json`'s `RawValue::from_string` and gives back what
/// it keeps, which is the text without the white space around it. The result is a
/// function of the text.
#[verifier::external_body]
fn checked_raw(s: String) -> (r: Option<String>)
    ensures
        json::opt_string(r) == raw_value_text(s@),
{
    serde_json::value::RawValue::from_string(s).ok().map(|v| v.get().to_owned())
}

/// A JSON value as it is recorded.
pub open spec fn raw_of(j: JsonView) -> RawView {
    match j {
        JsonView::Null => RawView::Null,
        other => RawView::Value(other),
    }
}

/// JSON text as it is recorded: as it came, or null where it is no JSON.
pub open spec fn raw_of_text(s: Text) -> RawView {
    match raw_value_text(s) {
        Some(kept) => RawView::Raw(kept),
        None => RawView::Null,
    }
}

impl RawJson {
    /// Records text as it came, or null where it is no JSON.
    pub fn from_string(s: String) -> (r: RawJson)
        ensures
            r@ == raw_of_text(s@),
    {
        match checked_raw(s) {
            Some(kept) => RawJson::Raw(kept),
            None => RawJson::Null,
        }
    }

    /// Records a value by its text.
    pub fn from_json(j: &Json) -> (r: RawJson)
        ensures
            r@ == RawView::Raw(json::json_text(j@)),
    {
        RawJson::Raw(j.to_text())
    }

    /// Records a value.
    pub fn of(j: Json) -> (r: RawJson)
        ensures
            r@ == raw_of(j@),
    {
        match j {
            Json::Null => RawJson::Null,
            other => RawJson::Value(other),
        }
    }
}

/// The text of a recorded value.
pub open spec fn raw_text(r: RawView) -> Text {
    match r {
        RawView::Null => "null"@,
        RawView::Raw(s) => s,
        RawView::Value(j) => json::json_text(j),
    }
}

fn push_raw(out: &mut String, r: &RawJson)
    ensures
        final(out)@ == old(out)@ + raw_text(r@),
{
    match r {
        RawJson::Null => out.append("null"),
        RawJson::Raw(s) => out.append(s.as_str()),
        RawJson::Value(j) => push_json(out, j),
    }
}

/// Something that happened and is to be recorded.
pub struct Event {
    pub event_type: String,
    pub raw: RawJson,
    pub normalized: RawJson,
    pub system_type: Option<String>,
}

/// What an event holds.
pub struct EventView {
    pub event_type: Text,
    pub raw: RawView,
    pub normalized: RawView,
    pub system_type: Option<Text>,
}

impl View for Event {
    type V = EventView;

    open spec fn view(&self) -> EventView {
        EventView {
            event_type: self.event_type@,
            raw: self.raw@,
            normalized: self.normalized@,
            system_type: json::opt_string(self.system_type),
        }
    }
}

/// What a list of events holds.
pub open spec fn events_view(events: Seq<Event>) -> Seq<EventView> {
    events.map_values(|e: Event| e@)
}

/// An event of the collected data.
pub open spec fn data_event(event_type: Text, raw: RawView, normalized: RawView) -> EventView {
    EventView { event_type, raw, normalized, system_type: None }
}

/// An event of the collector itself.
pub open spec fn system_event(system_type: Text, normalized: RawView) -> EventView {
    EventView {
        event_type: "system"@,
        raw: RawView::Null,
        normalized,
        system_type: Some(system_type),
    }
}

impl Event {
    /// An event of the collected data.
    pub fn data(event_type: &str, raw: RawJson, normalized: RawJson) -> (e: Event)
        ensures
            e@ == data_event(event_type@, raw@, normalized@),
    {
        Event { event_type: event_type.to_owned(), raw, normalized, system_type: None }
    }

    /// An event of the collector itself.
    pub fn system(system_type: &str, normalized: RawJson) -> (e: Event)
        ensures
            e@ == system_event(system_type@, normalized@),
    {
        Event {
            event_type: "system".to_owned(),
            raw: RawJson::Null,
            normalized,
            system_type: Some(system_type.to_owned()),
        }
    }
}

/// Adds an event behind the others.
pub fn emit(events: &mut Vec<Event>, event: Event)
    ensures
        events_view(final(events)@) == events_view(old(events)@).push(event@),
{
    events.push(event);
    assert(events_view(events@) =~= events_view(old(events)@).push(event@));
}

/// Adds events behind the others.
pub fn emit_all(events: &mut Vec<Event>, more: Vec<Event>)
    ensures
        events_view(final(events)@) == events_view(old(events)@) + events_view(more@),
{
    let mut more: Vec<Event> = more;
    let ghost added = more@;
    events.append(&mut more);
    assert(events_view(events@) =~= events_view(old(events)@) + events_view(added));
}

/// One recorded line.
pub struct Line {
    pub ts_recv_ms: i64,
    pub market_start: i64,
    pub collector_pid: u32,
    pub source: String,
    pub event_type: String,
    pub seq: u64,
    pub raw: RawJson,
    pub normalized: RawJson,
    pub system_type: Option<String>,
}

/// What a line holds.
pub struct LineView {
    pub ts_recv_ms: i64,
    pub market_start: i64,
    pub collector_pid: u32,
    pub source: Text,
    pub seq: u64,
    pub event: EventView,
}

impl View for Line {
    type V = LineView;

    open spec fn view(&self) -> LineView {
        LineView {
            ts_recv_ms: self.ts_recv_ms,
            market_start: self.market_start,
            collector_pid: self.collector_pid,
            source: self.source@,
            seq: self.seq,
            event: EventView {
                event_type: self.event_type@,
                raw: self.raw@,
                normalized: self.normalized@,
                system_type: json::opt_string(self.system_type),
            },
        }
    }
}

/// A line of the collected data, received at `now_ms` by the process `pid`.
pub fn make_line(
    now_ms: i64,
    pid: u32,
    market_start: i64,
    source: &str,
    event_type: &str,
    seq: u64,
    raw: RawJson,
    normalized: RawJson,
) -> (line: Line)
    ensures
        line@ == (LineView {
            ts_recv_ms: now_ms,
            market_start,
            collector_pid: pid,
            source: source@,
            seq,
            event: data_event(event_type@, raw@, normalized@),
        }),
{
    Line {
        ts_recv_ms: now_ms,
        market_start,
        collector_pid: pid,
        source: source.to_owned(),
        event_type: event_type.to_owned(),
        seq,
        raw,
        normalized,
        system_type: None,
    }
}

/// A line of the collector itself.
pub fn make_system_line(
    now_ms: i64,
    pid: u32,
    market_start: i64,
    source: &str,
    seq: u64,
    normalized: RawJson,
    system_type: &str,
) -> (line: Line)
    ensures
        line@ == (LineView {
            ts_recv_ms: now_ms,
            market_start,
            collector_pid: pid,
            source: source@,
            seq,
            event: system_event(system_type@, normalized@),
        }),
{
    let mut line: Line = make_line(
        now_ms,
        pid,
        market_start,
        source,
        "system",
        seq,
        RawJson::Null,
        normalized,
    );
    line.system_type = Some(system_type.to_owned());
    line
}

/// Times below this many milliseconds keep their three digits when they are written
/// in seconds.
pub const EXACT_MS_LIMIT: i64 = 1_000_000_000_000_000;

/// A time in milliseconds, written in seconds: one digit behind the point at least,
/// and no zero at the end but that one.
pub open spec fn seconds_text(ms: nat) -> Text {
    let whole = text::nat_text(ms / 1000);
    let d1 = text::digit_char((ms / 100 % 10) as int);
    let d2 = text::digit_char((ms / 10 % 10) as int);
    let d3 = text::digit_char((ms % 10) as int);
    if ms % 10 != 0 {
        whole + seq!['.', d1, d2, d3]
    } else if ms % 100 != 0 {
        whole + seq!['.', d1, d2]
    } else {
        whole + seq!['.', d1]
    }
}

/// Appends a time in milliseconds, written in seconds.
pub fn push_seconds(out: &mut String, ms: u64)
    ensures
        final(out)@ == old(out)@ + seconds_text(ms as nat),
{
    push_u64(out, ms / 1000);
    out.push('.');
    assert(text::nat_text((ms / 100 % 10) as nat) =~= seq![
        text::digit_char((ms / 100 % 10) as int),
    ]);
    push_u64(out, ms / 100 % 10);
    if ms % 100 != 0 {
        assert(text::nat_text((ms / 10 % 10) as nat) =~= seq![
            text::digit_char((ms / 10 % 10) as int),
        ]);
        push_u64(out, ms / 10 % 10);
        if ms % 10 != 0 {
            assert(text::nat_text((ms % 10) as nat) =~= seq![text::digit_char((ms % 10) as int)]);
            push_u64(out, ms % 10);
        }
    }
    assert(out@ =~= old(out)@ + seconds_text(ms as nat));
}

/// The end of the text of a line: the field `system_type` where there is one.
pub open spec fn line_tail(system_type: Option<Text>) -> Text {
    match system_type {
        Some(s) => ",\"system_type\":"@ + json::quoted(s) + "}"@,
        None => "}"@,
    }
}

/// The text of a line: one JSON object, without the line end.
pub open spec fn line_text(l: LineView) -> Text {
    "{\"ts_recv_ms\":"@ + text::int_text(l.ts_recv_ms as int) + ",\"ts_recv_unix\":"@
        + seconds_text(l.ts_recv_ms as nat) + ",\"market_start\":"@ + text::int_text(
        l.market_start as int,
    ) + ",\"collector_pid\":"@ + text::nat_text(l.collector_pid as nat) + ",\"source\":"@
        + json::quoted(l.source) + ",\"event_type\":"@ + json::quoted(l.event.event_type)
        + ",\"seq\":"@ + text::nat_text(l.seq as nat) + ",\"raw\":"@ + raw_text(l.event.raw)
        + ",\"normalized\":"@ + raw_text(l.event.normalized) + line_tail(l.event.system_type)
}

impl Line {
    /// The text of this line.
    pub fn to_text(&self) -> (s: String)
        requires
            0 <= self.ts_recv_ms < EXACT_MS_LIMIT,
        ensures
            s@ == line_text(self@),
    {
        let mut s: String = "{\"ts_recv_ms\":".to_owned();
        push_i64(&mut s, self.ts_recv_ms);
        s.append(",\"ts_recv_unix\":");
        push_seconds(&mut s, self.ts_recv_ms as u64);
        s.append(",\"market_start\":");
        push_i64(&mut s, self.market_start);
        s.append(",\"collector_pid\":");
        push_u64(&mut s, self.collector_pid as u64);
        s.append(",\"source\":");
        push_quoted(&mut s, self.source.as_str());
        s.append(",\"event_type\":");
        push_quoted(&mut s, self.event_type.as_str());
        s.append(",\"seq\":");
        push_u64(&mut s, self.seq);
        s.append(",\"raw\":");
        push_raw(&mut s, &self.raw);
        s.append(",\"normalized\":");
        push_raw(&mut s, &self.normalized);
        let ghost head = s@;
        match &self.system_type {
            Some(t) => {
                s.append(",\"system_type\":");
                push_quoted(&mut s, t.as_str());
                s.append("}");
                assert(s@ =~= head + line_tail(Some(t@)));
            },
            None => s.append("}"),
        }
        s
    }
}

// Keys of price levels

/// The value of a run of decimal digits.
pub open spec fn digits_value(digits: Seq<int>) -> int
    decreases digits.len(),
{
    if digits.len() == 0 {
        0
    } else {
        digits_value(digits.drop_last()) * 10 + digits.last()
    }
}

/// The digits behind the point, counted in units of which `scale` make one; digits
/// beyond the last unit do not count.
pub open spec fn fraction_value(digits: Seq<int>, scale: int) -> int
    decreases digits.len(),
{
    if digits.len() == 0 || scale <= 1 {
        0
    } else {
        digits[0] * (scale / 10) + fraction_value(digits.drop_first(), scale / 10)
    }
}

/// Whether a byte is a decimal digit.
pub open spec fn is_digit(b: u8) -> bool {
    48 <= b <= 57
}

/// The decimal digits among some bytes.
pub open spec fn digits_in(bytes: Seq<u8>) -> Seq<int>
    decreases bytes.len(),
{
    if bytes.len() == 0 {
        seq![]
    } else if is_digit(bytes.last()) {
        digits_in(bytes.drop_last()).push(bytes.last() - 48)
    } else {
        digits_in(bytes.drop_last())
    }
}

/// Where the first decimal point stands, or the end where there is none.
pub open spec fn point_at(bytes: Seq<u8>) -> int
    decreases bytes.len(),
{
    if bytes.len() == 0 || bytes[0] == 46 {
        0
    } else {
        1 + point_at(bytes.drop_first())
    }
}

/// The nearest number that fits in 64 bits with a sign.
pub open spec fn clamped(n: int) -> int {
    if n > i64::MAX {
        i64::MAX as int
    } else if n < i64::MIN {
        i64::MIN as int
    } else {
        n
    }
}

/// The key of a decimal number, in units of which `scale` make one. What is neither a
/// digit nor the first point does not count.
pub open spec fn decimal_key(bytes: Seq<u8>, scale: int) -> int {
    let at = point_at(bytes);
    let whole = clamped(digits_value(digits_in(bytes.take(at))));
    let fraction = fraction_value(digits_in(bytes.skip(at)), scale);
    clamped(clamped(whole * scale) + fraction)
}

proof fn lemma_point_at(bytes: Seq<u8>, at: int)
    requires
        0 <= at <= bytes.len(),
        forall|k: int| 0 <= k < at ==> bytes[k] != 46,
        at < bytes.len() ==> bytes[at] == 46,
    ensures
        point_at(bytes) == at,
    decreases bytes.len(),
{
    if at > 0 {
        lemma_point_at(bytes.drop_first(), at - 1);
    }
}

proof fn lemma_digits_value_nonnegative(bytes: Seq<u8>)
    ensures
        digits_value(digits_in(bytes)) >= 0,
        forall|k: int| 0 <= k < digits_in(bytes).len() ==> 0 <= #[trigger] digits_in(bytes)[k] <= 9,
    decreases bytes.len(),
{
    if bytes.len() > 0 {
        lemma_digits_value_nonnegative(bytes.drop_last());
        if is_digit(bytes.last()) {
            assert(digits_in(bytes).drop_last() =~= digits_in(bytes.drop_last()));
        }
    }
}

/// The unit that `count` digits have reached, starting from `scale`.
pub open spec fn unit_after(scale: int, count: nat) -> int
    decreases count,
{
    if count == 0 || scale <= 1 {
        scale
    } else {
        unit_after(scale / 10, (count - 1) as nat)
    }
}

proof fn lemma_fraction_grows(digits: Seq<int>, d: int, scale: int)
    ensures
        unit_after(scale, digits.len()) <= 1 ==> fraction_value(digits.push(d), scale)
            == fraction_value(digits, scale),
        unit_after(scale, digits.len()) > 1 ==> fraction_value(digits.push(d), scale)
            == fraction_value(digits, scale) + d * (unit_after(scale, digits.len()) / 10),
        unit_after(scale, digits.len()) > 1 ==> unit_after(scale, digits.len() + 1) == unit_after(
            scale,
            digits.len(),
        ) / 10,
        unit_after(scale, digits.len()) <= 1 ==> unit_after(scale, digits.len() + 1) <= 1,
    decreases digits.len(),
{
    reveal_with_fuel(fraction_value, 2);
    reveal_with_fuel(unit_after, 2);
    if digits.len() > 0 && scale > 1 {
        lemma_fraction_grows(digits.drop_first(), d, scale / 10);
        assert(digits.push(d).drop_first() =~= digits.drop_first().push(d));
    }
}

fn clamp(n: i128) -> (r: i64)
    ensures
        r == clamped(n as int),
{
    if n > 0x7fff_ffff_ffff_ffff {
        0x7fff_ffff_ffff_ffff
    } else if n < -0x8000_0000_0000_0000 {
        -0x8000_0000_0000_0000
    } else {
        n as i64
    }
}

/// The key of a decimal number, in units of which `scale` make one.
pub fn parse_decimal_key(value: &str, scale: i64) -> (key: i64)
    ensures
        key == decimal_key(value.spec_bytes(), scale as int),
{
    let bytes: &[u8] = value.as_bytes();
    let mut whole: i64 = 0;
    let mut i: usize = 0;
    while i < bytes.len() && bytes[i] != 46
        invariant
            i <= bytes@.len(),
            forall|k: int| 0 <= k < i ==> bytes@[k] != 46,
            whole == clamped(digits_value(digits_in(bytes@.take(i as int)))),
            whole >= 0,
        decreases bytes@.len() - i,
    {
        let b: u8 = bytes[i];
        proof {
            let upto = bytes@.take(i + 1);
            assert(upto.drop_last() =~= bytes@.take(i as int));
            assert(upto.last() == b);
            lemma_digits_value_nonnegative(bytes@.take(i as int));
            if is_digit(b) {
                let earlier = digits_in(bytes@.take(i as int));
                assert(digits_in(upto).drop_last() =~= earlier);
            }
        }
        if 48 <= b && b <= 57 {
            whole = clamp(whole as i128 * 10 + (b - 48) as i128);
        }
        i = i + 1;
    }
    let at: usize = i;
    proof {
        lemma_point_at(bytes@, at as int);
    }
    let mut unit: i64 = scale;
    let mut fraction: i64 = 0;
    assert(bytes@.skip(at as int).take(0) =~= seq![]);
    while i < bytes.len()
        invariant
            at <= i <= bytes@.len(),
            fraction == fraction_value(
                digits_in(bytes@.skip(at as int).take(i - at)),
                scale as int,
            ),
            unit > 1 ==> unit == unit_after(
                scale as int,
                digits_in(bytes@.skip(at as int).take(i - at)).len(),
            ),
            unit <= 1 ==> unit_after(
                scale as int,
                digits_in(bytes@.skip(at as int).take(i - at)).len(),
            ) <= 1,
            0 <= fraction,
            unit > 1 ==> fraction <= scale - unit,
            scale > 1 ==> fraction <= scale,
            scale <= 1 ==> fraction == 0 && unit <= 1,
        decreases bytes@.len() - i,
    {
        let b: u8 = bytes[i];
        proof {
            let rest = bytes@.skip(at as int);
            let upto = rest.take(i - at + 1);
            assert(upto.drop_last() =~= rest.take(i - at));
            assert(upto.last() == b);
            lemma_fraction_grows(digits_in(rest.take(i - at)), b - 48, scale as int);
        }
        if 48 <= b && b <= 57 && unit > 1 {
            unit = unit / 10;
            proof {
                let d = b - 48;
                assert(0 <= d * unit <= 9 * unit) by (nonlinear_arith)
                    requires
                        0 <= d <= 9,
                        unit >= 0,
                ;
            }
            fraction = fraction + (b - 48) as i64 * unit;
        }
        i = i + 1;
    }
    proof {
        assert(bytes@.skip(at as int).take(bytes@.len() - at) =~= bytes@.skip(at as int));
        assert(-0x8000_0000_0000_0000_0000_0000_0000_0000 <= whole * scale
            <= 0x7fff_ffff_ffff_ffff_0000_0000_0000_0000) by (nonlinear_arith)
            requires
                0 <= whole <= 0x7fff_ffff_ffff_ffff,
                -0x8000_0000_0000_0000 <= scale <= 0x7fff_ffff_ffff_ffff,
        ;
    }
    let scaled: i64 = clamp(whole as i128 * scale as i128);
    clamp(scaled as i128 + fraction as i128)
}

/// Text that holds nothing but zeros and points.
pub open spec fn is_zero(bytes: Seq<u8>) -> bool {
    forall|k: int| 0 <= k < bytes.len() ==> bytes[k] == 48 || bytes[k] == 46
}

/// Whether a size is zero, however many digits it is written with.
pub fn is_zero_decimal(value: &str) -> (zero: bool)
    ensures
        zero == is_zero(value.spec_bytes()),
{
    let bytes: &[u8] = value.as_bytes();
    let mut i: usize = 0;
    while i < bytes.len()
        invariant
            i <= bytes@.len(),
            bytes@ == value.spec_bytes(),
            forall|k: int| 0 <= k < i ==> bytes@[k] == 48 || bytes@[k] == 46,
        decreases bytes@.len() - i,
    {
        if bytes[i] != 48 && bytes[i] != 46 {
            return false;
        }
        i = i + 1;
    }
    true
}

// Laws

/// A decimal number without a sign: digits, and digits behind a point where there is one.
pub open spec fn is_plain(bytes: Seq<u8>) -> bool {
    forall|k: int| 0 <= k < bytes.len() && k != point_at(bytes) ==> is_digit(#[trigger] bytes[k])
}

/// How many digits stand behind the point.
pub open spec fn places(bytes: Seq<u8>) -> nat {
    digits_in(bytes.skip(point_at(bytes))).len()
}

/// A plain number, in units of its last digit: it is `units(bytes) / 10^places(bytes)`.
pub open spec fn units(bytes: Seq<u8>) -> int {
    let at = point_at(bytes);
    digits_value(digits_in(bytes.take(at))) * pow(10, places(bytes)) + digits_value(
        digits_in(bytes.skip(at)),
    )
}

/// `a <= b`, as numbers.
pub open spec fn at_most(a: Seq<u8>, b: Seq<u8>) -> bool {
    units(a) * pow(10, places(b)) <= units(b) * pow(10, places(a))
}

/// The key of a plain number counts it in units of which ten to some power make one, rounded
/// down, up to the largest key.
pub proof fn key_counts_units(bytes: Seq<u8>, k: nat)
    ensures
        decimal_key(bytes, pow(10, k)) == clamped(units(bytes) * pow(10, k) / pow(10, places(bytes))),
        units(bytes) >= 0,
{
    let at = point_at(bytes);
    lemma_point_in_reach(bytes);
    let front = bytes.take(at);
    let back = bytes.skip(at);
    lemma_digits_value_nonnegative(front);
    lemma_digits_value_nonnegative(back);
    let w = digits_value(digits_in(front));
    let v = digits_value(digits_in(back));
    let s = pow(10, k);
    let e = pow(10, places(bytes));
    lemma_pow_positive(10, k);
    lemma_pow_positive(10, places(bytes));
    lemma_fraction_counts_units(digits_in(back), k);
    let fraction = fraction_value(digits_in(back), s);
    assert(units(bytes) == w * e + v);
    assert(w * e >= 0) by (nonlinear_arith)
        requires
            w >= 0,
            e > 0,
    ;
    assert(units(bytes) * s == v * s + (w * s) * e) by (nonlinear_arith)
        requires
            units(bytes) == w * e + v,
    ;
    lemma_hoist_over_denominator(v * s, w * s, e as nat);
    assert(units(bytes) * s / e == fraction + w * s);
    assert(v * s >= 0 && w * s >= 0 && (w >= i64::MAX ==> w * s >= i64::MAX)) by (nonlinear_arith)
        requires
            v >= 0,
            w >= 0,
            s >= 1,
    ;
    lemma_div_is_ordered(0, v * s, e);
    assert(0int / e == 0) by {
        lemma_fundamental_div_mod_converse(0, e, 0, 0);
    }
    assert(clamped(w) * s >= i64::MAX || clamped(w) == w) by (nonlinear_arith)
        requires
            s >= 1,
            w >= 0,
            clamped(w) == w || clamped(w) == i64::MAX,
    ;
}

/// Prices that compare as numbers have keys that compare the same way, however they are
/// written.
pub proof fn keys_keep_the_order(a: Seq<u8>, b: Seq<u8>, k: nat)
    requires
        is_plain(a),
        is_plain(b),
        at_most(a, b),
    ensures
        decimal_key(a, pow(10, k)) <= decimal_key(b, pow(10, k)),
{
    key_counts_units(a, k);
    key_counts_units(b, k);
    lemma_pow_positive(10, k);
    lemma_pow_positive(10, places(a));
    lemma_pow_positive(10, places(b));
    let s = pow(10, k);
    let da = pow(10, places(a));
    let db = pow(10, places(b));
    let x = units(a);
    let y = units(b);
    let q = x * s / da;
    lemma_fundamental_div_mod(x * s, da);
    lemma_mod_bound(x * s, da);
    assert(x * s >= 0) by (nonlinear_arith)
        requires
            x >= 0,
            s >= 1,
    ;
    lemma_div_is_ordered(0, x * s, da);
    assert(0int / da == 0) by {
        lemma_fundamental_div_mod_converse(0, da, 0, 0);
    }
    assert(q * db <= y * s) by (nonlinear_arith)
        requires
            q * da <= x * s,
            x * db <= y * da,
            s >= 1,
            da >= 1,
            db >= 1,
    {
        assert((q * db) * da <= (y * s) * da) by {
            assert((q * db) * da == (q * da) * db);
            assert((q * da) * db <= (x * s) * db);
            assert((x * s) * db == (x * db) * s);
            assert((x * db) * s <= (y * da) * s);
            assert((y * da) * s == (y * s) * da);
        }
    }
    lemma_div_is_ordered(q * db, y * s, db);
    lemma_div_by_multiple(q, db);
}

/// Equal numbers have one key, however they are written.
pub proof fn equal_numbers_have_one_key(a: Seq<u8>, b: Seq<u8>, k: nat)
    requires
        is_plain(a),
        is_plain(b),
        at_most(a, b),
        at_most(b, a),
    ensures
        decimal_key(a, pow(10, k)) == decimal_key(b, pow(10, k)),
{
    keys_keep_the_order(a, b, k);
    keys_keep_the_order(b, a, k);
}

/// A size that holds nothing but zeros and points has the key zero, whatever the units.
pub proof fn zeros_have_the_key_zero(bytes: Seq<u8>, scale: int)
    requires
        is_zero(bytes),
    ensures
        decimal_key(bytes, scale) == 0,
{
    let at = point_at(bytes);
    lemma_point_in_reach(bytes);
    lemma_zeros_count_nothing(bytes.take(at));
    lemma_zeros_count_nothing(bytes.skip(at));
    lemma_no_fraction(digits_in(bytes.skip(at)), scale);
    assert(0 * scale == 0) by (nonlinear_arith);
}

/// A plain number with no digit beyond the last unit that has the key zero holds nothing but
/// zeros and a point.
pub proof fn the_key_zero_means_zero(bytes: Seq<u8>, k: nat)
    requires
        is_plain(bytes),
        places(bytes) <= k,
        decimal_key(bytes, pow(10, k)) == 0,
    ensures
        is_zero(bytes),
{
    key_counts_units(bytes, k);
    let at = point_at(bytes);
    lemma_point_in_reach(bytes);
    let front = bytes.take(at);
    let back = bytes.skip(at);
    let e = pow(10, places(bytes));
    let rest = pow(10, (k - places(bytes)) as nat);
    lemma_pow_positive(10, places(bytes));
    lemma_pow_positive(10, (k - places(bytes)) as nat);
    lemma_pow_adds(10, places(bytes), (k - places(bytes)) as nat);
    let n = units(bytes);
    assert(n * pow(10, k) == (n * rest) * e) by (nonlinear_arith)
        requires
            pow(10, k) == e * rest,
    ;
    assert(n * rest >= 0) by (nonlinear_arith)
        requires
            n >= 0,
            rest >= 1,
    ;
    lemma_div_by_multiple(n * rest, e);
    assert(n == 0) by (nonlinear_arith)
        requires
            n * rest == 0,
            rest >= 1,
    ;
    lemma_digits_value_nonnegative(front);
    lemma_digits_value_nonnegative(back);
    let w = digits_value(digits_in(front));
    let v = digits_value(digits_in(back));
    assert(w == 0 && v == 0) by (nonlinear_arith)
        requires
            w * e + v == 0,
            w >= 0,
            v >= 0,
            e >= 1,
    ;
    assert forall|i: int| 0 <= i < bytes.len() implies bytes[i] == 48 || bytes[i] == 46 by {
        if i < at {
            assert(front[i] == bytes[i]);
            lemma_nothing_counts_zeros(front, i);
        } else {
            assert(back[i - at] == bytes[i]);
            if i > at {
                lemma_nothing_counts_zeros(back, i - at);
            }
        }
    }
}

proof fn lemma_point_in_reach(bytes: Seq<u8>)
    ensures
        0 <= point_at(bytes) <= bytes.len(),
        point_at(bytes) < bytes.len() ==> bytes[point_at(bytes)] == 46,
    decreases bytes.len(),
{
    if bytes.len() > 0 && bytes[0] != 46 {
        lemma_point_in_reach(bytes.drop_first());
    }
}

proof fn lemma_front_digit(digits: Seq<int>)
    requires
        digits.len() > 0,
    ensures
        digits_value(digits) == digits[0] * pow(10, (digits.len() - 1) as nat) + digits_value(
            digits.drop_first(),
        ),
    decreases digits.len(),
{
    if digits.len() == 1 {
        lemma_pow0(10);
        assert(digits.drop_last() =~= seq![]);
        assert(digits.drop_first() =~= seq![]);
        assert(digits_value(digits.drop_last()) == 0);
    } else {
        let fewer = digits.drop_last();
        lemma_front_digit(fewer);
        assert(fewer.drop_first() =~= digits.drop_first().drop_last());
        let p = pow(10, (digits.len() - 2) as nat);
        assert(pow(10, (digits.len() - 1) as nat) == 10 * p) by {
            reveal(pow);
        }
        let d = digits[0];
        let x = digits_value(fewer.drop_first());
        assert((d * p + x) * 10 == d * (10 * p) + x * 10) by (nonlinear_arith);
    }
}

proof fn lemma_digits_fit(digits: Seq<int>)
    requires
        forall|k: int| 0 <= k < digits.len() ==> 0 <= #[trigger] digits[k] <= 9,
    ensures
        0 <= digits_value(digits) < pow(10, digits.len()),
    decreases digits.len(),
{
    reveal(pow);
    if digits.len() > 0 {
        let fewer = digits.drop_last();
        assert forall|k: int| 0 <= k < fewer.len() implies 0 <= #[trigger] fewer[k] <= 9 by {
            assert(fewer[k] == digits[k]);
        }
        lemma_digits_fit(fewer);
        assert(pow(10, digits.len()) == 10 * pow(10, fewer.len()));
    }
}

proof fn lemma_fraction_counts_units(digits: Seq<int>, k: nat)
    requires
        forall|i: int| 0 <= i < digits.len() ==> 0 <= #[trigger] digits[i] <= 9,
    ensures
        fraction_value(digits, pow(10, k)) == digits_value(digits) * pow(10, k) / pow(
            10,
            digits.len(),
        ),
    decreases digits.len(),
{
    lemma_digits_fit(digits);
    lemma_pow_positive(10, digits.len());
    lemma_pow0(10);
    let e = pow(10, digits.len());
    let n = digits_value(digits);
    if digits.len() == 0 {
    } else if k == 0 {
        lemma_fundamental_div_mod_converse(n, e, 0, n);
    } else {
        let rest = digits.drop_first();
        assert forall|i: int| 0 <= i < rest.len() implies 0 <= #[trigger] rest[i] <= 9 by {
            assert(rest[i] == digits[i + 1]);
        }
        lemma_fraction_counts_units(rest, (k - 1) as nat);
        lemma_front_digit(digits);
        lemma_pow_positive(10, (k - 1) as nat);
        lemma_pow_positive(10, rest.len());
        let s = pow(10, (k - 1) as nat);
        let d = pow(10, rest.len());
        assert(pow(10, k) == 10 * s && e == 10 * d) by {
            reveal(pow);
        }
        assert(pow(10, k) / 10 == s);
        let first = digits[0];
        let x = digits_value(rest);
        assert(n == first * d + x);
        assert(n * (10 * s) == 10 * (x * s + (first * s) * d)) by (nonlinear_arith)
            requires
                n == first * d + x,
        ;
        lemma_tenths_cancel(x * s + (first * s) * d, d);
        lemma_hoist_over_denominator(x * s, first * s, d as nat);
    }
}

proof fn lemma_tenths_cancel(x: int, d: int)
    requires
        d > 0,
    ensures
        (10 * x) / (10 * d) == x / d,
{
    lemma_fundamental_div_mod(x, d);
    lemma_mod_bound(x, d);
    let q = x / d;
    let r = x % d;
    assert(10 * x == q * (10 * d) + 10 * r) by (nonlinear_arith)
        requires
            x == d * q + r,
    ;
    lemma_fundamental_div_mod_converse(10 * x, 10 * d, q, 10 * r);
}

proof fn lemma_zeros_count_nothing(bytes: Seq<u8>)
    requires
        is_zero(bytes),
    ensures
        digits_value(digits_in(bytes)) == 0,
        forall|i: int| 0 <= i < digits_in(bytes).len() ==> #[trigger] digits_in(bytes)[i] == 0,
    decreases bytes.len(),
{
    if bytes.len() > 0 {
        lemma_zeros_count_nothing(bytes.drop_last());
        if is_digit(bytes.last()) {
            assert(bytes[bytes.len() - 1] == 48);
            assert(digits_in(bytes).drop_last() =~= digits_in(bytes.drop_last()));
        }
    }
}

proof fn lemma_no_fraction(digits: Seq<int>, scale: int)
    requires
        forall|i: int| 0 <= i < digits.len() ==> #[trigger] digits[i] == 0,
    ensures
        fraction_value(digits, scale) == 0,
    decreases digits.len(),
{
    if digits.len() > 0 && scale > 1 {
        let rest = digits.drop_first();
        assert forall|i: int| 0 <= i < rest.len() implies #[trigger] rest[i] == 0 by {
            assert(rest[i] == digits[i + 1]);
        }
        lemma_no_fraction(rest, scale / 10);
        assert(0 * (scale / 10) == 0) by (nonlinear_arith);
    }
}

proof fn lemma_nothing_counts_zeros(bytes: Seq<u8>, i: int)
    requires
        digits_value(digits_in(bytes)) == 0,
        0 <= i < bytes.len(),
        is_digit(bytes[i]),
    ensures
        bytes[i] == 48,
    decreases bytes.len(),
{
    let fewer = bytes.drop_last();
    lemma_digits_value_nonnegative(fewer);
    if is_digit(bytes.last()) {
        assert(digits_in(bytes).drop_last() =~= digits_in(fewer));
    }
    if i < fewer.len() {
        assert(fewer[i] == bytes[i]);
        lemma_nothing_counts_zeros(fewer, i);
    }
}

/// A time is written in seconds: the whole ones, and the thousandths behind the point without zeros
/// at the end, but one digit at least.
pub proof fn times_are_written_in_seconds(ms: nat)
    ensures
        ({
            let t = seconds_text(ms);
            let w = text::nat_text(ms / 1000).len() as int;
            let behind = t.len() - w - 1;
            &&& t.take(w) == text::nat_text(ms / 1000)
            &&& t[w] == '.'
            &&& 1 <= behind <= 3
            &&& t[w + 1] == text::digit_char((ms / 100 % 10) as int)
            &&& behind >= 2 ==> t[w + 2] == text::digit_char((ms / 10 % 10) as int)
            &&& behind == 3 ==> t[w + 3] == text::digit_char((ms % 10) as int)
            &&& behind < 3 ==> ms % 10 == 0
            &&& behind < 2 ==> ms % 100 == 0
            &&& behind > 1 ==> t.last() != '0'
        }),
{
    let t = seconds_text(ms);
    let w = text::nat_text(ms / 1000).len() as int;
    assert(t.take(w) =~= text::nat_text(ms / 1000));
    assert((ms / 10 % 10) * 10 + ms % 10 == ms % 100);
}

/// Digits count by tens in their order; what is no digit does not count, and the first point parts
/// the whole units from what is behind it.
pub proof fn numbers_are_read_digit_by_digit(digits: Seq<int>, d: int, bytes: Seq<u8>, b: u8)
    ensures
        digits_value(Seq::empty()) == 0,
        digits_value(digits.push(d)) == 10 * digits_value(digits) + d,
        48 <= b <= 57 ==> digits_in(bytes.push(b)) == digits_in(bytes).push(b - 48),
        !(48 <= b <= 57) ==> digits_in(bytes.push(b)) == digits_in(bytes),
        digits_in(Seq::empty()) == Seq::<int>::empty(),
        (forall|k: int| 0 <= k < bytes.len() ==> #[trigger] bytes[k] != 46) ==> point_at(
            bytes + seq![46u8, b],
        ) == bytes.len() && point_at(bytes) == bytes.len(),
{
    assert(digits.push(d).drop_last() =~= digits);
    assert(bytes.push(b).drop_last() =~= bytes);
    if forall|k: int| 0 <= k < bytes.len() ==> #[trigger] bytes[k] != 46 {
        let more = bytes + seq![46u8, b];
        lemma_point_at(bytes, bytes.len() as int);
        lemma_point_at(more, bytes.len() as int);
    }
}

} // verus!
