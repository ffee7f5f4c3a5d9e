//! Finding the market that is traded on.

use vstd::prelude::*;
use vstd::string::*;

use crate::json;
use crate::json::{Json, JsonView};
use crate::poly_gamma;
use crate::poly_gamma::{collect_texts, read_list, slug_for_epoch};
use crate::text::{join2, Text};

verus! {

/// Why the market could not be looked up.
pub enum GammaError {
    RequestFailed(String),
    ParseError(String),
}

/// The message of a failure.
pub open spec fn gamma_message(e: GammaError) -> Text {
    match e {
        GammaError::RequestFailed(s) => "gamma request failed: "@ + s@,
        GammaError::ParseError(s) => "gamma response parse error: "@ + s@,
    }
}

impl GammaError {
    /// The message of this failure.
    pub fn message(&self) -> (m: String)
        ensures
            m@ == gamma_message(*self),
    {
        match self {
            GammaError::RequestFailed(s) => join2("gamma request failed: ", s.as_str()),
            GammaError::ParseError(s) => join2("gamma response parse error: ", s.as_str()),
        }
    }
}

/// Seconds from one market to the next.
pub const WINDOW_SECS: i64 = 300;

/// The time at which the market begins that runs at a time. Before the epoch it is the one
/// after.
pub open spec fn window_epoch(now: int) -> int {
    if now >= 0 {
        now - now % 300
    } else {
        now + (-now) % 300
    }
}

/// The time at which the market begins that runs at a time.
pub fn current_window_epoch(now_epoch: i64) -> (epoch: i64)
    ensures
        epoch == window_epoch(now_epoch as int),
{
    let now: i128 = now_epoch as i128;
    if now >= 0 {
        (now - now % 300) as i64
    } else {
        let back: i128 = -now;
        (now + back % 300) as i64
    }
}

/// The names of the markets to look up: the one that runs, and the next.
pub fn slugs_to_try(now_epoch: i64) -> (slugs: Vec<String>)
    requires
        now_epoch <= i64::MAX - 300,
    ensures
        json::strings(slugs@) == seq![
            poly_gamma::slug_of(window_epoch(now_epoch as int)),
            poly_gamma::slug_of(window_epoch(now_epoch as int) + 300),
        ],
{
    let epoch: i64 = current_window_epoch(now_epoch);
    let mut slugs: Vec<String> = Vec::new();
    slugs.push(slug_for_epoch(epoch));
    slugs.push(slug_for_epoch(epoch + WINDOW_SECS));
    assert(json::strings(slugs@) =~= seq![
        poly_gamma::slug_of(window_epoch(now_epoch as int)),
        poly_gamma::slug_of(window_epoch(now_epoch as int) + 300),
    ]);
    slugs
}

// Lists

/// The tokens in a value: the texts of a list, or of a list that is itself written as text.
pub open spec fn token_ids_of(j: JsonView, listed: Option<Seq<Text>>) -> Seq<Text> {
    match j {
        JsonView::Array(items) => poly_gamma::texts_among(items),
        JsonView::Str(_) => match listed {
            Some(l) => l,
            None => seq![],
        },
        _ => seq![],
    }
}

/// The outcomes in a value: as the tokens, but text that is no list is the one outcome.
pub open spec fn outcomes_of(j: JsonView, listed: Option<Seq<Text>>) -> Seq<Text> {
    match j {
        JsonView::Array(items) => poly_gamma::texts_among(items),
        JsonView::Str(s) => match listed {
            Some(l) => l,
            None => seq![s],
        },
        _ => seq![],
    }
}

/// The list that the text of a value writes.
pub open spec fn listed_in(j: JsonView) -> Option<Seq<Text>> {
    match j {
        JsonView::Str(s) => poly_gamma::listed_texts(s),
        _ => None,
    }
}

fn empty_list() -> (v: Vec<String>)
    ensures
        json::strings(v@) == Seq::<Text>::empty(),
{
    let v: Vec<String> = Vec::new();
    assert(json::strings(v@) =~= Seq::<Text>::empty());
    v
}

/// The tokens in a value.
pub fn parse_token_ids(value: &Json) -> (v: Vec<String>)
    ensures
        json::strings(v@) == token_ids_of(value@, listed_in(value@)),
{
    match value {
        Json::Array(items) => {
            assert(json::items_view(items@).len() == items@.len());
            collect_texts(items)
        },
        Json::Str(s) => match read_list(s.as_str()) {
            Some(l) => l,
            None => empty_list(),
        },
        _ => empty_list(),
    }
}

/// The outcomes in a value.
pub fn parse_outcomes(value: &Json) -> (v: Vec<String>)
    ensures
        json::strings(v@) == outcomes_of(value@, listed_in(value@)),
{
    match value {
        Json::Array(items) => {
            assert(json::items_view(items@).len() == items@.len());
            collect_texts(items)
        },
        Json::Str(s) => match read_list(s.as_str()) {
            Some(l) => l,
            None => {
                let mut v: Vec<String> = Vec::new();
                v.push(s.clone());
                assert(json::strings(v@) =~= seq![s@]);
                v
            },
        },
        _ => empty_list(),
    }
}

// Times

/// A point in time: seconds since the epoch, and nanoseconds.
#[derive(Clone, Copy, Debug, PartialEq, Eq, Structural)]
pub struct Time {
    pub secs: i64,
    pub nanos: u32,
}

/// One point in time lies behind another.
pub open spec fn later(a: Time, b: Time) -> bool {
    a.secs > b.secs || (a.secs == b.secs && a.nanos > b.nanos)
}

fn is_later(a: Time, b: Time) -> (l: bool)
    ensures
        l == later(a, b),
{
    a.secs > b.secs || (a.secs == b.secs && a.nanos > b.nanos)
}

/// The point in time that a text writes, as seconds and nanoseconds.
pub uninterp spec fn time_of_text(s: Seq<char>) -> Option<(i64, u32)>;

/// What an optional point in time holds.
pub open spec fn time_parts(t: Option<Time>) -> Option<(i64, u32)> {
    match t {
        Some(t) => Some((t.secs, t.nanos)),
        None => None,
    }
}

/// What seconds and nanoseconds stand for.
pub open spec fn time_from(p: Option<(i64, u32)>) -> Option<Time> {
    match p {
        Some((secs, nanos)) => Some(Time { secs, nanos }),
        None => None,
    }
}

/// Reads a point in time with the `FromStr` of `chrono`'s `DateTime<Utc>`, which is a function
/// of the text.
#[verifier::external_body]
fn parse_time(s: &str) -> (t: Option<Time>)
    ensures
        time_parts(t) == time_of_text(s@),
{
    let parsed: Result<chrono::DateTime<chrono::Utc>, _> = s.parse();
    parsed.ok().map(|t| Time { secs: t.timestamp(), nanos: t.timestamp_subsec_nanos() })
}

// Markets

/// A market in the answer to a lookup.
pub struct GammaMarket {
    pub id: Option<Json>,
    pub question: Option<String>,
    pub slug: Option<String>,
    pub condition_id: Option<String>,
    pub clob_token_ids: Option<Json>,
    pub outcomes: Option<Json>,
    pub start_date: Option<String>,
    pub end_date: Option<String>,
    pub active: Option<bool>,
    pub closed: Option<bool>,
}

/// The answer to a lookup.
pub struct GammaEvent {
    pub markets: Option<Vec<GammaMarket>>,
}

/// A market that can be traded on.
pub struct BtcFiveMinMarket {
    pub market_id: String,
    pub question: String,
    pub slug: String,
    pub condition_id: String,
    pub clob_token_ids: Vec<String>,
    pub outcomes: Vec<String>,
    pub start_date: Time,
    pub end_date: Time,
}

/// What a market that can be traded on holds.
pub struct FoundView {
    pub market_id: Text,
    pub question: Text,
    pub slug: Text,
    pub condition_id: Text,
    pub clob_token_ids: Seq<Text>,
    pub outcomes: Seq<Text>,
    pub start_date: Time,
    pub end_date: Time,
}

impl View for BtcFiveMinMarket {
    type V = FoundView;

    open spec fn view(&self) -> FoundView {
        FoundView {
            market_id: self.market_id@,
            question: self.question@,
            slug: self.slug@,
            condition_id: self.condition_id@,
            clob_token_ids: json::strings(self.clob_token_ids@),
            outcomes: json::strings(self.outcomes@),
            start_date: self.start_date,
            end_date: self.end_date,
        }
    }
}

/// What a look at one market leads to: the search ends without one, goes on, or has found it.
pub enum Verdict {
    GiveUp,
    Skip,
    Found(BtcFiveMinMarket),
}

/// What a verdict holds.
pub enum VerdictView {
    GiveUp,
    Skip,
    Found(FoundView),
}

impl View for Verdict {
    type V = VerdictView;

    open spec fn view(&self) -> VerdictView {
        match self {
            Verdict::GiveUp => VerdictView::GiveUp,
            Verdict::Skip => VerdictView::Skip,
            Verdict::Found(m) => VerdictView::Found(m@),
        }
    }
}

/// What is read in the texts of a market: its tokens, its outcomes, and when it ends and begins.
pub struct Readings {
    pub tokens: Seq<Text>,
    pub outcomes: Seq<Text>,
    pub end: Option<Time>,
    pub start: Option<Time>,
}

/// The time in an optional text.
pub open spec fn time_in(s: Option<String>) -> Option<Time> {
    match s {
        Some(s) => time_from(time_of_text(s@)),
        None => None,
    }
}

/// What is read in the texts of a market.
pub open spec fn readings_of(m: GammaMarket) -> Readings {
    Readings {
        tokens: match m.clob_token_ids {
            Some(j) => token_ids_of(j@, listed_in(j@)),
            None => seq![],
        },
        outcomes: match m.outcomes {
            Some(j) => outcomes_of(j@, listed_in(j@)),
            None => seq!["Up"@, "Down"@],
        },
        end: time_in(m.end_date),
        start: time_in(m.start_date),
    }
}

/// The name of a market: its own where that is text or a number, or else that of its condition.
pub open spec fn market_id_of(id: Option<Json>, condition_id: Text) -> Text {
    match id {
        Some(j) => match j@ {
            JsonView::Str(s) => s,
            JsonView::Number(n) => json::number_text(n),
            _ => condition_id,
        },
        None => condition_id,
    }
}

/// A market is over or not active.
pub open spec fn is_over(m: GammaMarket) -> bool {
    m.closed == Some(true) || m.active == Some(false)
}

/// What a look at one market leads to. A market without a question ends the search, and so does
/// one without condition, tokens or a readable end, unless it is over; one that is over, has no
/// tokens in its list, or has ended is passed over.
pub open spec fn verdict_of(m: GammaMarket, r: Readings, now: Time) -> VerdictView {
    if m.question is None {
        VerdictView::GiveUp
    } else if is_over(m) {
        VerdictView::Skip
    } else if m.condition_id is None || m.clob_token_ids is None {
        VerdictView::GiveUp
    } else if r.tokens.len() == 0 {
        VerdictView::Skip
    } else if r.end is None {
        VerdictView::GiveUp
    } else if !later(r.end->0, now) {
        VerdictView::Skip
    } else {
        VerdictView::Found(
            FoundView {
                market_id: market_id_of(m.id, m.condition_id->0@),
                question: m.question->0@,
                slug: match m.slug {
                    Some(s) => s@,
                    None => seq![],
                },
                condition_id: m.condition_id->0@,
                clob_token_ids: r.tokens,
                outcomes: r.outcomes,
                start_date: match r.start {
                    Some(t) => t,
                    None => now,
                },
                end_date: r.end->0,
            },
        )
    }
}

/// The market that is found among some: the first verdict that is not to go on decides.
pub open spec fn search(markets: Seq<GammaMarket>, now: Time) -> Option<FoundView>
    decreases markets.len(),
{
    if markets.len() == 0 {
        None
    } else {
        match verdict_of(markets[0], readings_of(markets[0]), now) {
            VerdictView::GiveUp => None,
            VerdictView::Found(f) => Some(f),
            VerdictView::Skip => search(markets.drop_first(), now),
        }
    }
}

fn read_time(s: &Option<String>) -> (t: Option<Time>)
    ensures
        t == time_in(*s),
{
    match s {
        Some(s) => {
            let t: Option<Time> = parse_time(s.as_str());
            assert(t == time_from(time_parts(t)));
            t
        },
        None => None,
    }
}

fn default_outcomes() -> (v: Vec<String>)
    ensures
        json::strings(v@) == seq!["Up"@, "Down"@],
{
    let mut v: Vec<String> = Vec::new();
    v.push("Up".to_owned());
    v.push("Down".to_owned());
    assert(json::strings(v@) =~= seq!["Up"@, "Down"@]);
    v
}

/// What was read in the texts of a market.
pub struct MarketReadings {
    pub tokens: Vec<String>,
    pub outcomes: Vec<String>,
    pub end: Option<Time>,
    pub start: Option<Time>,
}

impl View for MarketReadings {
    type V = Readings;

    open spec fn view(&self) -> Readings {
        Readings {
            tokens: json::strings(self.tokens@),
            outcomes: json::strings(self.outcomes@),
            end: self.end,
            start: self.start,
        }
    }
}

fn read_market(m: &GammaMarket) -> (r: MarketReadings)
    ensures
        r@ == readings_of(*m),
{
    let tokens: Vec<String> = match &m.clob_token_ids {
        Some(j) => parse_token_ids(j),
        None => empty_list(),
    };
    let outcomes: Vec<String> = match &m.outcomes {
        Some(j) => parse_outcomes(j),
        None => default_outcomes(),
    };
    MarketReadings {
        tokens,
        outcomes,
        end: read_time(&m.end_date),
        start: read_time(&m.start_date),
    }
}

fn name_market(id: &Option<Json>, condition_id: &str) -> (s: String)
    ensures
        s@ == market_id_of(*id, condition_id@),
{
    match id {
        Some(j) => match j {
            Json::Str(s) => s.clone(),
            Json::Number(_) => j.to_text(),
            _ => condition_id.to_owned(),
        },
        None => condition_id.to_owned(),
    }
}

/// Looks at one market, given what was read in its texts.
pub fn judge_market(m: &GammaMarket, r: MarketReadings, now: Time) -> (v: Verdict)
    ensures
        v@ == verdict_of(*m, r@, now),
{
    let closed: bool = match m.closed {
        Some(b) => b,
        None => false,
    };
    let active: bool = match m.active {
        Some(b) => b,
        None => true,
    };
    match &m.question {
        None => Verdict::GiveUp,
        Some(question) => {
            if closed || !active {
                return Verdict::Skip;
            }
            match (&m.condition_id, &m.clob_token_ids) {
                (Some(condition_id), Some(_)) => {
                    if r.tokens.len() == 0 {
                        return Verdict::Skip;
                    }
                    match r.end {
                        None => Verdict::GiveUp,
                        Some(end) => {
                            if !is_later(end, now) {
                                return Verdict::Skip;
                            }
                            let slug: String = match &m.slug {
                                Some(s) => s.clone(),
                                None => {
                                    let s: String = String::new();
                                    assert(s@ =~= seq![]);
                                    s
                                },
                            };
                            Verdict::Found(
                                BtcFiveMinMarket {
                                    market_id: name_market(&m.id, condition_id.as_str()),
                                    question: question.clone(),
                                    slug,
                                    condition_id: condition_id.clone(),
                                    clob_token_ids: r.tokens,
                                    outcomes: r.outcomes,
                                    start_date: match r.start {
                                        Some(t) => t,
                                        None => now,
                                    },
                                    end_date: end,
                                },
                            )
                        },
                    }
                },
                _ => Verdict::GiveUp,
            }
        },
    }
}

/// What an optional market holds.
pub open spec fn opt_found(m: Option<BtcFiveMinMarket>) -> Option<FoundView> {
    match m {
        Some(m) => Some(m@),
        None => None,
    }
}

/// The market in the answer to a lookup, if there is one to trade on at a time.
pub fn extract_market(event: &GammaEvent, now: Time) -> (m: Option<BtcFiveMinMarket>)
    ensures
        opt_found(m) == (match event.markets {
            Some(markets) => search(markets@, now),
            None => None,
        }),
{
    let markets: &Vec<GammaMarket> = match &event.markets {
        Some(markets) => markets,
        None => {
            return None;
        },
    };
    let mut i: usize = 0;
    assert(markets@.skip(0) =~= markets@);
    while i < markets.len()
        invariant
            i <= markets@.len(),
            event.markets == Some(*markets),
            search(markets@, now) == search(markets@.skip(i as int), now),
        decreases markets@.len() - i,
    {
        proof {
            assert(markets@.skip(i as int)[0] == markets@[i as int]);
            assert(markets@.skip(i as int).drop_first() =~= markets@.skip(i + 1));
        }
        let r: MarketReadings = read_market(&markets[i]);
        match judge_market(&markets[i], r, now) {
            Verdict::GiveUp => {
                return None;
            },
            Verdict::Found(m) => {
                return Some(m);
            },
            Verdict::Skip => {},
        }
        i = i + 1;
    }
    None
}

/// A market that is found has tokens and has not ended.
pub proof fn found_markets_are_open(markets: Seq<GammaMarket>, now: Time)
    ensures
        search(markets, now) matches Some(f) ==> f.clob_token_ids.len() > 0 && later(
            f.end_date,
            now,
        ),
    decreases markets.len(),
{
    if markets.len() > 0 {
        found_markets_are_open(markets.drop_first(), now);
    }
}

/// The market that runs begins at a multiple of five minutes, no later than now, and less than five
/// minutes ago.
pub proof fn windows_hold_the_present(now: int)
    requires
        now >= 0,
    ensures
        window_epoch(now) % 300 == 0,
        window_epoch(now) <= now < window_epoch(now) + 300,
{
}

/// A market with a question, a condition, tokens and an end that is yet to come is found, unless it
/// is closed or not active, with what is known of it.
pub proof fn open_markets_are_found(m: GammaMarket, r: Readings, now: Time)
    requires
        m.question is Some && m.condition_id is Some && m.clob_token_ids is Some,
        m.closed != Some(true) && m.active != Some(false),
        r.tokens.len() > 0,
        r.end is Some,
        r.end->0.secs > now.secs || (r.end->0.secs == now.secs && r.end->0.nanos > now.nanos),
    ensures
        verdict_of(m, r, now) is Found,
        ({
            let f = verdict_of(m, r, now)->Found_0;
            &&& f.question == m.question->0@ && f.condition_id == m.condition_id->0@
            &&& f.clob_token_ids == r.tokens && f.outcomes == r.outcomes
            &&& f.end_date == r.end->0
            &&& r.start is Some ==> f.start_date == r.start->0
            &&& r.start is None ==> f.start_date == now
            &&& m.slug is Some ==> f.slug == m.slug->0@
            &&& m.id is None ==> f.market_id == m.condition_id->0@
            &&& m.id matches Some(j) ==> (j@ matches JsonView::Str(s) ==> f.market_id == s)
        }),
{
}

/// A market is passed over that is closed, not active, without tokens or over.
pub open spec fn is_passed_over(m: GammaMarket, r: Readings, now: Time) -> bool {
    m.question is Some && (m.closed == Some(true) || m.active == Some(false) || (m.condition_id is Some
        && m.clob_token_ids is Some && (r.tokens.len() == 0 || (r.end is Some && (r.end->0.secs
        < now.secs || (r.end->0.secs == now.secs && r.end->0.nanos <= now.nanos))))))
}

/// The first market that is not passed over decides the search.
pub proof fn first_open_market_is_found(markets: Seq<GammaMarket>, now: Time, i: int)
    requires
        0 <= i < markets.len(),
        forall|k: int|
            0 <= k < i ==> is_passed_over(
                #[trigger] markets[k],
                readings_of(markets[k]),
                now,
            ),
        !is_passed_over(markets[i], readings_of(markets[i]), now),
    ensures
        search(markets, now) == (match verdict_of(markets[i], readings_of(markets[i]), now) {
            VerdictView::Found(f) => Some(f),
            _ => None,
        }),
    decreases i,
{
    if i > 0 {
        let rest = markets.drop_first();
        assert(is_passed_over(markets[0], readings_of(markets[0]), now));
        assert forall|k: int| 0 <= k < i - 1 implies is_passed_over(
            #[trigger] rest[k],
            readings_of(rest[k]),
            now,
        ) by {
            assert(rest[k] == markets[k + 1]);
        }
        first_open_market_is_found(rest, now, i - 1);
    }
}

/// Lists of texts are read as they are. A text that is no list holds no token, but one outcome.
pub proof fn lists_are_read_as_they_are(texts: Seq<Text>, items: Seq<JsonView>, s: Text)
    requires
        items.len() == texts.len(),
        forall|k: int| 0 <= k < items.len() ==> #[trigger] items[k] == JsonView::Str(texts[k]),
    ensures
        token_ids_of(JsonView::Array(items), None) == texts,
        outcomes_of(JsonView::Array(items), None) == texts,
        token_ids_of(JsonView::Str(s), Some(texts)) == texts,
        outcomes_of(JsonView::Str(s), Some(texts)) == texts,
        token_ids_of(JsonView::Str(s), None) == Seq::<Text>::empty(),
        outcomes_of(JsonView::Str(s), None) == seq![s],
{
    poly_gamma::texts_are_kept(texts, items);
}

} // verus!
