//! Looking up a market: when to ask, what counts as an answer, and what is kept of it.

use vstd::prelude::*;
use vstd::string::*;

use crate::binance_sync::field_or_null;
use crate::config;
use crate::config::{
    double_delay, gamma_market_url, GAMMA_API_BASE, GAMMA_LOOKUP_DEADLINE, GAMMA_RETRY_BASE_SECS,
    GAMMA_RETRY_MAX_SECS,
};
use crate::json;
use crate::json::{Json, JsonView};
use crate::text;
use crate::text::{join3, push_i64, push_u64, same_text, Text};
use crate::types;
use crate::types::{Event, EventView, RawJson, RawView};

verus! {

/// What is known of a market once it was found.
pub struct MarketInfo {
    pub condition_id: String,
    pub clob_token_ids: Vec<String>,
    pub slug: String,
    pub market_start: i64,
}

/// What the knowledge of a market holds.
pub struct InfoView {
    pub condition_id: Text,
    pub clob_token_ids: Seq<Text>,
    pub slug: Text,
    pub market_start: i64,
}

impl View for MarketInfo {
    type V = InfoView;

    open spec fn view(&self) -> InfoView {
        InfoView {
            condition_id: self.condition_id@,
            clob_token_ids: json::strings(self.clob_token_ids@),
            slug: self.slug@,
            market_start: self.market_start,
        }
    }
}

/// The name of the market that starts at a time.
pub open spec fn slug_of(market_start: int) -> Text {
    "btc-updown-5m-"@ + text::int_text(market_start)
}

/// The name of the market that starts at a time.
pub fn slug_for_epoch(epoch: i64) -> (slug: String)
    ensures
        slug@ == slug_of(epoch as int),
{
    let mut slug: String = "btc-updown-5m-".to_owned();
    push_i64(&mut slug, epoch);
    slug
}

/// The texts that `serde_json::from_str::<Vec<String>>` reads in a text.
pub uninterp spec fn listed_texts(s: Seq<char>) -> Option<Seq<Seq<char>>>;

/// What optional lists of strings hold.
pub open spec fn opt_strings(v: Option<Vec<String>>) -> Option<Seq<Text>> {
    match v {
        Some(v) => Some(json::strings(v@)),
        None => None,
    }
}

/// Reads a list of strings with `serde_json::from_str::<Vec<String>>`. The result is a
/// function of the text.
#[verifier::external_body]
pub(crate) fn read_list(s: &str) -> (v: Option<Vec<String>>)
    ensures
        opt_strings(v) == listed_texts(s@),
{
    serde_json::from_str::<Vec<String>>(s).ok()
}

/// The debug form of a text.
pub uninterp spec fn debug_text(s: Seq<char>) -> Seq<char>;

/// Writes the debug form of a text with `format!`, which depends on the text alone.
#[verifier::external_body]
pub(crate) fn debug_form(s: &str) -> (d: String)
    ensures
        d@ == debug_text(s@),
{
    format!("{s:?}")
}

/// The texts among some items.
pub open spec fn texts_among(items: Seq<JsonView>) -> Seq<Text>
    decreases items.len(),
{
    if items.len() == 0 {
        seq![]
    } else {
        match json::str_of(items.last()) {
            Some(s) => texts_among(items.drop_last()).push(s),
            None => texts_among(items.drop_last()),
        }
    }
}

/// A list of texts: an array, or an array written in a string.
pub open spec fn text_list_of(j: JsonView) -> Option<Seq<Text>> {
    match j {
        JsonView::Array(items) => Some(texts_among(items)),
        JsonView::Str(s) => listed_texts(s),
        _ => None,
    }
}

/// Reads the texts among some items.
pub fn collect_texts(items: &Vec<Json>) -> (v: Vec<String>)
    ensures
        json::strings(v@) == texts_among(json::items_view(items@)),
{
    let ghost all = json::items_view(items@);
    let mut v: Vec<String> = Vec::new();
    let mut i: usize = 0;
    assert(all.take(0) =~= seq![]);
    assert(json::strings(v@) =~= seq![]);
    while i < items.len()
        invariant
            i <= items.len(),
            all == json::items_view(items@),
            json::strings(v@) == texts_among(all.take(i as int)),
        decreases items.len() - i,
    {
        let ghost before = json::strings(v@);
        proof {
            assert(all.take(i + 1).drop_last() =~= all.take(i as int));
            assert(all.take(i + 1).last() == items@[i as int]@);
        }
        match items[i].as_str() {
            Some(s) => {
                v.push(s.to_owned());
                assert(json::strings(v@) =~= before.push(s@));
            },
            None => {},
        }
        i = i + 1;
    }
    assert(all.take(all.len() as int) =~= all);
    v
}

/// Reads a list of texts: an array, or an array written in a string.
pub fn parse_string_or_vec(val: Option<&Json>) -> (v: Option<Vec<String>>)
    ensures
        opt_strings(v) == match json::opt_json(val) {
            Some(j) => text_list_of(j),
            None => None,
        },
{
    match val {
        Some(Json::Array(items)) => Some(collect_texts(items)),
        Some(Json::Str(s)) => read_list(s.as_str()),
        _ => None,
    }
}

/// An answer with nothing in it.
pub open spec fn is_empty_answer(data: JsonView) -> bool {
    match data {
        JsonView::Null => true,
        JsonView::Object(fields) => fields.len() == 0,
        JsonView::Array(items) => items.len() == 0,
        _ => false,
    }
}

/// The debug form of optional text.
pub open spec fn opt_debug(s: Option<Text>) -> Text {
    match s {
        Some(s) => "Some("@ + debug_text(s) + ")"@,
        None => "None"@,
    }
}

/// What is wrong with a list of which two texts are expected.
pub open spec fn list_fault(j: JsonView, name: Text) -> Option<Text> {
    match text_list_of(j) {
        Some(list) => if list.len() != 2 {
            Some("expected 2 "@ + name + ", got "@ + text::nat_text(list.len()))
        } else {
            None
        },
        None => Some("cannot parse "@ + name + ": "@ + json::json_text(j)),
    }
}

/// What is wrong with an answer, if anything is. The first fault counts.
pub open spec fn market_fault(data: JsonView, slug: Text) -> Option<Text> {
    if is_empty_answer(data) {
        Some("empty response"@)
    } else if json::str_of(json::field(data, "slug"@)) != Some(slug) {
        Some(
            "slug mismatch: expected "@ + slug + ", got "@ + opt_debug(
                json::str_of(json::field(data, "slug"@)),
            ),
        )
    } else if json::bool_of(json::field(data, "closed"@)) == Some(true) {
        Some("market is closed"@)
    } else if !json::truthy(json::field(data, "enableOrderBook"@)) {
        Some("order book not enabled"@)
    } else if list_fault(json::field(data, "outcomes"@), "outcomes"@) is Some {
        list_fault(json::field(data, "outcomes"@), "outcomes"@)
    } else {
        list_fault(json::field(data, "clobTokenIds"@), "clobTokenIds"@)
    }
}

fn empty_answer(data: &Json) -> (b: bool)
    ensures
        b == is_empty_answer(data@),
{
    match data {
        Json::Null => true,
        Json::Object(fields) => {
            assert(json::fields_view(fields@).len() == fields@.len());
            fields.len() == 0
        },
        Json::Array(items) => {
            assert(json::items_view(items@).len() == items@.len());
            items.len() == 0
        },
        _ => false,
    }
}

fn check_list(j: Option<&Json>, name: &str) -> (fault: Option<String>)
    ensures
        json::opt_string(fault) == list_fault(
            match json::opt_json(j) {
                Some(j) => j,
                None => JsonView::Null,
            },
            name@,
        ),
{
    match parse_string_or_vec(j) {
        Some(list) => {
            if list.len() != 2 {
                let mut s: String = join3("expected 2 ", name, ", got ");
                push_u64(&mut s, list.len() as u64);
                Some(s)
            } else {
                None
            }
        },
        None => {
            let mut s: String = join3("cannot parse ", name, ": ");
            match j {
                Some(j) => json::push_json(&mut s, j),
                None => json::push_json(&mut s, &Json::Null),
            }
            Some(s)
        },
    }
}

/// What is wrong with an answer, if anything is.
pub fn validate_market(data: &Json, slug: &str) -> (fault: Option<String>)
    ensures
        json::opt_string(fault) == market_fault(data@, slug@),
{
    if empty_answer(data) {
        return Some("empty response".to_owned());
    }
    let named: Option<&str> = data.str_field("slug");
    let right: bool = match named {
        Some(s) => same_text(s, slug),
        None => false,
    };
    if !right {
        let mut s: String = join3("slug mismatch: expected ", slug, ", got ");
        let ghost head = s@;
        match named {
            Some(n) => {
                s.append("Some(");
                s.append(debug_form(n).as_str());
                s.append(")");
                assert(s@ =~= head + opt_debug(Some(n@)));
            },
            None => s.append("None"),
        }
        return Some(s);
    }
    match data.bool_field("closed") {
        Some(true) => {
            return Some("market is closed".to_owned());
        },
        _ => {},
    }
    let enabled: bool = match data.get("enableOrderBook") {
        Some(v) => v.is_truthy(),
        None => false,
    };
    if !enabled {
        return Some("order book not enabled".to_owned());
    }
    match check_list(data.get("outcomes"), "outcomes") {
        Some(fault) => Some(fault),
        None => check_list(data.get("clobTokenIds"), "clobTokenIds"),
    }
}

/// A list of texts that is empty where there is none.
pub open spec fn list_or_empty(j: JsonView) -> Seq<Text> {
    match text_list_of(j) {
        Some(list) => list,
        None => seq![],
    }
}

/// What is kept of an answer.
pub open spec fn meta_json(data: JsonView) -> JsonView {
    JsonView::Object(
        seq![
            (
                "clob_token_ids"@,
                json::text_list(list_or_empty(json::field(data, "clobTokenIds"@))),
            ),
            ("condition_id"@, json::field(data, "conditionId"@)),
            ("end_date"@, json::field(data, "endDate"@)),
            ("game_start_time"@, json::field(data, "gameStartTime"@)),
            ("market_id"@, json::field(data, "id"@)),
            ("outcomes"@, json::text_list(list_or_empty(json::field(data, "outcomes"@)))),
            ("question"@, json::field(data, "question"@)),
            ("slug"@, json::field(data, "slug"@)),
        ],
    )
}

fn read_or_empty(j: Option<&Json>) -> (v: Vec<String>)
    ensures
        json::strings(v@) == list_or_empty(
            match json::opt_json(j) {
                Some(j) => j,
                None => JsonView::Null,
            },
        ),
{
    match parse_string_or_vec(j) {
        Some(v) => v,
        None => {
            let v: Vec<String> = Vec::new();
            assert(json::strings(v@) =~= seq![]);
            v
        },
    }
}

/// What is kept of an answer.
pub fn parse_market_meta(data: &Json) -> (j: Json)
    ensures
        j@ == meta_json(data@),
{
    let j: Json = Json::object3(
        "clob_token_ids",
        Json::texts(&read_or_empty(data.get("clobTokenIds"))),
        "condition_id",
        field_or_null(data, "conditionId"),
        "end_date",
        field_or_null(data, "endDate"),
    ).with_field("game_start_time", field_or_null(data, "gameStartTime")).with_field(
        "market_id",
        field_or_null(data, "id"),
    ).with_field("outcomes", Json::texts(&read_or_empty(data.get("outcomes")))).with_field(
        "question",
        field_or_null(data, "question"),
    ).with_field("slug", field_or_null(data, "slug"));
    assert(j@->Object_0 =~= meta_json(data@)->Object_0);
    j
}

// The lookup

/// A lookup that goes on until a market is found or its time is over.
pub struct GammaLookup {
    pub market_start: i64,
    pub backoff: u64,
    pub attempt: u32,
}

/// How one attempt went.
pub enum LookupOutcome {
    Status { status: u16, body: String },
    Failed(String),
}

/// The last second in which a market is looked up has passed.
pub open spec fn lookup_over(market_start: i64, now: int) -> bool {
    now >= market_start + GAMMA_LOOKUP_DEADLINE
}

/// The record of an attempt that failed.
pub open spec fn retry_event(outcome: LookupOutcome, slug: Text, attempt: u32) -> EventView {
    match outcome {
        LookupOutcome::Status { status, body } => types::data_event(
            "market_lookup_retry"@,
            RawView::Value(
                JsonView::Object(
                    seq![
                        ("attempt"@, json::num(attempt as int)),
                        ("body"@, JsonView::Str(body@)),
                        ("status"@, json::num(status as int)),
                    ],
                ),
            ),
            RawView::Value(
                JsonView::Object(
                    seq![
                        ("attempt"@, json::num(attempt as int)),
                        ("slug"@, JsonView::Str(slug)),
                        ("status"@, json::num(status as int)),
                    ],
                ),
            ),
        ),
        LookupOutcome::Failed(error) => types::data_event(
            "market_lookup_retry"@,
            RawView::Value(
                JsonView::Object(
                    seq![
                        ("attempt"@, json::num(attempt as int)),
                        ("error"@, JsonView::Str(error@)),
                    ],
                ),
            ),
            RawView::Value(
                JsonView::Object(
                    seq![
                        ("attempt"@, json::num(attempt as int)),
                        ("error"@, JsonView::Str(error@)),
                        ("slug"@, JsonView::Str(slug)),
                    ],
                ),
            ),
        ),
    }
}

impl GammaLookup {
    /// A lookup that has not started.
    pub fn new(market_start: i64) -> (l: GammaLookup)
        ensures
            l == (GammaLookup { market_start, backoff: GAMMA_RETRY_BASE_SECS, attempt: 0 }),
    {
        GammaLookup { market_start, backoff: GAMMA_RETRY_BASE_SECS, attempt: 0 }
    }

    /// The address to ask at the time `now`, or none once the time is over.
    pub fn next_attempt(&mut self, now: i64) -> (url: Option<String>)
        requires
            old(self).attempt < u32::MAX,
        ensures
            lookup_over(old(self).market_start, now as int) ==> url is None && *final(self)
                == *old(self),
            !lookup_over(old(self).market_start, now as int) ==> json::opt_string(url) == Some(
                GAMMA_API_BASE@ + "/markets/slug/"@ + slug_of(old(self).market_start as int),
            ) && *final(self) == (GammaLookup {
                attempt: (old(self).attempt + 1) as u32,
                ..*old(self)
            }),
    {
        if now as i128 >= self.market_start as i128 + GAMMA_LOOKUP_DEADLINE as i128 {
            return None;
        }
        self.attempt = self.attempt + 1;
        let slug: String = slug_for_epoch(self.market_start);
        Some(gamma_market_url(slug.as_str()))
    }

    /// An attempt failed: it is recorded, and the next one waits for the seconds that are
    /// given back.
    pub fn retry(&mut self, outcome: &LookupOutcome) -> (r: (Event, u64))
        ensures
            r.0@ == retry_event(
                *outcome,
                slug_of(old(self).market_start as int),
                old(self).attempt,
            ),
            r.1 == old(self).backoff,
            *final(self) == (GammaLookup {
                backoff: config::next_delay(
                    old(self).backoff as int,
                    GAMMA_RETRY_MAX_SECS as int,
                ) as u64,
                ..*old(self)
            }),
    {
        let slug: String = slug_for_epoch(self.market_start);
        let attempt: u64 = self.attempt as u64;
        let wait: u64 = self.backoff;
        self.backoff = double_delay(wait, GAMMA_RETRY_MAX_SECS);
        let event: Event = match outcome {
            LookupOutcome::Status { status, body } => Event::data(
                "market_lookup_retry",
                RawJson::of(
                    Json::object3(
                        "attempt",
                        Json::count(attempt),
                        "body",
                        Json::text(body.as_str()),
                        "status",
                        Json::count(*status as u64),
                    ),
                ),
                RawJson::of(
                    Json::object3(
                        "attempt",
                        Json::count(attempt),
                        "slug",
                        Json::text(slug.as_str()),
                        "status",
                        Json::count(*status as u64),
                    ),
                ),
            ),
            LookupOutcome::Failed(error) => Event::data(
                "market_lookup_retry",
                RawJson::of(
                    Json::object2(
                        "attempt",
                        Json::count(attempt),
                        "error",
                        Json::text(error.as_str()),
                    ),
                ),
                RawJson::of(
                    Json::object3(
                        "attempt",
                        Json::count(attempt),
                        "error",
                        Json::text(error.as_str()),
                        "slug",
                        Json::text(slug.as_str()),
                    ),
                ),
            ),
        };
        (event, wait)
    }
}

/// What follows from a lookup: the market, or nothing where it cannot be collected.
pub struct MarketPlan {
    pub event: Event,
    pub info: Option<MarketInfo>,
}

/// Why a lookup failed.
pub open spec fn lookup_fault_json(slug: Text, reason: Text) -> RawView {
    RawView::Value(
        JsonView::Object(
            seq![("reason"@, JsonView::Str(reason)), ("slug"@, JsonView::Str(slug))],
        ),
    )
}

/// The record of a lookup, and the market where one was found.
pub open spec fn market_plan(answer: Option<JsonView>, market_start: i64) -> (
    EventView,
    Option<InfoView>,
) {
    let slug = slug_of(market_start as int);
    match answer {
        None => (
            types::data_event(
                "market_lookup_failed"@,
                RawView::Value(JsonView::Object(seq![("slug"@, JsonView::Str(slug))])),
                lookup_fault_json(slug, "deadline exceeded"@),
            ),
            None,
        ),
        Some(data) => match market_fault(data, slug) {
            Some(fault) => (
                types::data_event(
                    "market_lookup_failed"@,
                    types::raw_of(data),
                    lookup_fault_json(slug, fault),
                ),
                None,
            ),
            None => (
                types::data_event(
                    "market_lookup"@,
                    types::raw_of(data),
                    RawView::Value(meta_json(data)),
                ),
                Some(
                    InfoView {
                        condition_id: match json::str_of(json::field(data, "conditionId"@)) {
                            Some(s) => s,
                            None => ""@,
                        },
                        clob_token_ids: list_or_empty(json::field(data, "clobTokenIds"@)),
                        slug,
                        market_start,
                    },
                ),
            ),
        },
    }
}

/// What a plan holds.
pub open spec fn plan_view(p: MarketPlan) -> (EventView, Option<InfoView>) {
    (
        p.event@,
        match p.info {
            Some(i) => Some(i@),
            None => None,
        },
    )
}

/// Decides on the answer to a lookup; there is none where the time was over.
pub fn plan_market(answer: Option<Json>, market_start: i64) -> (plan: MarketPlan)
    ensures
        plan_view(plan) == market_plan(
            match answer {
                Some(j) => Some(j@),
                None => None,
            },
            market_start,
        ),
{
    let slug: String = slug_for_epoch(market_start);
    match answer {
        None => MarketPlan {
            event: Event::data(
                "market_lookup_failed",
                RawJson::of(Json::object1("slug", Json::text(slug.as_str()))),
                lookup_fault(slug.as_str(), "deadline exceeded"),
            ),
            info: None,
        },
        Some(data) => match validate_market(&data, slug.as_str()) {
            Some(fault) => MarketPlan {
                event: Event::data(
                    "market_lookup_failed",
                    RawJson::of(data),
                    lookup_fault(slug.as_str(), fault.as_str()),
                ),
                info: None,
            },
            None => {
                let meta: Json = parse_market_meta(&data);
                let condition_id: String = match data.str_field("conditionId") {
                    Some(s) => s.to_owned(),
                    None => "".to_owned(),
                };
                let clob_token_ids: Vec<String> = read_or_empty(data.get("clobTokenIds"));
                MarketPlan {
                    event: Event::data("market_lookup", RawJson::of(data), RawJson::of(meta)),
                    info: Some(MarketInfo { condition_id, clob_token_ids, slug, market_start }),
                }
            },
        },
    }
}

fn lookup_fault(slug: &str, reason: &str) -> (r: RawJson)
    ensures
        r@ == lookup_fault_json(slug@, reason@),
{
    RawJson::of(Json::object2("reason", Json::text(reason), "slug", Json::text(slug)))
}

// Laws

/// A market that is collected has the expected name, is open, has an order book and exactly
/// two tokens.
pub proof fn collected_markets_are_valid(data: JsonView, market_start: i64)
    requires
        market_plan(Some(data), market_start).1 is Some,
    ensures
        json::str_of(json::field(data, "slug"@)) == Some(slug_of(market_start as int)),
        json::bool_of(json::field(data, "closed"@)) != Some(true),
        json::truthy(json::field(data, "enableOrderBook"@)),
        market_plan(Some(data), market_start).1->0.clob_token_ids.len() == 2,
        text_list_of(json::field(data, "outcomes"@)) is Some,
        text_list_of(json::field(data, "outcomes"@))->0.len() == 2,
{
}

/// The texts among values that are all texts are those, in their order.
pub proof fn texts_are_kept(texts: Seq<Text>, items: Seq<JsonView>)
    requires
        items.len() == texts.len(),
        forall|k: int| 0 <= k < items.len() ==> #[trigger] items[k] == JsonView::Str(texts[k]),
    ensures
        texts_among(items) == texts,
    decreases items.len(),
{
    if items.len() == 0 {
        assert(texts =~= seq![]);
    } else {
        let n = items.len() - 1;
        assert(items[n] == items.last());
        assert forall|k: int| 0 <= k < n implies #[trigger] items.drop_last()[k] == JsonView::Str(
            texts.drop_last()[k],
        ) by {
            assert(items[k] == items.drop_last()[k]);
        }
        texts_are_kept(texts.drop_last(), items.drop_last());
        assert(texts =~= texts.drop_last().push(texts[n]));
    }
}

/// A market that has the expected name, is open, has an order book, two outcomes and two tokens is
/// collected: under its condition, with its tokens in their order.
pub proof fn valid_markets_are_collected(data: JsonView, market_start: i64, tokens: Seq<Text>)
    requires
        json::field(data, "slug"@) == JsonView::Str(
            "btc-updown-5m-"@ + text::int_text(market_start as int),
        ),
        json::field(data, "closed"@) != JsonView::Bool(true),
        json::truthy(json::field(data, "enableOrderBook"@)),
        text_list_of(json::field(data, "outcomes"@)) is Some,
        text_list_of(json::field(data, "outcomes"@))->0.len() == 2,
        text_list_of(json::field(data, "clobTokenIds"@)) == Some(tokens),
        tokens.len() == 2,
    ensures
        ({
            let (event, info) = market_plan(Some(data), market_start);
            &&& info is Some
            &&& info->0.clob_token_ids == tokens
            &&& info->0.market_start == market_start
            &&& info->0.slug == "btc-updown-5m-"@ + text::int_text(market_start as int)
            &&& json::field(data, "conditionId"@) matches JsonView::Str(c) ==> info->0.condition_id
                == c
            &&& event.event_type == "market_lookup"@
            &&& event.normalized == RawView::Value(meta_json(data))
        }),
{
    assert(data is Object);
    assert(json::get(data, "slug"@) is Some);
    assert(data->Object_0.len() > 0);
}

/// Any other answer, and none at all, is recorded as a failure, and nothing is collected.
pub proof fn failed_lookups_are_recorded(data: JsonView, market_start: i64)
    ensures
        market_plan(None, market_start).1 is None,
        market_plan(None, market_start).0.event_type == "market_lookup_failed"@,
        market_plan(Some(data), market_start).1 is None ==> market_plan(
            Some(data),
            market_start,
        ).0.event_type == "market_lookup_failed"@,
{
}

/// What is kept of an answer are its tokens and outcomes, its condition, its name and what else is
/// known of the market, each under its own name.
pub proof fn answers_are_kept(data: JsonView)
    ensures
        ({
            let j = meta_json(data);
            &&& json::field(j, "clob_token_ids"@) == json::text_list(
                list_or_empty(json::field(data, "clobTokenIds"@)),
            )
            &&& json::field(j, "outcomes"@) == json::text_list(
                list_or_empty(json::field(data, "outcomes"@)),
            )
            &&& json::field(j, "condition_id"@) == json::field(data, "conditionId"@)
            &&& json::field(j, "end_date"@) == json::field(data, "endDate"@)
            &&& json::field(j, "game_start_time"@) == json::field(data, "gameStartTime"@)
            &&& json::field(j, "market_id"@) == json::field(data, "id"@)
            &&& json::field(j, "question"@) == json::field(data, "question"@)
            &&& json::field(j, "slug"@) == json::field(data, "slug"@)
        }),
{
    reveal_strlit("clob_token_ids");
    reveal_strlit("condition_id");
    reveal_strlit("end_date");
    reveal_strlit("game_start_time");
    reveal_strlit("market_id");
    reveal_strlit("outcomes");
    reveal_strlit("question");
    reveal_strlit("slug");
    assert("clob_token_ids"@.len() == 14 && "condition_id"@.len() == 12 && "game_start_time"@.len()
        == 15 && "market_id"@.len() == 9 && "slug"@.len() == 4 && "end_date"@.len() == 8
        && "outcomes"@.len() == 8 && "question"@.len() == 8);
    assert("end_date"@[0] == 'e' && "outcomes"@[0] == 'o' && "question"@[0] == 'q');
    let fields = meta_json(data)->Object_0;
    json::first_fields_are_found(fields, 0);
    json::first_fields_are_found(fields, 1);
    json::first_fields_are_found(fields, 2);
    json::first_fields_are_found(fields, 3);
    json::first_fields_are_found(fields, 4);
    json::first_fields_are_found(fields, 5);
    json::first_fields_are_found(fields, 6);
    json::first_fields_are_found(fields, 7);
}

/// A market is looked up until ten seconds after its start.
pub proof fn lookups_end_after_the_start(market_start: i64, now: int)
    ensures
        lookup_over(market_start, now) <==> now >= market_start + 10,
{
}

/// A failed attempt is recorded with its number and what came back.
pub proof fn failed_attempts_are_recorded(outcome: LookupOutcome, slug: Text, attempt: u32)
    ensures
        ({
            let e = retry_event(outcome, slug, attempt);
            let raw = e.raw->Value_0;
            &&& e.event_type == "market_lookup_retry"@
            &&& json::field(raw, "attempt"@) == json::num(attempt as int)
            &&& outcome matches LookupOutcome::Status { status, body } ==> json::field(
                raw,
                "status"@,
            ) == json::num(status as int) && json::field(raw, "body"@) == JsonView::Str(body@)
            &&& outcome matches LookupOutcome::Failed(error) ==> json::field(raw, "error"@)
                == JsonView::Str(error@)
        }),
{
    reveal_strlit("attempt");
    reveal_strlit("body");
    reveal_strlit("status");
    reveal_strlit("error");
    assert("attempt"@.len() == 7 && "body"@.len() == 4 && "status"@.len() == 6 && "error"@.len()
        == 5);
    let fields = retry_event(outcome, slug, attempt).raw->Value_0->Object_0;
    json::first_fields_are_found(fields, 0);
    json::first_fields_are_found(fields, 1);
    if outcome is Status {
        json::first_fields_are_found(fields, 2);
    }
}

/// An answer has nothing in it where it is null or has neither fields nor items.
pub proof fn empty_answers_are_told(data: JsonView)
    ensures
        is_empty_answer(data) <==> data is Null || data == JsonView::Object(Seq::empty()) || data
            == JsonView::Array(Seq::empty()),
{
    match data {
        JsonView::Object(fields) => {
            if fields.len() == 0 {
                assert(fields =~= Seq::empty());
            }
        },
        JsonView::Array(items) => {
            if items.len() == 0 {
                assert(items =~= Seq::empty());
            }
        },
        _ => {},
    }
}

/// The first fault of an answer is told: a wrong name, a market that is closed or has no order
/// book, a list that is none or has not two entries.
pub proof fn faults_of_answers_are_told(data: JsonView, slug: Text)
    ensures
        is_empty_answer(data) ==> market_fault(data, slug) == Some("empty response"@),
        !is_empty_answer(data) && json::field(data, "slug"@) != JsonView::Str(slug) ==> market_fault(
            data,
            slug,
        ) is Some,
        !is_empty_answer(data) && json::field(data, "slug"@) == JsonView::Str(slug) && json::field(
            data,
            "closed"@,
        ) == JsonView::Bool(true) ==> market_fault(data, slug) == Some("market is closed"@),
        !json::truthy(json::field(data, "enableOrderBook"@)) ==> market_fault(data, slug) is Some,
        text_list_of(json::field(data, "outcomes"@)) is None || text_list_of(
            json::field(data, "outcomes"@),
        )->0.len() != 2 ==> market_fault(data, slug) is Some,
        text_list_of(json::field(data, "clobTokenIds"@)) is None || text_list_of(
            json::field(data, "clobTokenIds"@),
        )->0.len() != 2 ==> market_fault(data, slug) is Some,
{
}

} // verus!
