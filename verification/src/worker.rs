//! The life of the worker of one market: how long it runs, what it records at its start and
//! its end, and what becomes of the faults of its collectors.

use vstd::prelude::*;
use vstd::string::*;

use crate::binance_sync;
use crate::binance_sync::error_value;
use crate::config::{MARKET_DURATION, TAIL_SECONDS};
use crate::error::WorkerError;
use crate::json;
use crate::json::{Json, JsonView};
use crate::text::{join2, Text};
use crate::types;
use crate::types::{emit, Event, EventView, RawJson, RawView};

verus! {

/// When the collection of a market ends, in seconds.
pub open spec fn stop_time(market_start: int) -> int {
    market_start + MARKET_DURATION + TAIL_SECONDS
}

/// When the collection of a market ends, in seconds.
pub fn stop_at(market_start: i64) -> (t: i64)
    requires
        market_start <= i64::MAX - 320,
    ensures
        t == stop_time(market_start as int),
{
    market_start + MARKET_DURATION as i64 + TAIL_SECONDS as i64
}

/// How many seconds of the collection are left at the time `now`.
pub fn remaining(stop_at: i64, now: i64) -> (left: u64)
    ensures
        left == (if stop_at > now { stop_at - now } else { 0 }),
{
    if stop_at > now { (stop_at as i128 - now as i128) as u64 } else { 0 }
}

/// The first event of a file.
pub open spec fn started(market_start: i64, pid: u32) -> EventView {
    types::system_event(
        "worker_started"@,
        RawView::Value(
            JsonView::Object(
                seq![
                    ("market_start"@, json::num(market_start as int)),
                    ("pid"@, json::num(pid as int)),
                    ("stop_at"@, json::num(stop_time(market_start as int))),
                ],
            ),
        ),
    )
}

/// The first event of a file.
pub fn started_event(market_start: i64, pid: u32) -> (e: Event)
    requires
        market_start <= i64::MAX - 320,
    ensures
        e@ == started(market_start, pid),
{
    Event::system(
        "worker_started",
        RawJson::of(
            Json::object3(
                "market_start",
                Json::whole(market_start),
                "pid",
                Json::count(pid as u64),
                "stop_at",
                Json::whole(stop_at(market_start)),
            ),
        ),
    )
}

/// The record of the fault of a collector.
pub open spec fn fault_event(error: Text) -> EventView {
    types::data_event(
        "error"@,
        binance_sync::error_json(error, "CollectorError"@),
        RawView::Value(
            JsonView::Object(seq![("reason"@, JsonView::Str("worker_exception"@))]),
        ),
    )
}

/// The record of the fault of a collector, where it had one.
pub open spec fn fault_events(fault: Option<Text>) -> Seq<EventView> {
    match fault {
        Some(error) => seq![fault_event(error)],
        None => seq![],
    }
}

/// The last event of a file.
pub open spec fn stopped(market_start: i64, pid: u32) -> EventView {
    types::data_event(
        "collector_stopped"@,
        RawView::Null,
        RawView::Value(
            JsonView::Object(
                seq![
                    ("market_start"@, json::num(market_start as int)),
                    ("pid"@, json::num(pid as int)),
                ],
            ),
        ),
    )
}

/// The last events of each of the two files: the faults of both collectors, where they had any,
/// and that the collector stopped.
pub open spec fn closing(
    poly: Option<Text>,
    bin: Option<Text>,
    market_start: i64,
    pid: u32,
) -> Seq<EventView> {
    (fault_events(poly) + fault_events(bin)).push(stopped(market_start, pid))
}

/// The fault of a collector, where it had one.
pub open spec fn fault_of(r: Result<(), String>) -> Option<Text> {
    match r {
        Ok(_) => None,
        Err(e) => Some(e@),
    }
}

fn tell_fault(events: &mut Vec<Event>, outcome: &Result<(), String>)
    ensures
        types::events_view(final(events)@) == types::events_view(old(events)@) + fault_events(
            fault_of(*outcome),
        ),
{
    match outcome {
        Ok(_) => {},
        Err(error) => emit(
            events,
            Event::data(
                "error",
                error_value(error.as_str(), "CollectorError"),
                RawJson::of(Json::object1("reason", Json::text("worker_exception"))),
            ),
        ),
    }
    assert(types::events_view(events@) =~= types::events_view(old(events)@) + fault_events(
        fault_of(*outcome),
    ));
}

/// The last events of each of the two files.
pub fn closing_events(
    poly: &Result<(), String>,
    bin: &Result<(), String>,
    market_start: i64,
    pid: u32,
) -> (events: Vec<Event>)
    ensures
        types::events_view(events@) == closing(
            fault_of(*poly),
            fault_of(*bin),
            market_start,
            pid,
        ),
{
    let mut events: Vec<Event> = Vec::new();
    assert(types::events_view(events@) =~= seq![]);
    tell_fault(&mut events, poly);
    tell_fault(&mut events, bin);
    assert(types::events_view(events@) =~= fault_events(fault_of(*poly)) + fault_events(
        fault_of(*bin),
    ));
    emit(
        &mut events,
        Event::data(
            "collector_stopped",
            RawJson::Null,
            RawJson::of(
                Json::object2(
                    "market_start",
                    Json::whole(market_start),
                    "pid",
                    Json::count(pid as u64),
                ),
            ),
        ),
    );
    events
}

/// How the task of a collector ended.
pub enum TaskEnd {
    Done,
    Failed(String),
    Panicked(String),
}

/// The outcome of a collector, given how its task ended.
pub open spec fn task_fault(name: Text, end: TaskEnd) -> Option<Text> {
    match end {
        TaskEnd::Done => None,
        TaskEnd::Failed(e) => Some(e@),
        TaskEnd::Panicked(e) => Some(name + " task panicked: "@ + e@),
    }
}

/// The outcome of a collector, given how its task ended.
pub fn task_outcome(name: &str, end: TaskEnd) -> (r: Result<(), String>)
    ensures
        fault_of(r) == task_fault(name@, end),
{
    match end {
        TaskEnd::Done => Ok(()),
        TaskEnd::Failed(e) => Err(e),
        TaskEnd::Panicked(e) => {
            let mut s: String = join2(name, " task panicked: ");
            s.append(e.as_str());
            Err(s)
        },
    }
}

/// The outcome of a worker: the faults of both collectors count.
pub fn worker_outcome(poly: Result<(), String>, bin: Result<(), String>) -> (r: Result<
    (),
    WorkerError,
>)
    ensures
        r == (match (poly, bin) {
            (Err(p), Err(b)) => Err(WorkerError::Both(p, b)),
            (Err(p), Ok(_)) => Err(WorkerError::Polymarket(p)),
            (Ok(_), Err(b)) => Err(WorkerError::Binance(b)),
            (Ok(_), Ok(_)) => Ok(()),
        }),
{
    match (poly, bin) {
        (Err(p), Err(b)) => Err(WorkerError::Both(p, b)),
        (Err(p), Ok(())) => Err(WorkerError::Polymarket(p)),
        (Ok(()), Err(b)) => Err(WorkerError::Binance(b)),
        (Ok(()), Ok(())) => Ok(()),
    }
}

/// However the collectors ended, the last line of each file tells that its collector stopped.
pub proof fn files_end_with_stopped(
    poly: Option<Text>,
    bin: Option<Text>,
    market_start: i64,
    pid: u32,
)
    ensures
        closing(poly, bin, market_start, pid).last() == stopped(market_start, pid),
{
}

/// A fault of either collector is recorded in both files, before their last line; where there was
/// none, nothing is.
pub proof fn faults_are_recorded_in_both_files(
    poly: Option<Text>,
    bin: Option<Text>,
    market_start: i64,
    pid: u32,
)
    ensures
        ({
            let before = closing(poly, bin, market_start, pid).drop_last();
            &&& poly matches Some(e) ==> before.contains(fault_event(e))
            &&& bin matches Some(e) ==> before.contains(fault_event(e))
            &&& poly is None && bin is None <==> before.len() == 0
        }),
{
    let before = closing(poly, bin, market_start, pid).drop_last();
    assert(before =~= fault_events(poly) + fault_events(bin));
    if poly is Some {
        assert(before[0] == fault_event(poly->0));
    }
    if bin is Some {
        assert(before.last() == fault_event(bin->0));
    }
}

/// The collection of a market ends twenty seconds after its five minutes.
pub proof fn collections_end_after_the_market(market_start: int)
    ensures
        stop_time(market_start) == market_start + 320,
{
}

/// The first line of a file tells the market, the process and when the collection ends, and the
/// last one the market and the process.
pub proof fn files_tell_their_market(market_start: i64, pid: u32)
    ensures
        ({
            let first = started(market_start, pid);
            let j = first.normalized->Value_0;
            &&& first.system_type == Some("worker_started"@)
            &&& json::field(j, "market_start"@) == json::num(market_start as int)
            &&& json::field(j, "pid"@) == json::num(pid as int)
            &&& json::field(j, "stop_at"@) == json::num(market_start + 320)
        }),
        ({
            let last = stopped(market_start, pid);
            let j = last.normalized->Value_0;
            &&& last.event_type == "collector_stopped"@
            &&& json::field(j, "market_start"@) == json::num(market_start as int)
            &&& json::field(j, "pid"@) == json::num(pid as int)
        }),
{
    reveal_strlit("market_start");
    reveal_strlit("pid");
    reveal_strlit("stop_at");
    assert("market_start"@.len() == 12 && "pid"@.len() == 3 && "stop_at"@.len() == 7);
    let first = started(market_start, pid).normalized->Value_0->Object_0;
    json::first_fields_are_found(first, 0);
    json::first_fields_are_found(first, 1);
    json::first_fields_are_found(first, 2);
    let last = stopped(market_start, pid).normalized->Value_0->Object_0;
    json::first_fields_are_found(last, 0);
    json::first_fields_are_found(last, 1);
}

/// A collector that failed or panicked has a fault, with its words; one that is done has none.
pub proof fn tasks_tell_their_faults(name: Text, e: String)
    ensures
        task_fault(name, TaskEnd::Done) is None,
        task_fault(name, TaskEnd::Failed(e)) == Some(e@),
        task_fault(name, TaskEnd::Panicked(e)) == Some(name + " task panicked: "@ + e@),
        fault_of(Err(e)) == Some(e@),
        fault_of(Ok(())) is None,
        fault_events(None) == Seq::<EventView>::empty(),
        fault_event(e@).event_type == "error"@,
{
}

} // verus!
