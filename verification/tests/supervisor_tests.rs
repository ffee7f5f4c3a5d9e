use bookview_collector::config::double_delay;
use bookview_collector::error::{CollectorError, WorkerError};
use bookview_collector::supervisor::{next_market_start, Supervisor, Verdict};
use bookview_collector::types::RawJson;
use bookview_collector::worker::{
    closing_events, remaining, started_event, stop_at, task_outcome, worker_outcome, TaskEnd,
};

const NANOS: u64 = 1_000_000_000;

#[test]
fn basic_market_boundary() {
    assert_eq!(next_market_start(100 * NANOS + NANOS / 2), 300);
}

#[test]
fn near_boundary() {
    assert_eq!(next_market_start(229 * NANOS), 300);
}

#[test]
fn exactly_70s_before_boundary() {
    assert_eq!(next_market_start(230 * NANOS), 300);
}

#[test]
fn just_past_70s_threshold() {
    assert_eq!(next_market_start(230 * NANOS + NANOS / 1000), 600);
}

#[test]
fn exactly_at_boundary() {
    assert_eq!(next_market_start(300 * NANOS), 600);
}

#[test]
fn large_epoch_values() {
    assert_eq!(next_market_start(1777505929 * NANOS), 1777506000);
}

#[test]
fn large_epoch_just_past() {
    assert_eq!(next_market_start(1777505931 * NANOS), 1777506300);
}

#[test]
fn boundary_alignment() {
    for i in 0..100u64 {
        let now = 1777500000 * NANOS + i * 3_700_000_000;
        let result = next_market_start(now);
        assert_eq!(result % 300, 0, "Result {} not aligned to 300 for now={}", result, now);
        assert!(result as u64 * NANOS >= now + 70 * NANOS);
        assert!(result as u64 * NANOS < now + 370 * NANOS);
    }
}

#[test]
fn markets_are_launched_once() {
    let mut s = Supervisor::new();
    assert!(s.launch(600));
    assert!(!s.launch(600));
    assert!(s.launch(900));
}

#[test]
fn failed_markets_get_one_more_attempt() {
    let mut s = Supervisor::new();
    s.launch(600);
    let now = 620 * NANOS;
    assert!(matches!(s.finished(600, true, now), Verdict::Restart { attempt: 1 }));
    assert!(matches!(s.finished(600, true, now), Verdict::GivenUp));
    s.launch(900);
    assert!(matches!(s.finished(900, false, now), Verdict::Finished));
}

#[test]
fn old_markets_are_forgotten() {
    let mut s = Supervisor::new();
    s.launch(600);
    s.prune(4199 * NANOS);
    assert!(!s.launch(600));
    s.prune(4200 * NANOS);
    assert!(s.launch(600));
}

#[test]
fn launch_waits_until_seventy_seconds_before() {
    assert_eq!(Supervisor::time_to_launch(600, 500 * NANOS), 30 * NANOS as u128);
    assert_eq!(Supervisor::time_to_launch(600, 530 * NANOS), 0);
    assert_eq!(Supervisor::time_to_launch(600, 580 * NANOS), 0);
}

fn value_text(r: &RawJson) -> String {
    match r {
        RawJson::Null => "null".to_string(),
        RawJson::Raw(s) => s.clone(),
        RawJson::Value(j) => j.to_text(),
    }
}

#[test]
fn worker_runs_until_the_tail() {
    assert_eq!(stop_at(1777506000), 1777506320);
    assert_eq!(remaining(1777506320, 1777506300), 20);
    assert_eq!(remaining(1777506320, 1777506400), 0);
    let e = started_event(1777506000, 19090);
    assert_eq!(
        value_text(&e.normalized),
        "{\"market_start\":1777506000,\"pid\":19090,\"stop_at\":1777506320}",
    );
}

#[test]
fn files_end_with_stopped() {
    let good = closing_events(&Ok(()), &Ok(()), 600, 7);
    assert_eq!(good.len(), 1);
    assert_eq!(good[0].event_type, "collector_stopped");
    let fault = Err("boom".to_string());
    for bad in [closing_events(&fault, &Ok(()), 600, 7), closing_events(&Ok(()), &fault, 600, 7)] {
        assert_eq!(bad.len(), 2);
        assert_eq!(bad[0].event_type, "error");
        assert!(value_text(&bad[0].raw).contains("boom"));
        assert_eq!(value_text(&bad[0].normalized), "{\"reason\":\"worker_exception\"}");
        assert_eq!(bad[1].event_type, "collector_stopped");
    }
    let both = closing_events(&Err("p".to_string()), &Err("b".to_string()), 600, 7);
    assert_eq!(both.len(), 3);
    assert_eq!(value_text(&both[0].raw), "{\"error\":\"p\",\"type\":\"CollectorError\"}");
    assert_eq!(value_text(&both[1].raw), "{\"error\":\"b\",\"type\":\"CollectorError\"}");
    assert_eq!(both[2].event_type, "collector_stopped");
}

#[test]
fn faults_of_both_collectors_count() {
    let e = worker_outcome(Err("p".to_string()), Err("b".to_string()));
    assert!(matches!(e, Err(WorkerError::Both(_, _))));
    assert!(matches!(worker_outcome(Err("p".to_string()), Ok(())), Err(WorkerError::Polymarket(_))));
    assert!(matches!(worker_outcome(Ok(()), Err("b".to_string())), Err(WorkerError::Binance(_))));
    assert!(worker_outcome(Ok(()), Ok(())).is_ok());
    assert_eq!(
        task_outcome("binance", TaskEnd::Panicked("oh".to_string())).unwrap_err(),
        "binance task panicked: oh",
    );
    assert!(task_outcome("binance", TaskEnd::Done).is_ok());
    assert_eq!(task_outcome("binance", TaskEnd::Failed("f".to_string())).unwrap_err(), "f");
}

#[test]
fn delays_double_up_to_the_longest() {
    assert_eq!(double_delay(1, 16), 2);
    assert_eq!(double_delay(8, 16), 16);
    assert_eq!(double_delay(16, 16), 16);
    assert_eq!(double_delay(u64::MAX, 16), 16);
}

#[test]
fn errors_have_messages() {
    let all = vec![
        CollectorError::WebSocket("w".to_string()).message(),
        CollectorError::Http("h".to_string()).message(),
        CollectorError::Json("j".to_string()).message(),
        CollectorError::Io("i".to_string()).message(),
        CollectorError::WriterClosed.message(),
        CollectorError::Other("o".to_string()).message(),
    ];
    assert_eq!(
        all,
        vec!["WebSocket: w", "HTTP: h", "JSON: j", "I/O: i", "Writer channel closed", "o"],
    );
    assert_eq!(WorkerError::Polymarket("x".to_string()).message(), "Polymarket collector failed: x");
    assert_eq!(WorkerError::Binance("x".to_string()).message(), "Binance collector failed: x");
    assert_eq!(WorkerError::Both("x".to_string(), "y".to_string()).message(), "Both collectors failed: poly=x, binance=y");
    assert_eq!(WorkerError::Setup("x".to_string()).message(), "Worker setup failed: x");
}
