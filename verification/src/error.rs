//! What can go wrong in a collector and in a worker.

use vstd::prelude::*;
use vstd::string::*;

use crate::text::{join2, Text};

verus! {

/// A fault of a collector.
pub enum CollectorError {
    WebSocket(String),
    Http(String),
    Json(String),
    Io(String),
    WriterClosed,
    Other(String),
}

/// The message of a fault of a collector.
pub open spec fn collector_message(e: CollectorError) -> Text {
    match e {
        CollectorError::WebSocket(s) => "WebSocket: "@ + s@,
        CollectorError::Http(s) => "HTTP: "@ + s@,
        CollectorError::Json(s) => "JSON: "@ + s@,
        CollectorError::Io(s) => "I/O: "@ + s@,
        CollectorError::WriterClosed => "Writer channel closed"@,
        CollectorError::Other(s) => s@,
    }
}

impl CollectorError {
    /// The message of this fault.
    pub fn message(&self) -> (m: String)
        ensures
            m@ == collector_message(*self),
    {
        match self {
            CollectorError::WebSocket(s) => join2("WebSocket: ", s.as_str()),
            CollectorError::Http(s) => join2("HTTP: ", s.as_str()),
            CollectorError::Json(s) => join2("JSON: ", s.as_str()),
            CollectorError::Io(s) => join2("I/O: ", s.as_str()),
            CollectorError::WriterClosed => "Writer channel closed".to_owned(),
            CollectorError::Other(s) => s.clone(),
        }
    }
}

/// A fault of a worker: which of its collectors failed, and why.
pub enum WorkerError {
    Polymarket(String),
    Binance(String),
    Both(String, String),
    Setup(String),
}

/// The message of a fault of a worker.
pub open spec fn worker_message(e: WorkerError) -> Text {
    match e {
        WorkerError::Polymarket(s) => "Polymarket collector failed: "@ + s@,
        WorkerError::Binance(s) => "Binance collector failed: "@ + s@,
        WorkerError::Both(p, b) => "Both collectors failed: poly="@ + p@ + ", binance="@ + b@,
        WorkerError::Setup(s) => "Worker setup failed: "@ + s@,
    }
}

impl WorkerError {
    /// The message of this fault.
    pub fn message(&self) -> (m: String)
        ensures
            m@ == worker_message(*self),
    {
        match self {
            WorkerError::Polymarket(s) => join2("Polymarket collector failed: ", s.as_str()),
            WorkerError::Binance(s) => join2("Binance collector failed: ", s.as_str()),
            WorkerError::Both(p, b) => {
                let mut m: String = join2("Both collectors failed: poly=", p.as_str());
                m.append(", binance=");
                m.append(b.as_str());
                m
            },
            WorkerError::Setup(s) => join2("Worker setup failed: ", s.as_str()),
        }
    }
}

} // verus!
