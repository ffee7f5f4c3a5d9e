//! Numbering the lines of a file.

use vstd::prelude::*;
use vstd::string::*;

use crate::types;
use crate::types::{Event, Line};

verus! {

/// Hands out the numbers of the lines of one file: 1, 2, 3 and so on.
pub struct SeqCounter {
    last: u64,
}

impl View for SeqCounter {
    type V = nat;

    closed spec fn view(&self) -> nat {
        self.last as nat
    }
}

impl SeqCounter {
    /// A counter that has handed out nothing.
    pub fn new() -> (c: SeqCounter)
        ensures
            c@ == 0,
    {
        SeqCounter { last: 0 }
    }

    /// How many numbers are left.
    pub fn left(&self) -> (n: u64)
        ensures
            n == u64::MAX - self@,
    {
        u64::MAX - self.last
    }

    /// The next number.
    pub fn next(&mut self) -> (n: u64)
        requires
            old(self)@ < u64::MAX,
        ensures
            n == old(self)@ + 1,
            final(self)@ == old(self)@ + 1,
    {
        self.last = self.last + 1;
        self.last
    }
}

/// One file of lines: what all its lines have in common, and its counter.
pub struct Journal {
    pub market_start: i64,
    pub source: String,
    pub pid: u32,
    pub seq: SeqCounter,
}

/// The line that records `event` as number `seq`, received at `now_ms`.
pub open spec fn stamped(
    j: Journal,
    seq: nat,
    event: types::EventView,
    now_ms: i64,
) -> types::LineView {
    types::LineView {
        ts_recv_ms: now_ms,
        market_start: j.market_start,
        collector_pid: j.pid,
        source: j.source@,
        seq: seq as u64,
        event,
    }
}

impl Journal {
    /// A file without lines.
    pub fn new(market_start: i64, source: &str, pid: u32) -> (j: Journal)
        ensures
            j.market_start == market_start,
            j.source@ == source@,
            j.pid == pid,
            j.seq@ == 0,
    {
        Journal { market_start, source: source.to_owned(), pid, seq: SeqCounter::new() }
    }

    /// Records an event as the next line.
    pub fn stamp(&mut self, event: Event, now_ms: i64) -> (line: Line)
        requires
            old(self).seq@ < u64::MAX,
        ensures
            line@ == stamped(*old(self), old(self).seq@ + 1, event@, now_ms),
            final(self).seq@ == old(self).seq@ + 1,
            final(self).market_start == old(self).market_start,
            final(self).source == old(self).source,
            final(self).pid == old(self).pid,
    {
        let seq: u64 = self.seq.next();
        Line {
            ts_recv_ms: now_ms,
            market_start: self.market_start,
            collector_pid: self.pid,
            source: self.source.clone(),
            event_type: event.event_type,
            seq,
            raw: event.raw,
            normalized: event.normalized,
            system_type: event.system_type,
        }
    }

    /// Records events as the next lines, in their order and without a gap.
    pub fn stamp_all(&mut self, events: Vec<Event>, now_ms: i64) -> (lines: Vec<Line>)
        requires
            old(self).seq@ + events@.len() <= u64::MAX,
        ensures
            lines@.len() == events@.len(),
            forall|i: int|
                0 <= i < events@.len() ==> #[trigger] lines@[i]@ == stamped(
                    *old(self),
                    (old(self).seq@ + i + 1) as nat,
                    events@[i]@,
                    now_ms,
                ),
            final(self).seq@ == old(self).seq@ + events@.len(),
            final(self).market_start == old(self).market_start,
            final(self).source == old(self).source,
            final(self).pid == old(self).pid,
    {
        let ghost all = events@;
        let mut rest: Vec<Event> = events;
        let mut lines: Vec<Line> = Vec::new();
        while rest.len() > 0
            invariant
                old(self).seq@ + all.len() <= u64::MAX,
                lines@.len() + rest@.len() == all.len(),
                rest@ == all.skip(lines@.len() as int),
                self.seq@ == old(self).seq@ + lines@.len(),
                self.market_start == old(self).market_start,
                self.source == old(self).source,
                self.pid == old(self).pid,
                forall|i: int|
                    0 <= i < lines@.len() ==> #[trigger] lines@[i]@ == stamped(
                        *old(self),
                        (old(self).seq@ + i + 1) as nat,
                        all[i]@,
                        now_ms,
                    ),
            decreases rest@.len(),
        {
            let event: Event = rest.remove(0);
            assert(event == all[lines@.len() as int]);
            let line: Line = self.stamp(event, now_ms);
            lines.push(line);
            assert(rest@ =~= all.skip(lines@.len() as int));
        }
        lines
    }
}

/// A line holds its event, its number, the time, and what all lines of its file have in common.
pub proof fn lines_hold_their_events(j: Journal, seq: nat, event: types::EventView, now_ms: i64)
    requires
        seq <= u64::MAX,
    ensures
        ({
            let l = stamped(j, seq, event, now_ms);
            &&& l.event == event && l.seq == seq && l.ts_recv_ms == now_ms
            &&& l.market_start == j.market_start && l.collector_pid == j.pid && l.source
                == j.source@
        }),
{
}

} // verus!
