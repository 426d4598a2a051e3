//! Delivery counts of the event hub, the log ring, and the process counters.

use crate::time::Timestamp;
use vstd::prelude::*;

verus! {

/// How many events reached subscribers, and how many were dropped for want of one.
#[derive(Debug, Clone, Copy, PartialEq, Eq, Structural)]
pub struct EventHub {
    pub dropped: u64,
    pub delivered: u64,
}

impl EventHub {
    pub fn new() -> (r: EventHub)
        ensures
            r == (EventHub { dropped: 0, delivered: 0 }),
    {
        EventHub { dropped: 0, delivered: 0 }
    }

    /// Counts an event that was sent: it reached `Some(n)` subscribers, or there was none.
    pub fn publish(&mut self, reached: Option<u64>)
        ensures
            *final(self) == (match reached {
                Some(n) => EventHub { delivered: old(self).delivered.wrapping_add(n), ..*old(self) },
                None => EventHub { dropped: old(self).dropped.wrapping_add(1), ..*old(self) },
            }),
    {
        match reached {
            Some(n) => {
                self.delivered = self.delivered.wrapping_add(n);
            },
            None => {
                self.dropped = self.dropped.wrapping_add(1);
            },
        }
    }

    /// The events dropped and the deliveries made.
    pub fn stats(&self) -> (r: (u64, u64))
        ensures
            r == (self.dropped, self.delivered),
    {
        (self.dropped, self.delivered)
    }
}

/// One log line.
#[derive(Debug)]
pub struct LogMessage {
    pub timestamp: String,
    /// "CEC", "ERROR", "WARN", "INFO" or "DEBUG".
    pub level: String,
    pub message: String,
}

/// What a [`LogMessage`] holds.
pub struct LogMessageV {
    pub timestamp: Seq<char>,
    pub level: Seq<char>,
    pub message: Seq<char>,
}

impl View for LogMessage {
    type V = LogMessageV;

    open spec fn view(&self) -> LogMessageV {
        LogMessageV {
            timestamp: self.timestamp@,
            level: self.level@,
            message: self.message@,
        }
    }
}

/// What a list of log lines holds.
pub open spec fn log_views(v: Seq<LogMessage>) -> Seq<LogMessageV> {
    v.map_values(|m: LogMessage| m@)
}

/// The lines of a ring with room for `cap` after one more came: the oldest goes where there is no
/// room.
pub open spec fn log_after(lines: Seq<LogMessageV>, cap: nat, line: LogMessageV) -> Seq<LogMessageV> {
    (if lines.len() >= cap {
        lines.skip(1)
    } else {
        lines
    }).push(line)
}

/// The recent log lines.
#[derive(Debug)]
pub struct LogRing {
    inner: Vec<LogMessage>,
    cap: usize,
}

impl LogRing {
    /// The lines in the ring, oldest first.
    pub closed spec fn view(&self) -> Seq<LogMessageV> {
        log_views(self.inner@)
    }

    /// How many lines the ring has room for.
    pub closed spec fn capacity(&self) -> nat {
        self.cap as nat
    }

    /// There is room for a line, and no more lines than there is room for.
    pub closed spec fn wf(&self) -> bool {
        self.cap > 0 && self.inner@.len() <= self.cap
    }

    pub fn new(cap: usize) -> (r: LogRing)
        requires
            cap > 0,
        ensures
            r.wf(),
            r@ == Seq::<LogMessageV>::empty(),
            r.capacity() == cap,
    {
        let r = LogRing { inner: Vec::new(), cap };
        assert(r@ =~= Seq::<LogMessageV>::empty());
        r
    }

    /// Adds a line; the oldest goes when the ring is full.
    pub fn push(&mut self, level: &str, message: String, now: Timestamp)
        requires
            old(self).wf(),
        ensures
            final(self).wf(),
            final(self).capacity() == old(self).capacity(),
            final(self)@ == log_after(
                old(self)@,
                old(self).capacity(),
                LogMessageV { timestamp: now.text(), level: level@, message: message@ },
            ),
    {
        let ghost start = self@;
        if self.inner.len() >= self.cap {
            let _oldest = self.inner.remove(0);
            assert(log_views(self.inner@) =~= start.skip(1));
        }
        let ghost kept = log_views(self.inner@);
        let m = LogMessage {
            timestamp: now.to_rfc3339(),
            level: level.to_owned(),
            message,
        };
        let ghost mv = m@;
        self.inner.push(m);
        assert(log_views(self.inner@) =~= kept.push(mv));
    }

    /// A copy of the lines, oldest first.
    pub fn recent(&self) -> (r: Vec<LogMessage>)
        ensures
            log_views(r@) == self@,
    {
        let mut out: Vec<LogMessage> = Vec::new();
        let mut i: usize = 0;
        while i < self.inner.len()
            invariant
                i <= self.inner@.len(),
                log_views(out@) == log_views(self.inner@).take(i as int),
            decreases self.inner@.len() - i,
        {
            let ghost before = out@;
            out.push(
                LogMessage {
                    timestamp: self.inner[i].timestamp.clone(),
                    level: self.inner[i].level.clone(),
                    message: self.inner[i].message.clone(),
                },
            );
            i += 1;
            assert(log_views(out@) =~= log_views(before).push(self.inner@[i - 1]@));
            assert(log_views(out@) =~= log_views(self.inner@).take(i as int));
        }
        assert(log_views(self.inner@).take(i as int) =~= log_views(self.inner@));
        out
    }
}

/// Process counters.
#[derive(Debug, Clone, Copy, PartialEq, Eq, Structural)]
pub struct Metrics {
    pub requests_total: u64,
    pub errors_total: u64,
    pub panics_total: u64,
    pub events_published: u64,
    pub steward_jobs_queued: u64,
    pub steward_jobs_dropped: u64,
}

impl Default for Metrics {
    fn default() -> (r: Metrics)
        ensures
            r == (Metrics {
                requests_total: 0,
                errors_total: 0,
                panics_total: 0,
                events_published: 0,
                steward_jobs_queued: 0,
                steward_jobs_dropped: 0,
            }),
    {
        Metrics {
            requests_total: 0,
            errors_total: 0,
            panics_total: 0,
            events_published: 0,
            steward_jobs_queued: 0,
            steward_jobs_dropped: 0,
        }
    }
}

/// The newest line is always there, last; the lines before it stay in order; and the ring is never
/// fuller than it may be, nor is a line dropped while there is room.
pub proof fn law_log_keeps_the_newest_lines(lines: Seq<LogMessageV>, cap: nat, line: LogMessageV)
    requires
        cap > 0,
        lines.len() <= cap,
    ensures
        ({
            let after = log_after(lines, cap, line);
            &&& after.last() == line
            &&& after.len() == (if lines.len() < cap {
                lines.len() + 1
            } else {
                cap
            })
            &&& forall|i: int|
                0 <= i < after.len() - 1 ==> #[trigger] after[i] == lines[i + lines.len() + 1
                    - after.len()]
        }),
{
}

} // verus!
