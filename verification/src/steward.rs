//! Bus steward: a bounded queue of rebuild jobs, and what a rebuild does. The slow libcec calls
//! are made by the worker that runs the jobs, never on request paths.

use crate::busstate::{
    law_merge_keeps_other_fields, merged, remembered, BusState, BusV, ObservedV, OBSERVED_PREFIX,
};
use crate::cec::replies::{
    address_bytes, all_addresses, lists, logical_addresses_with_poll, mask_addresses,
    mask_to_addresses, with_polled,
};
use crate::cec::types::{
    device_object, device_role_text, device_type_for_address, logical_address_name,
    logical_address_text, Command, CommandV, DeviceInfo, LogicalAddress, Opcode,
};
use crate::json;
use crate::json::JsonV;
use crate::strategies::{expected_reply, StepKind, StepV};
use crate::text;
use crate::time::{Duration, Timestamp};
use crate::types::{
    vendor_views, AppEvent, AppEventV, BusConfig, BusConfigV, VendorEntry, VendorEntryV,
    DEVICES_CHANGED,
};
use std::collections::VecDeque;
use vstd::prelude::*;

verus! {

// ---------------------------------------------------------------------------
// The queue
// ---------------------------------------------------------------------------

/// How thorough a rebuild is.
#[derive(Debug, Clone, Copy, PartialEq, Eq, Structural)]
pub enum JobKind {
    Light,
    Full,
    Deep,
}

/// The job that hints ask for: a full rebuild if one of them is heavy, else a light one.
pub open spec fn hinted_kind(first: bool, more: Seq<bool>) -> JobKind {
    if first || more.contains(true) {
        JobKind::Full
    } else {
        JobKind::Light
    }
}

/// The name of a job kind.
pub open spec fn job_kind_text(k: JobKind) -> Seq<char> {
    match k {
        JobKind::Light => "light"@,
        JobKind::Full => "full"@,
        JobKind::Deep => "deep"@,
    }
}

impl JobKind {
    pub fn as_str(self) -> (r: &'static str)
        ensures
            r@ == job_kind_text(self),
    {
        match self {
            JobKind::Light => "light",
            JobKind::Full => "full",
            JobKind::Deep => "deep",
        }
    }
}

/// The most jobs that wait.
pub const QUEUE_CAP: usize = 32;

/// How long topology hints are gathered before they become a job, in milliseconds.
pub const DEBOUNCE_MS: u64 = 500;

/// How long a rebuild may query devices, in seconds.
pub const QUERY_BUDGET_SECS: u64 = 25;

/// Pause after each probe, in milliseconds.
pub const PROBE_GAP_MS: u64 = 120;

/// Why waiting for a job failed.
#[derive(Debug, Clone, Copy, PartialEq, Eq, Structural)]
pub enum StewardWait {
    QueueFull,
    Timeout,
}

/// The waiting jobs, the time between periodic rebuilds, and counts of jobs run and dropped.
#[derive(Debug)]
pub struct Steward {
    jobs: VecDeque<JobKind>,
    interval: Duration,
    queued: u64,
    dropped: u64,
}

/// What a [`Steward`] holds.
pub struct StewardV {
    pub jobs: Seq<JobKind>,
    pub interval: Duration,
    pub queued: u64,
    pub dropped: u64,
}

impl View for Steward {
    type V = StewardV;

    closed spec fn view(&self) -> StewardV {
        StewardV {
            jobs: self.jobs@,
            interval: self.interval,
            queued: self.queued,
            dropped: self.dropped,
        }
    }
}

impl StewardV {
    /// The steward after a job was offered: it waits at the end of the queue, unless the queue is
    /// full.
    pub open spec fn offered(self, kind: JobKind) -> StewardV {
        if self.jobs.len() < QUEUE_CAP {
            StewardV { jobs: self.jobs.push(kind), ..self }
        } else {
            self
        }
    }

    /// Like [`offered`](Self::offered), with a job that finds the queue full counted as dropped.
    pub open spec fn offered_or_dropped(self, kind: JobKind) -> StewardV {
        if self.jobs.len() < QUEUE_CAP {
            self.offered(kind)
        } else {
            StewardV { dropped: self.dropped.wrapping_add(1), ..self }
        }
    }
}

impl Steward {
    /// The queue is within its bounds.
    pub closed spec fn wf(&self) -> bool {
        self.jobs@.len() <= QUEUE_CAP && self.interval.wf()
    }

    /// No job waits, and the first periodic rebuild is due after a minute.
    pub fn new() -> (r: Steward)
        ensures
            r.wf(),
            r@ == (StewardV {
                jobs: Seq::empty(),
                interval: (Duration { secs: 60, nanos: 0 }),
                queued: 0,
                dropped: 0,
            }),
    {
        Steward {
            jobs: VecDeque::new(),
            interval: Duration::from_secs(60),
            queued: 0,
            dropped: 0,
        }
    }

    /// Offers a job; false when the queue is full.
    pub fn enqueue(&mut self, kind: JobKind) -> (r: bool)
        requires
            old(self).wf(),
        ensures
            final(self).wf(),
            final(self)@ == old(self)@.offered(kind),
            r == (old(self)@.jobs.len() < QUEUE_CAP),
    {
        if self.jobs.len() < QUEUE_CAP {
            self.jobs.push_back(kind);
            true
        } else {
            false
        }
    }

    fn enqueue_or_drop(&mut self, kind: JobKind)
        requires
            old(self).wf(),
        ensures
            final(self).wf(),
            final(self)@ == old(self)@.offered_or_dropped(kind),
    {
        if !self.enqueue(kind) {
            self.dropped = self.dropped.wrapping_add(1);
        }
    }

    /// Turns the hints that were gathered into one job: a full rebuild if one of them was heavy,
    /// else a light one.
    pub fn hint(&mut self, first: bool, more: &Vec<bool>)
        requires
            old(self).wf(),
        ensures
            final(self).wf(),
            final(self)@ == old(self)@.offered_or_dropped(hinted_kind(first, more@)),
    {
        let mut heavy = first;
        let mut i: usize = 0;
        while i < more.len()
            invariant
                i <= more@.len(),
                heavy == (first || more@.take(i as int).contains(true)),
            decreases more@.len() - i,
        {
            proof {
                let t = more@.take(i as int);
                let t1 = more@.take(i as int + 1);
                assert(t1 =~= t.push(more@[i as int]));
                if t.contains(true) {
                    let k = t.index_of(true);
                    assert(t1[k]);
                }
                if t1.contains(true) {
                    let k = t1.index_of(true);
                    if k < i {
                        assert(t[k]);
                    }
                }
                if more@[i as int] {
                    assert(t1[i as int]);
                }
            }
            heavy = heavy || more[i];
            i += 1;
        }
        assert(more@.take(i as int) =~= more@);
        self.enqueue_or_drop(
            if heavy {
                JobKind::Full
            } else {
                JobKind::Light
            },
        );
    }

    /// How long the worker waits for a job when `elapsed` has passed since the last periodic
    /// rebuild.
    pub fn wait_time(&self, elapsed: Duration) -> (r: Duration)
        requires
            self.wf(),
            elapsed.wf(),
        ensures
            r.wf(),
            r@ == (if self@.interval@ >= elapsed@ {
                (self@.interval@ - elapsed@) as nat
            } else {
                0
            }),
    {
        self.interval.saturating_sub(elapsed)
    }

    /// The job to run next.
    pub fn next_job(&mut self) -> (r: Option<JobKind>)
        requires
            old(self).wf(),
        ensures
            final(self).wf(),
            match r {
                Some(k) => old(self)@.jobs.len() > 0 && k == old(self)@.jobs[0] && final(self)@ == (
                StewardV { jobs: old(self)@.jobs.skip(1), ..old(self)@ }),
                None => old(self)@.jobs.len() == 0 && final(self)@ == old(self)@,
            },
    {
        let r = self.jobs.pop_front();
        proof {
            if old(self)@.jobs.len() > 0 {
                assert(self.jobs@ =~= old(self)@.jobs.skip(1));
            }
        }
        r
    }

    /// Counts a job that was run.
    pub fn job_done(&mut self)
        requires
            old(self).wf(),
        ensures
            final(self).wf(),
            final(self)@ == (StewardV {
                queued: old(self)@.queued.wrapping_add(1),
                ..old(self)@
            }),
    {
        self.queued = self.queued.wrapping_add(1);
    }

    /// Offers a periodic full rebuild once the interval has passed, and takes over the configured
    /// interval; says whether it did.
    pub fn tick(&mut self, elapsed: Duration, bus: &BusConfig) -> (r: bool)
        requires
            old(self).wf(),
            elapsed.wf(),
        ensures
            final(self).wf(),
            r == (elapsed@ >= old(self)@.interval@),
            !r ==> final(self)@ == old(self)@,
            r ==> final(self)@.jobs == old(self)@.offered_or_dropped(JobKind::Full).jobs
                && final(self)@.dropped == old(self)@.offered_or_dropped(JobKind::Full).dropped
                && final(self)@.queued == old(self)@.queued && final(self)@.interval@ == (
            crate::time::NANOS_PER_SEC * if bus.reconcile_interval_sec <= 0 {
                60
            } else {
                bus.reconcile_interval_sec as int
            }),
    {
        if !elapsed.at_least(self.interval) {
            return false;
        }
        self.enqueue_or_drop(JobKind::Full);
        self.interval = bus.reconcile_interval_std();
        true
    }

    /// The jobs run and the jobs dropped.
    pub fn counters(&self) -> (r: (u64, u64))
        ensures
            r == (self@.queued, self@.dropped),
    {
        (self.queued, self.dropped)
    }

    /// What waiting for a job came to: it could not be queued, or it was not over in time.
    pub fn wait_outcome(queued: bool, finished: bool) -> (r: Result<(), StewardWait>)
        ensures
            match r {
                Ok(()) => queued && finished,
                Err(e) => e == (if queued {
                    StewardWait::Timeout
                } else {
                    StewardWait::QueueFull
                }) && !(queued && finished),
            },
    {
        if !queued {
            return Err(StewardWait::QueueFull);
        }
        if !finished {
            return Err(StewardWait::Timeout);
        }
        Ok(())
    }
}

/// The queue is first in, first out: a job that was taken in is run after exactly the jobs that
/// waited before it.
pub proof fn law_queue_keeps_order(s: StewardV, kind: JobKind)
    requires
        s.jobs.len() < QUEUE_CAP,
    ensures
        s.offered(kind).jobs.take(s.jobs.len() as int) == s.jobs,
        s.offered(kind).jobs[s.jobs.len() as int] == kind,
        s.offered(kind).jobs.len() == s.jobs.len() + 1,
{
    assert(s.offered(kind).jobs.take(s.jobs.len() as int) =~= s.jobs);
}

// ---------------------------------------------------------------------------
// A rebuild
// ---------------------------------------------------------------------------

/// The settle time of the rescan that a job begins with, in nanoseconds: none for a light job.
pub open spec fn rescan_settle(kind: JobKind, bus: BusConfigV) -> Option<nat> {
    let extra: int = if bus.rescan_extra_settle_ms < 0 {
        0
    } else {
        bus.rescan_extra_settle_ms
    };
    match kind {
        JobKind::Light => None,
        JobKind::Full => Some(((1000 + extra) * 1_000_000) as nat),
        JobKind::Deep => Some(
            (((if bus.deep_settle_ms <= 0 {
                2500
            } else {
                bus.deep_settle_ms
            }) + extra) * 1_000_000) as nat,
        ),
    }
}

/// What a job begins with.
#[derive(Debug)]
pub enum JobStart {
    /// No adapter: there is nothing to do.
    NotConnected,
    /// Rescan the bus with this settle time, if one is given, then list the devices, with `poll`
    /// also those that only answer a poll, and query them.
    Scan { rescan: Option<Duration>, poll: bool },
}

/// Begins a job. Without an adapter the bus is not ready and the job is over.
pub fn begin_job(bus: &mut BusState, kind: JobKind, connected: bool, cfg: &BusConfig) -> (r: JobStart)
    requires
        old(bus).wf(),
        old(bus)@.generation < i64::MAX,
    ensures
        final(bus).wf(),
        match r {
            JobStart::NotConnected => !connected && final(bus)@ == (BusV {
                cec_ready: false,
                scan_in_progress: false,
                ..old(bus)@
            }),
            JobStart::Scan { rescan, poll } => connected && final(bus)@ == (BusV {
                scan_in_progress: true,
                generation: old(bus)@.generation + 1,
                ..old(bus)@
            }) && poll == (kind != JobKind::Light) && match rescan {
                Some(d) => rescan_settle(kind, cfg@) == Some(d@),
                None => rescan_settle(kind, cfg@) is None,
            },
        },
{
    if !connected {
        bus.set_cec_ready(false);
        bus.set_scan_in_progress(false);
        return JobStart::NotConnected;
    }
    bus.set_scan_in_progress(true);
    let _generation: i64 = bus.bump_generation();
    let rescan = match kind {
        JobKind::Light => None,
        JobKind::Full => Some(Duration::from_secs(1).plus(cfg.rescan_extra_settle())),
        JobKind::Deep => Some(cfg.deep_settle().plus(cfg.rescan_extra_settle())),
    };
    let poll = match kind {
        JobKind::Light => false,
        _ => true,
    };
    JobStart::Scan { rescan, poll }
}

/// What a job does, one after the other, once it has begun.
#[derive(Debug, Clone, Copy, PartialEq, Eq, Structural)]
pub enum JobStep {
    /// Make libcec scan the bus again.
    Rescan,
    /// Forget observed devices that have been silent for too long.
    ForgetStale,
    /// Ask libcec which devices are active.
    List,
    /// Poll the other addresses.
    Poll,
    /// Ask for the active source.
    ActiveSource,
    /// Query the devices.
    Query,
    /// Send the Give probes.
    Probe,
    /// Replace the cached devices and tell of it.
    Finish,
    /// End without a result.
    Abandon,
}

/// The steps of a job whose devices can be listed, in order.
pub open spec fn job_steps(kind: JobKind) -> Seq<JobStep> {
    match kind {
        JobKind::Light => seq![
            JobStep::ForgetStale,
            JobStep::List,
            JobStep::ActiveSource,
            JobStep::Query,
            JobStep::Finish,
        ],
        JobKind::Full => seq![
            JobStep::Rescan,
            JobStep::ForgetStale,
            JobStep::List,
            JobStep::Poll,
            JobStep::ActiveSource,
            JobStep::Query,
            JobStep::Finish,
        ],
        JobKind::Deep => seq![
            JobStep::Rescan,
            JobStep::ForgetStale,
            JobStep::List,
            JobStep::Poll,
            JobStep::ActiveSource,
            JobStep::Query,
            JobStep::Probe,
            JobStep::Finish,
        ],
    }
}

/// The step that follows another one, which succeeded or not. Only a failure to list the devices
/// makes a difference.
pub open spec fn step_after(kind: JobKind, done: JobStep, ok: bool) -> Option<JobStep> {
    match done {
        JobStep::Rescan => Some(JobStep::ForgetStale),
        JobStep::ForgetStale => Some(JobStep::List),
        JobStep::List => if !ok {
            Some(JobStep::Abandon)
        } else if kind == JobKind::Light {
            Some(JobStep::ActiveSource)
        } else {
            Some(JobStep::Poll)
        },
        JobStep::Poll => Some(JobStep::ActiveSource),
        JobStep::ActiveSource => Some(JobStep::Query),
        JobStep::Query => if kind == JobKind::Deep {
            Some(JobStep::Probe)
        } else {
            Some(JobStep::Finish)
        },
        JobStep::Probe => Some(JobStep::Finish),
        JobStep::Finish => None,
        JobStep::Abandon => None,
    }
}

impl JobKind {
    /// The step that a job begins with.
    pub fn first_step(self) -> (r: JobStep)
        ensures
            r == job_steps(self)[0],
    {
        match self {
            JobKind::Light => JobStep::ForgetStale,
            _ => JobStep::Rescan,
        }
    }

    /// The step that follows another one, which succeeded or not.
    pub fn next_step(self, done: JobStep, ok: bool) -> (r: Option<JobStep>)
        ensures
            r == step_after(self, done, ok),
    {
        match done {
            JobStep::Rescan => Some(JobStep::ForgetStale),
            JobStep::ForgetStale => Some(JobStep::List),
            JobStep::List => if !ok {
                Some(JobStep::Abandon)
            } else if self == JobKind::Light {
                Some(JobStep::ActiveSource)
            } else {
                Some(JobStep::Poll)
            },
            JobStep::Poll => Some(JobStep::ActiveSource),
            JobStep::ActiveSource => Some(JobStep::Query),
            JobStep::Query => if self.sends_probes() {
                Some(JobStep::Probe)
            } else {
                Some(JobStep::Finish)
            },
            JobStep::Probe => Some(JobStep::Finish),
            JobStep::Finish => None,
            JobStep::Abandon => None,
        }
    }

    /// Whether a job sends the Give probes: a deep one does.
    pub fn sends_probes(self) -> (r: bool)
        ensures
            r == (self == JobKind::Deep),
            r == job_steps(self).contains(JobStep::Probe),
    {
        proof {
            if self == JobKind::Deep {
                assert(job_steps(self)[6] == JobStep::Probe);
            }
        }
        self == JobKind::Deep
    }
}

/// A job goes through its steps in order, each once, whatever else fails, where its devices can be
/// listed; otherwise it ends there. It rescans exactly where [`begin_job`] gives a settle time.
pub proof fn law_job_steps_in_order(kind: JobKind, bus: BusConfigV, ok: bool)
    ensures
        forall|i: int|
            #![trigger job_steps(kind)[i]]
            0 <= i < job_steps(kind).len() && (ok || job_steps(kind)[i] != JobStep::List)
                ==> step_after(kind, job_steps(kind)[i], ok) == (if i + 1 < job_steps(kind).len() {
                Some(job_steps(kind)[i + 1])
            } else {
                None
            }),
        step_after(kind, JobStep::List, false) == Some(JobStep::Abandon),
        step_after(kind, JobStep::Abandon, ok) is None,
        (job_steps(kind)[0] == JobStep::Rescan) == (rescan_settle(kind, bus) is Some),
        job_steps(kind).no_duplicates(),
        job_steps(kind).last() == JobStep::Finish,
{
}

/// Ends a job whose devices could not be listed.
pub fn abandon_job(bus: &mut BusState)
    requires
        old(bus).wf(),
    ensures
        final(bus).wf(),
        final(bus)@ == (BusV { scan_in_progress: false, ..old(bus)@ }),
{
    bus.set_scan_in_progress(false);
}

/// How a device was found: libcec lists it as active, or it only answered a poll.
pub open spec fn discovery_of(active: Seq<u8>, a: u8) -> Seq<char> {
    if active.contains(a) {
        "active"@
    } else {
        "polled"@
    }
}

/// The entry of a device that answered queries.
pub open spec fn answered_entry(info: DeviceInfo, active: Seq<u8>, polled_at: Timestamp) -> JsonV {
    JsonV::Object(
        device_object(info).insert("polled_at"@, JsonV::Text(polled_at.text())).insert(
            "discovery"@,
            JsonV::Text(discovery_of(active, info.logical_address.0)),
        ),
    )
}

/// The entry of a device that answered queries. `active` is what libcec lists.
pub fn device_entry(info: &DeviceInfo, active: &Vec<LogicalAddress>, polled_at: Timestamp) -> (r:
    serde_json::Value)
    ensures
        json::json(r) == answered_entry(*info, address_bytes(active@), polled_at),
{
    let mut m = info.to_map();
    json::insert(&mut m, "polled_at", json::text(polled_at.to_rfc3339().as_str()));
    let discovery = if lists(active, info.logical_address.0) { "active" } else { "polled" };
    json::insert(&mut m, "discovery", json::text(discovery));
    json::object_value(m)
}

/// The entry of a device that answered a poll and no query.
pub open spec fn polled_entry(a: u8, polled_at: Timestamp) -> JsonV {
    JsonV::Object(
        json::no_fields().insert("logical_address"@, JsonV::Int(a as int)).insert(
            "address_name"@,
            JsonV::Text(logical_address_text(a)),
        ).insert("device_type"@, JsonV::Text(device_role_text(a))).insert(
            "polled_at"@,
            JsonV::Text(polled_at.text()),
        ).insert("discovery"@, JsonV::Text("polled"@)),
    )
}

fn polled_device(a: u8, polled_at: Timestamp) -> (r: serde_json::Value)
    ensures
        json::json(r) == polled_entry(a, polled_at),
{
    let mut m = json::new_object();
    json::insert(&mut m, "logical_address", json::integer(a as i64));
    json::insert(&mut m, "address_name", json::text(logical_address_name(a).as_str()));
    json::insert(&mut m, "device_type", json::text(device_type_for_address(a)));
    json::insert(&mut m, "polled_at", json::text(polled_at.to_rfc3339().as_str()));
    json::insert(&mut m, "discovery", json::text("polled"));
    json::object_value(m)
}

/// The addresses that are sent a poll: every one of 0..=14 that libcec does not list.
pub open spec fn poll_list(active: Seq<u8>, poll: bool) -> Seq<u8> {
    if poll {
        all_addresses().filter(|a: u8| a <= 14 && !active.contains(a))
    } else {
        Seq::empty()
    }
}

/// The addresses to poll. `mask` is libcec's mask of active devices.
pub fn poll_targets(mask: u16, poll: bool) -> (r: Vec<LogicalAddress>)
    ensures
        address_bytes(r@) == poll_list(mask_addresses(mask), poll),
{
    let mut out: Vec<LogicalAddress> = Vec::new();
    if !poll {
        assert(address_bytes(out@) =~= Seq::empty());
        return out;
    }
    let active = mask_to_addresses(mask);
    let ghost av = mask_addresses(mask);
    let ghost p = |a: u8| a <= 14 && !av.contains(a);
    let mut i: u8 = 0;
    proof {
        reveal(Seq::filter);
        assert(address_bytes(out@) =~= all_addresses().take(0).filter(p));
    }
    while i < 16
        invariant
            i <= 16,
            av == address_bytes(active@),
            p == (|a: u8| a <= 14 && !av.contains(a)),
            address_bytes(out@) == all_addresses().take(i as int).filter(p),
        decreases 16 - i,
    {
        let ghost before = out@;
        proof {
            reveal(Seq::filter);
            assert(all_addresses().take(i as int + 1).drop_last() =~= all_addresses().take(
                i as int,
            ));
            assert(all_addresses().take(i as int + 1).last() == i);
        }
        if i <= 14 && !lists(&active, i) {
            out.push(LogicalAddress(i));
            assert(address_bytes(out@) =~= address_bytes(before).push(i));
        }
        i += 1;
    }
    assert(all_addresses().take(16) =~= all_addresses());
    out
}

/// The devices of a scan: those that libcec lists, and with `poll` those that answered a poll.
pub open spec fn scanned(active: Seq<u8>, poll: bool, answers: Seq<bool>) -> Seq<u8> {
    if poll {
        with_polled(active, answers)
    } else {
        active
    }
}

/// A scan in progress: what libcec lists, all addresses to query, how many were queried, and the
/// entries of the devices that answered.
#[derive(Debug)]
pub struct Scan {
    pub active: Vec<LogicalAddress>,
    pub addresses: Vec<LogicalAddress>,
    pub next: usize,
    pub entries: Vec<serde_json::Value>,
}

impl Scan {
    /// No more devices were queried than there are.
    pub open spec fn wf(&self) -> bool {
        self.next <= self.addresses@.len()
    }

    /// Begins the queries. `mask` is libcec's mask of active devices, and `answers[a]` whether
    /// address `a` answered a poll.
    pub fn start(mask: u16, poll: bool, answers: &Vec<bool>) -> (r: Scan)
        requires
            answers@.len() == 15,
        ensures
            r.wf(),
            address_bytes(r.active@) == mask_addresses(mask),
            address_bytes(r.addresses@) == scanned(mask_addresses(mask), poll, answers@),
            r.next == 0,
            r.entries@.len() == 0,
    {
        Scan {
            active: mask_to_addresses(mask),
            addresses: logical_addresses_with_poll(mask_to_addresses(mask), !poll, answers),
            next: 0,
            entries: Vec::new(),
        }
    }

    /// The device to query next, when `elapsed` has passed since the first query: none once all
    /// were queried, or once the time for queries is over.
    pub fn next_query(&self, elapsed: Duration) -> (r: Option<LogicalAddress>)
        requires
            self.wf(),
            elapsed.wf(),
        ensures
            r == (if self.next < self.addresses@.len() && elapsed@ <= QUERY_BUDGET_SECS
                * 1_000_000_000 {
                Some(self.addresses@[self.next as int])
            } else {
                None
            }),
    {
        if self.next < self.addresses.len() && Duration::from_secs(QUERY_BUDGET_SECS).at_least(
            elapsed,
        ) {
            Some(self.addresses[self.next])
        } else {
            None
        }
    }

    /// Takes in what the device that was queried next said of itself, if it answered.
    pub fn record(&mut self, info: Option<&DeviceInfo>, now: Timestamp)
        requires
            old(self).wf(),
            old(self).next < old(self).addresses@.len(),
        ensures
            final(self).wf(),
            final(self).active == old(self).active,
            final(self).addresses == old(self).addresses,
            final(self).next == old(self).next + 1,
            json::jsons(final(self).entries@) == (match info {
                Some(i) => json::jsons(old(self).entries@).push(
                    answered_entry(*i, address_bytes(old(self).active@), now),
                ),
                None => json::jsons(old(self).entries@),
            }),
    {
        let count: usize = self.addresses.len();
        assert(self.next < count);
        if let Some(i) = info {
            let ghost before = json::jsons(self.entries@);
            let entry = device_entry(i, &self.active, now);
            let ghost told = json::json(entry);
            self.entries.push(entry);
            assert(json::jsons(self.entries@) =~= before.push(told));
        }
        self.next = self.next + 1;
    }
}

/// The entry of a device that was only observed.
pub open spec fn ghost_entry(addr: i32) -> JsonV {
    JsonV::Object(
        json::no_fields().insert("logical_address"@, JsonV::Int(addr as int)).insert(
            "address_name"@,
            JsonV::Text(logical_address_text(addr as u8)),
        ).insert("device_type"@, JsonV::Text(device_role_text(addr as u8))).insert(
            "discovery"@,
            JsonV::Text("observed"@),
        ),
    )
}

fn ghost_device(addr: i32) -> (r: serde_json::Value)
    ensures
        json::json(r) == ghost_entry(addr),
{
    let b: u8 = #[verifier::truncate] (addr as u8);
    let mut m = json::new_object();
    json::insert(&mut m, "logical_address", json::integer(addr as i64));
    json::insert(&mut m, "address_name", json::text(logical_address_name(b).as_str()));
    json::insert(&mut m, "device_type", json::text(device_type_for_address(b)));
    json::insert(&mut m, "discovery", json::text("observed"));
    json::object_value(m)
}

/// Whether an address is in a list.
pub open spec fn listed(active: Seq<u8>, a: i32) -> bool {
    exists|i: int| 0 <= i < active.len() && (#[trigger] active[i]) as int == a as int
}

/// The entries of the observed devices that are not among the given addresses.
pub open spec fn ghosts(observed: Seq<i32>, active: Seq<u8>) -> Seq<JsonV>
    decreases observed.len(),
{
    if observed.len() == 0 {
        Seq::empty()
    } else {
        let rest = ghosts(observed.drop_last(), active);
        let a = observed.last();
        if listed(active, a) {
            rest
        } else {
            rest.push(ghost_entry(a))
        }
    }
}

/// A device with the times at which it was first and last seen.
pub open spec fn with_seen(d: JsonV, observed: Map<i32, ObservedV>) -> JsonV {
    match d {
        JsonV::Object(o) => match json::int_field(d, "logical_address"@) {
            Some(la) => if observed.contains_key(la as i32) {
                JsonV::Object(
                    o.insert(
                        "first_seen_at"@,
                        JsonV::Text(observed[la as i32].first_seen.text()),
                    ).insert("last_seen_at"@, JsonV::Text(observed[la as i32].last_seen.text())),
                )
            } else {
                d
            },
            None => d,
        },
        _ => d,
    }
}

/// The logical addresses of a list of devices.
pub open spec fn addresses_of(devices: Seq<JsonV>) -> Seq<i32>
    decreases devices.len(),
{
    if devices.len() == 0 {
        Seq::empty()
    } else {
        let rest = addresses_of(devices.drop_last());
        match json::int_field(devices.last(), "logical_address"@) {
            Some(la) => rest.push(la as i32),
            None => rest,
        }
    }
}

/// The entries of the devices that answered a poll and are not known otherwise.
pub open spec fn silent(
    addresses: Seq<u8>,
    active: Seq<u8>,
    known: Seq<i32>,
    now: Timestamp,
) -> Seq<JsonV>
    decreases addresses.len(),
{
    if addresses.len() == 0 {
        Seq::empty()
    } else {
        let rest = silent(addresses.drop_last(), active, known, now);
        let a = addresses.last();
        if active.contains(a) || known.contains(a as i32) {
            rest
        } else {
            rest.push(polled_entry(a, now))
        }
    }
}

/// All devices of a rebuild: those that answered queries, those that only answered a poll, then
/// those that were only observed, each with the times at which it was seen.
pub open spec fn rebuilt(
    entries: Seq<JsonV>,
    addresses: Seq<u8>,
    active: Seq<u8>,
    observed_order: Seq<i32>,
    observed: Map<i32, ObservedV>,
    now: Timestamp,
) -> Seq<JsonV> {
    (entries + silent(addresses, active, addresses_of(entries), now) + ghosts(
        observed_order,
        addresses,
    )).map_values(|d: JsonV| with_seen(d, observed))
}

fn holds(v: &Vec<i32>, a: i32) -> (r: bool)
    ensures
        r == v@.contains(a),
{
    let mut i: usize = 0;
    while i < v.len()
        invariant
            i <= v@.len(),
            forall|j: int| 0 <= j < i ==> v@[j] != a,
        decreases v@.len() - i,
    {
        if v[i] == a {
            return true;
        }
        i += 1;
    }
    false
}

fn add_silent(devices: &mut Vec<serde_json::Value>, scan: &Scan, now: Timestamp)
    ensures
        json::jsons(final(devices)@) == json::jsons(old(devices)@) + silent(
            address_bytes(scan.addresses@),
            address_bytes(scan.active@),
            addresses_of(json::jsons(old(devices)@)),
            now,
        ),
{
    let known = collect_addresses(devices);
    let ghost start = json::jsons(devices@);
    let ghost all = address_bytes(scan.addresses@);
    let ghost act = address_bytes(scan.active@);
    let mut i: usize = 0;
    assert(all.take(0) =~= Seq::empty());
    assert(start + silent(all.take(0), act, known@, now) =~= start);
    while i < scan.addresses.len()
        invariant
            i <= scan.addresses@.len(),
            start == json::jsons(old(devices)@),
            known@ == addresses_of(start),
            all == address_bytes(scan.addresses@),
            act == address_bytes(scan.active@),
            json::jsons(devices@) == start + silent(all.take(i as int), act, known@, now),
        decreases scan.addresses@.len() - i,
    {
        let ghost before = devices@;
        let a: u8 = scan.addresses[i].0;
        proof {
            assert(all.take(i as int + 1).drop_last() =~= all.take(i as int));
            assert(all.take(i as int + 1).last() == a);
        }
        if !lists(&scan.active, a) && !holds(&known, a as i32) {
            devices.push(polled_device(a, now));
            assert(json::jsons(devices@) =~= json::jsons(before).push(polled_entry(a, now)));
        }
        assert(json::jsons(devices@) =~= start + silent(all.take(i as int + 1), act, known@, now));
        i += 1;
    }
    assert(all.take(i as int) =~= all);
}

fn lists_active(active: &Vec<LogicalAddress>, a: i32) -> (r: bool)
    ensures
        r == listed(address_bytes(active@), a),
{
    let ghost av = address_bytes(active@);
    let mut i: usize = 0;
    while i < active.len()
        invariant
            i <= active@.len(),
            av == address_bytes(active@),
            forall|j: int| 0 <= j < i ==> #[trigger] av[j] as int != a as int,
        decreases active@.len() - i,
    {
        assert(av[i as int] == active@[i as int].0);
        if active[i].0 as i32 == a {
            return true;
        }
        i += 1;
    }
    false
}

fn add_ghosts(devices: &mut Vec<serde_json::Value>, observed: &Vec<i32>, active: &Vec<LogicalAddress>)
    ensures
        json::jsons(final(devices)@) == json::jsons(old(devices)@) + ghosts(
            observed@,
            address_bytes(active@),
        ),
{
    let ghost start = json::jsons(devices@);
    let ghost av = address_bytes(active@);
    let mut i: usize = 0;
    assert(observed@.take(0) =~= Seq::empty());
    assert(start + ghosts(observed@.take(0), av) =~= start);
    while i < observed.len()
        invariant
            i <= observed@.len(),
            start == json::jsons(old(devices)@),
            av == address_bytes(active@),
            json::jsons(devices@) == start + ghosts(observed@.take(i as int), av),
        decreases observed@.len() - i,
    {
        let ghost before = devices@;
        proof {
            assert(observed@.take(i as int + 1).drop_last() =~= observed@.take(i as int));
            assert(observed@.take(i as int + 1).last() == observed@[i as int]);
        }
        if !lists_active(active, observed[i]) {
            devices.push(ghost_device(observed[i]));
            assert(json::jsons(devices@) =~= json::jsons(before).push(
                ghost_entry(observed@[i as int]),
            ));
        }
        assert(json::jsons(devices@) =~= start + ghosts(observed@.take(i as int + 1), av));
        i += 1;
    }
    assert(observed@.take(i as int) =~= observed@);
}

fn stamp_seen(bus: &BusState, devices: &mut Vec<serde_json::Value>)
    requires
        bus.wf(),
    ensures
        json::jsons(final(devices)@) == json::jsons(old(devices)@).map_values(
            |d: JsonV| with_seen(d, bus@.observed),
        ),
{
    let n: usize = devices.len();
    let ghost before = devices@;
    let mut i: usize = 0;
    while i < n
        invariant
            bus.wf(),
            i <= n == devices@.len() == before.len(),
            forall|j: int| i <= j < n ==> devices@[j] == before[j],
            forall|j: int|
                0 <= j < i ==> json::json(#[trigger] devices@[j]) == with_seen(
                    json::json(before[j]),
                    bus@.observed,
                ),
        decreases n - i,
    {
        let la = json::get_i64(&devices[i], "logical_address");
        let d = &mut devices[i];
        if let Some(la) = la {
            let a: i32 = #[verifier::truncate] (la as i32);
            if let Some((first, last)) = bus.seen_timestamps(a) {
                if let Some(obj) = json::as_object_mut(d) {
                    json::insert(obj, "first_seen_at", json::text(first.to_rfc3339().as_str()));
                    json::insert(obj, "last_seen_at", json::text(last.to_rfc3339().as_str()));
                }
            }
        }
        i += 1;
    }
    assert(json::jsons(devices@) =~= json::jsons(before).map_values(
        |d: JsonV| with_seen(d, bus@.observed),
    ));
}

fn collect_addresses(devices: &Vec<serde_json::Value>) -> (r: Vec<i32>)
    ensures
        r@ == addresses_of(json::jsons(devices@)),
{
    let ghost all = json::jsons(devices@);
    let mut out: Vec<i32> = Vec::new();
    let mut i: usize = 0;
    assert(all.take(0) =~= Seq::empty());
    while i < devices.len()
        invariant
            i <= devices@.len(),
            all == json::jsons(devices@),
            out@ == addresses_of(all.take(i as int)),
        decreases devices@.len() - i,
    {
        proof {
            assert(all.take(i as int + 1).drop_last() =~= all.take(i as int));
            assert(all.take(i as int + 1).last() == json::json(devices@[i as int]));
        }
        if let Some(la) = json::get_i64(&devices[i], "logical_address") {
            out.push(#[verifier::truncate] (la as i32));
        }
        i += 1;
    }
    assert(all.take(i as int) =~= all);
    out
}

/// JSON integers.
pub open spec fn int_values(v: Seq<i32>) -> Seq<JsonV> {
    v.map_values(|n: i32| JsonV::Int(n as int))
}

/// A JSON array of integers.
pub fn int_array(v: &Vec<i32>) -> (r: serde_json::Value)
    ensures
        json::json(r) == JsonV::Array(int_values(v@)),
{
    let mut list: Vec<serde_json::Value> = Vec::new();
    let mut i: usize = 0;
    while i < v.len()
        invariant
            i <= v@.len(),
            json::jsons(list@) == int_values(v@).take(i as int),
        decreases v@.len() - i,
    {
        let ghost before = list@;
        list.push(json::integer(v[i] as i64));
        i += 1;
        assert(json::jsons(list@) =~= json::jsons(before).push(int_values(v@)[i - 1]));
        assert(json::jsons(list@) =~= int_values(v@).take(i as int));
    }
    assert(int_values(v@).take(i as int) =~= int_values(v@));
    json::array(list)
}

/// The event that tells of a rebuild.
pub open spec fn devices_changed(kind: JobKind, addresses: Seq<i32>, now: Timestamp) -> AppEventV {
    AppEventV {
        kind: DEVICES_CHANGED@,
        timestamp: now,
        data: JsonV::Object(
            json::no_fields().insert("reason"@, JsonV::Text("bus_topology"@)).insert(
                "kind"@,
                JsonV::Text(job_kind_text(kind)),
            ).insert("logical_addresses"@, JsonV::Array(int_values(addresses))),
        ),
    }
}

/// Forgets the devices that have not been seen for the configured time.
pub fn forget_stale(bus: &mut BusState, cfg: &BusConfig, now: Timestamp)
    requires
        old(bus).wf(),
    ensures
        final(bus).wf(),
        final(bus)@.observed == remembered(old(bus)@.observed, ttl_of(cfg@), now),
        final(bus)@ == (BusV { observed: final(bus)@.observed, ..old(bus)@ }),
{
    let ttl = cfg.stale_device_ttl();
    proof {
        let t = ttl_of(cfg@);
        assert(ttl.secs == t.secs && ttl.nanos == t.nanos) by {
            assert(ttl@ == t@);
            assert(ttl.secs * 1_000_000_000 + ttl.nanos == t.secs * 1_000_000_000 + t.nanos);
        }
    }
    bus.prune_stale_observed(ttl, now);
}

/// The configured time after which an observed device is forgotten.
pub open spec fn ttl_of(bus: BusConfigV) -> Duration {
    Duration {
        secs: if bus.stale_device_ttl_sec < 0 {
            0
        } else if bus.stale_device_ttl_sec == 0 {
            600
        } else {
            bus.stale_device_ttl_sec as u64
        },
        nanos: 0,
    }
}

/// Ends a job: the devices that answered queries or a poll and those that were only observed become
/// the cached devices, and the event tells of it.
pub fn finish_job(
    bus: &mut BusState,
    kind: JobKind,
    scan: Scan,
    active_source: Option<LogicalAddress>,
    cfg: &BusConfig,
    monitoring: bool,
    now: Timestamp,
) -> (r: AppEvent)
    requires
        old(bus).wf(),
    ensures
        final(bus).wf(),
        ({
            let devices = rebuilt(
                json::jsons(scan.entries@),
                address_bytes(scan.addresses@),
                address_bytes(scan.active@),
                old(bus).observed_order(),
                old(bus)@.observed,
                now,
            );
            &&& r@ == devices_changed(kind, addresses_of(devices), now)
            &&& final(bus)@ == (BusV {
                devices: devices.map_values(|d: JsonV| merged(d, old(bus)@.observed)),
                addresses: addresses_of(devices),
                active_source: match active_source {
                    Some(a) => a.0 as int,
                    None => -1,
                },
                cec_ready: true,
                monitoring,
                scan_in_progress: false,
                last_full_scan_at: Some(now),
                stale_threshold_sec: if cfg.stale_threshold_sec < 1 {
                    1
                } else {
                    cfg.stale_threshold_sec as int
                },
                ring_cap: (if cfg.frame_ring_size < 0 {
                    0
                } else if cfg.frame_ring_size == 0 {
                    256
                } else {
                    cfg.frame_ring_size as usize
                }) as nat,
                ..old(bus)@
            })
        }),
{
    let Scan { active, addresses: found, next, entries } = scan;
    let scan = Scan { active, addresses: found, next, entries: Vec::new() };
    let mut devices = entries;
    add_silent(&mut devices, &scan, now);
    let observed = bus.observed_addresses();
    add_ghosts(&mut devices, &observed, &scan.addresses);
    stamp_seen(bus, &mut devices);
    let addresses = collect_addresses(&devices);
    bus.merge_observed_into_devices(&mut devices);
    let mut data = json::new_object();
    json::insert(&mut data, "reason", json::text("bus_topology"));
    json::insert(&mut data, "kind", json::text(kind.as_str()));
    json::insert(&mut data, "logical_addresses", int_array(&addresses));
    let source: i32 = match active_source {
        Some(a) => a.0 as i32,
        None => -1,
    };
    let threshold: i64 = if cfg.stale_threshold_sec < 1 { 1 } else { cfg.stale_threshold_sec };
    bus.replace_snapshot(
        devices,
        addresses,
        source,
        true,
        monitoring,
        Some(now),
        threshold,
        cfg.frame_ring_size(),
    );
    AppEvent::new(DEVICES_CHANGED, json::object_value(data), now)
}

/// How a device was found is told by its entry: "polled" exactly where it answered a poll and
/// libcec does not list it.
pub proof fn law_discovery_tells_how_a_device_was_found(
    info: DeviceInfo,
    active: Seq<u8>,
    now: Timestamp,
    a: u8,
)
    ensures
        json::text_field(answered_entry(info, active, now), "discovery"@) == Some(
            discovery_of(active, info.logical_address.0),
        ),
        (discovery_of(active, info.logical_address.0) == "polled"@) == !active.contains(
            info.logical_address.0,
        ),
        json::text_field(polled_entry(a, now), "discovery"@) == Some("polled"@),
{
    reveal_strlit("active");
    reveal_strlit("polled");
    assert("active"@[0] != "polled"@[0]);
}

proof fn lemma_addresses_join(a: Seq<JsonV>, b: Seq<JsonV>)
    ensures
        addresses_of(a + b) == addresses_of(a) + addresses_of(b),
    decreases b.len(),
{
    if b.len() == 0 {
        assert(a + b =~= a);
        assert(addresses_of(a) + addresses_of(b) =~= addresses_of(a));
    } else {
        lemma_addresses_join(a, b.drop_last());
        assert((a + b).drop_last() =~= a + b.drop_last());
        assert(addresses_of(a + b) =~= addresses_of(a) + addresses_of(b));
    }
}

proof fn lemma_seen_keeps_addresses(devices: Seq<JsonV>, observed: Map<i32, ObservedV>)
    ensures
        addresses_of(devices.map_values(|d: JsonV| with_seen(d, observed))) == addresses_of(devices),
    decreases devices.len(),
{
    let f = |d: JsonV| with_seen(d, observed);
    if devices.len() == 0 {
        assert(devices.map_values(f) =~= devices);
    } else {
        reveal_strlit("logical_address");
        reveal_strlit("first_seen_at");
        reveal_strlit("last_seen_at");
        assert("logical_address"@.len() == 15 && "first_seen_at"@.len() == 13
            && "last_seen_at"@.len() == 12);
        assert(json::int_field(with_seen(devices.last(), observed), "logical_address"@)
            == json::int_field(devices.last(), "logical_address"@));
        lemma_seen_keeps_addresses(devices.drop_last(), observed);
        assert(devices.map_values(f).drop_last() =~= devices.drop_last().map_values(f));
    }
}

proof fn lemma_silent_has(
    addresses: Seq<u8>,
    active: Seq<u8>,
    known: Seq<i32>,
    now: Timestamp,
    a: u8,
)
    requires
        addresses.contains(a),
        !active.contains(a),
        !known.contains(a as i32),
    ensures
        addresses_of(silent(addresses, active, known, now)).contains(a as i32),
    decreases addresses.len(),
{
    reveal_strlit("logical_address");
    reveal_strlit("address_name");
    reveal_strlit("device_type");
    reveal_strlit("polled_at");
    reveal_strlit("discovery");
    assert("logical_address"@.len() == 15 && "address_name"@.len() == 12 && "device_type"@.len()
        == 11 && "polled_at"@.len() == 9 && "discovery"@.len() == 9);
    let all = silent(addresses, active, known, now);
    let b = addresses.last();
    let init = silent(addresses.drop_last(), active, known, now);
    if !(active.contains(b) || known.contains(b as i32)) {
        assert(all.drop_last() =~= init);
        assert(json::int_field(polled_entry(b, now), "logical_address"@) == Some(b as int));
        assert(addresses_of(all) == addresses_of(init).push(b as i32));
    }
    if b == a {
        assert(addresses_of(all)[addresses_of(all).len() - 1] == a as i32);
    } else {
        let k = addresses.index_of(a);
        assert(addresses.drop_last()[k] == a);
        lemma_silent_has(addresses.drop_last(), active, known, now, a);
        let j = addresses_of(init).index_of(a as i32);
        assert(addresses_of(all)[j] == a as i32);
    }
}

/// A scan with polls lists every device that answered a poll and that libcec does not list,
/// whether or not it answered queries.
pub proof fn law_acking_devices_are_listed(
    active: Seq<u8>,
    answers: Seq<bool>,
    entries: Seq<JsonV>,
    observed_order: Seq<i32>,
    observed: Map<i32, ObservedV>,
    now: Timestamp,
    a: u8,
)
    requires
        answers.len() == 15,
        a <= 14,
        answers[a as int],
        !active.contains(a),
    ensures
        poll_list(active, true).contains(a),
        addresses_of(
            rebuilt(
                entries,
                scanned(active, true, answers),
                active,
                observed_order,
                observed,
                now,
            ),
        ).contains(a as i32),
{
    let p = |x: u8| x <= 14 && !active.contains(x);
    let q = |x: u8| active.contains(x) || (x <= 14 && answers[x as int]);
    let addresses = scanned(active, true, answers);
    assert(all_addresses()[a as int] == a);
    all_addresses().lemma_filter_contains(p, a as int);
    all_addresses().lemma_filter_contains(q, a as int);
    let known = addresses_of(entries);
    let quiet = silent(addresses, active, known, now);
    let rest = ghosts(observed_order, addresses);
    lemma_addresses_join(entries, quiet);
    lemma_addresses_join(entries + quiet, rest);
    lemma_seen_keeps_addresses(entries + quiet + rest, observed);
    let all = known + addresses_of(quiet) + addresses_of(rest);
    if known.contains(a as i32) {
        let k = known.index_of(a as i32);
        assert(all[k] == a as i32);
    } else {
        lemma_silent_has(addresses, active, known, now, a);
        let k = addresses_of(quiet).index_of(a as i32);
        assert(all[known.len() + k] == a as i32);
    }
}

/// The cached addresses are the addresses of the cached devices: merging what was observed does
/// not change them.
pub proof fn law_cached_addresses_are_those_of_cached_devices(
    devices: Seq<JsonV>,
    observed: Map<i32, ObservedV>,
)
    ensures
        addresses_of(devices.map_values(|d: JsonV| merged(d, observed))) == addresses_of(devices),
    decreases devices.len(),
{
    let f = |d: JsonV| merged(d, observed);
    if devices.len() > 0 {
        law_cached_addresses_are_those_of_cached_devices(devices.drop_last(), observed);
        assert(devices.map_values(f).drop_last() =~= devices.drop_last().map_values(f));
        assert(!text::starts_with("logical_address"@, OBSERVED_PREFIX@)) by {
            reveal_strlit("logical_address");
            reveal_strlit("observed_");
            assert("logical_address"@.take(9)[0] == 'l');
            assert("observed_"@[0] == 'o');
        }
        law_merge_keeps_other_fields(devices.last(), observed, "logical_address"@);
    } else {
        assert(devices.map_values(f) =~= devices);
    }
}

/// A device that was observed and that the scan did not find is among the cached devices.
pub proof fn law_observed_devices_are_not_lost(observed: Seq<i32>, active: Seq<u8>, i: int)
    requires
        0 <= i < observed.len(),
        !listed(active, observed[i]),
    ensures
        ghosts(observed, active).contains(ghost_entry(observed[i])),
    decreases observed.len(),
{
    let all = ghosts(observed, active);
    if i == observed.len() - 1 {
        assert(all[all.len() - 1] == ghost_entry(observed[i]));
    } else {
        let init = observed.drop_last();
        assert(init[i] == observed[i]);
        law_observed_devices_are_not_lost(init, active, i);
        let k = ghosts(init, active).index_of(ghost_entry(observed[i]));
        assert(all[k] == ghost_entry(observed[i]));
    }
}

// ---------------------------------------------------------------------------
// Probes
// ---------------------------------------------------------------------------

/// The probes of a deep rebuild, by opcode and name, in the order in which they are sent.
pub const PROBES: [(u8, &'static str); 5] = [
    (Opcode::GIVE_DEVICE_VENDOR_ID, "vendor"),
    (Opcode::GIVE_OSD_NAME, "osd"),
    (Opcode::GET_CEC_VERSION, "cec_version"),
    (Opcode::GIVE_DEVICE_POWER_STATUS, "power"),
    (Opcode::GIVE_PHYSICAL_ADDRESS, "physical"),
];

/// What is sent to one device: a pause first, then the probes one after the other.
#[derive(Debug)]
pub struct ProbePlan {
    pub settle_ms: u64,
    pub commands: Vec<Command>,
}

/// What a [`ProbePlan`] holds.
pub struct ProbePlanV {
    pub settle_ms: int,
    pub commands: Seq<CommandV>,
}

/// What a list of commands holds.
pub open spec fn command_views(v: Seq<Command>) -> Seq<CommandV> {
    v.map_values(|c: Command| c@)
}

impl View for ProbePlan {
    type V = ProbePlanV;

    open spec fn view(&self) -> ProbePlanV {
        ProbePlanV {
            settle_ms: self.settle_ms as int,
            commands: command_views(self.commands@),
        }
    }
}

/// The position of the profile of a vendor.
pub open spec fn profile_at(profiles: Seq<VendorEntryV>, vendor: Seq<char>, i: int) -> Option<int>
    decreases profiles.len() - i,
{
    if i < 0 || i >= profiles.len() {
        None
    } else if profiles[i].vendor == vendor {
        Some(i)
    } else {
        profile_at(profiles, vendor, i + 1)
    }
}

/// The profile for a device, by its vendor ID.
pub open spec fn profile_for(d: JsonV, profiles: Seq<VendorEntryV>) -> Option<VendorEntryV> {
    let vendor = match json::text_field(d, "vendor_id"@) {
        Some(v) => text::lower(v),
        None => text::lower(Seq::empty()),
    };
    match profile_at(profiles, vendor, 0) {
        Some(i) => Some(profiles[i]),
        None => None,
    }
}

/// A probe frame.
pub open spec fn probe_command(opcode: u8, first: Option<LogicalAddress>, la: int) -> CommandV {
    CommandV {
        initiator: match first {
            Some(a) => a.0,
            None => LogicalAddress::FREE_USE,
        },
        destination: la as u8,
        opcode,
        opcode_set: true,
        parameters: Seq::empty(),
        ack: false,
        eom: true,
    }
}

/// The first `n` probes for a device, without those that its vendor's profile skips.
pub open spec fn probe_commands(
    profile: Option<VendorEntryV>,
    first: Option<LogicalAddress>,
    la: int,
    n: int,
) -> Seq<CommandV>
    decreases n,
{
    if n <= 0 {
        Seq::empty()
    } else {
        let rest = probe_commands(profile, first, la, n - 1);
        if profile matches Some(p) && p.skip_probes.contains(PROBES@[n - 1].1@) {
            rest
        } else {
            rest.push(probe_command(PROBES@[n - 1].0, first, la))
        }
    }
}

/// What is sent to a device; nothing to a device without logical address.
pub open spec fn probe_plan(
    d: JsonV,
    profiles: Seq<VendorEntryV>,
    first: Option<LogicalAddress>,
) -> Option<ProbePlanV> {
    match json::int_field(d, "logical_address"@) {
        Some(la) => {
            let profile = profile_for(d, profiles);
            Some(
                ProbePlanV {
                    settle_ms: match profile {
                        Some(p) => if p.settle_ms > 0 {
                            p.settle_ms
                        } else {
                            0
                        },
                        None => 0,
                    },
                    commands: probe_commands(profile, first, la, 5),
                },
            )
        },
        None => None,
    }
}

fn find_profile(profiles: &Vec<VendorEntry>, vendor: &str) -> (r: Option<usize>)
    ensures
        match r {
            Some(i) => i < profiles@.len() && profile_at(vendor_views(profiles@), vendor@, 0)
                == Some(i as int),
            None => profile_at(vendor_views(profiles@), vendor@, 0) is None,
        },
{
    let ghost pv = vendor_views(profiles@);
    let mut i: usize = 0;
    while i < profiles.len()
        invariant
            i <= profiles@.len(),
            pv == vendor_views(profiles@),
            profile_at(pv, vendor@, 0) == profile_at(pv, vendor@, i as int),
        decreases profiles@.len() - i,
    {
        assert(pv[i as int] == profiles@[i as int]@);
        if text::str_eq(profiles[i].vendor.as_str(), vendor) {
            return Some(i);
        }
        i += 1;
    }
    None
}

fn contains_text(v: &Vec<String>, s: &str) -> (r: bool)
    ensures
        r == text::views(v@).contains(s@),
{
    let mut i: usize = 0;
    while i < v.len()
        invariant
            i <= v@.len(),
            forall|j: int| 0 <= j < i ==> #[trigger] text::views(v@)[j] != s@,
        decreases v@.len() - i,
    {
        assert(text::views(v@)[i as int] == v@[i as int]@);
        if text::str_eq(v[i].as_str(), s) {
            return true;
        }
        i += 1;
    }
    false
}

/// The probes of a deep rebuild, honouring vendor profiles: one plan for each device that has a
/// logical address. `first` is the adapter's primary address.
pub fn give_probes(
    devices: &Vec<serde_json::Value>,
    cfg: &BusConfig,
    first: Option<LogicalAddress>,
) -> (r: Vec<ProbePlan>)
    ensures
        r@.map_values(|p: ProbePlan| p@) == probe_plans(
            json::jsons(devices@),
            cfg@.vendor_profiles,
            first,
        ),
{
    let ghost all = json::jsons(devices@);
    let ghost pv = cfg@.vendor_profiles;
    let mut out: Vec<ProbePlan> = Vec::new();
    let mut i: usize = 0;
    assert(all.take(0) =~= Seq::empty());
    assert(out@.map_values(|p: ProbePlan| p@) =~= Seq::empty());
    while i < devices.len()
        invariant
            i <= devices@.len(),
            all == json::jsons(devices@),
            pv == cfg@.vendor_profiles,
            out@.map_values(|p: ProbePlan| p@) == probe_plans(all.take(i as int), pv, first),
        decreases devices@.len() - i,
    {
        let ghost before = out@;
        proof {
            assert(all.take(i as int + 1).drop_last() =~= all.take(i as int));
            assert(all.take(i as int + 1).last() == json::json(devices@[i as int]));
        }
        if let Some(la) = json::get_i64(&devices[i], "logical_address") {
            let plan = plan_for(&devices[i], la, cfg, first);
            let ghost planned = plan@;
            out.push(plan);
            assert(out@.map_values(|p: ProbePlan| p@) =~= before.map_values(
                |p: ProbePlan| p@,
            ).push(planned));
        }
        i += 1;
    }
    assert(all.take(i as int) =~= all);
    out
}

/// The plans for a list of devices.
pub open spec fn probe_plans(
    devices: Seq<JsonV>,
    profiles: Seq<VendorEntryV>,
    first: Option<LogicalAddress>,
) -> Seq<ProbePlanV>
    decreases devices.len(),
{
    if devices.len() == 0 {
        Seq::empty()
    } else {
        let rest = probe_plans(devices.drop_last(), profiles, first);
        match probe_plan(devices.last(), profiles, first) {
            Some(p) => rest.push(p),
            None => rest,
        }
    }
}

fn plan_for(d: &serde_json::Value, la: i64, cfg: &BusConfig, first: Option<LogicalAddress>) -> (r:
    ProbePlan)
    requires
        json::int_field(json::json(*d), "logical_address"@) == Some(la as int),
    ensures
        probe_plan(json::json(*d), cfg@.vendor_profiles, first) == Some(r@),
{
    let ghost pv = cfg@.vendor_profiles;
    let vendor = match json::get_str(d, "vendor_id") {
        Some(v) => text::to_lowercase(v),
        None => {
            proof {
                reveal_strlit("");
                assert(""@ =~= Seq::<char>::empty());
            }
            text::to_lowercase("")
        },
    };
    let at = find_profile(&cfg.vendor_profiles, vendor.as_str());
    let ghost profile = profile_for(json::json(*d), pv);
    proof {
        if let Some(k) = at {
            assert(pv[k as int] == cfg.vendor_profiles@[k as int]@);
        }
    }
    let settle: i64 = match at {
        Some(k) => cfg.vendor_profiles[k].profile.settle_ms,
        None => 0,
    };
    let settle_ms: u64 = if settle > 0 { settle as u64 } else { 0 };
    let initiator = match first {
        Some(a) => a,
        None => LogicalAddress(LogicalAddress::FREE_USE),
    };
    let destination = LogicalAddress(#[verifier::truncate] (la as u8));
    let mut commands: Vec<Command> = Vec::new();
    let mut n: usize = 0;
    assert(command_views(commands@) =~= Seq::empty());
    while n < 5
        invariant
            n <= 5 == PROBES@.len(),
            pv == cfg@.vendor_profiles,
            match at {
                Some(k) => k < cfg.vendor_profiles@.len() && profile == Some(
                    cfg.vendor_profiles@[k as int]@,
                ),
                None => profile is None,
            },
            initiator.0 == (match first {
                Some(a) => a.0,
                None => LogicalAddress::FREE_USE,
            }),
            destination.0 == la as u8,
            command_views(commands@) == probe_commands(profile, first, la as int, n as int),
        decreases 5 - n,
    {
        let probe = PROBES[n];
        let skip = match at {
            Some(k) => contains_text(&cfg.vendor_profiles[k].profile.skip_probes, probe.1),
            None => false,
        };
        if !skip {
            let ghost before = commands@;
            let c = Command {
                initiator,
                destination,
                opcode: Opcode(probe.0),
                opcode_set: true,
                parameters: Vec::new(),
                ack: false,
                eom: true,
            };
            let ghost cv = c@;
            assert(cv == probe_command(probe.0, first, la as int));
            commands.push(c);
            assert(command_views(commands@) =~= command_views(before).push(cv));
        }
        n += 1;
    }
    ProbePlan { settle_ms, commands }
}

// ---------------------------------------------------------------------------
// Laws of a rebuild
// ---------------------------------------------------------------------------

/// Hints that were gathered make one job: a full one exactly where one of them is heavy.
pub proof fn law_one_heavy_hint_makes_a_full_job(first: bool, more: Seq<bool>, i: int)
    ensures
        first ==> hinted_kind(first, more) == JobKind::Full,
        0 <= i < more.len() && more[i] ==> hinted_kind(first, more) == JobKind::Full,
        !first && (forall|j: int| 0 <= j < more.len() ==> !#[trigger] more[j]) ==> hinted_kind(
            first,
            more,
        ) == JobKind::Light,
{
    if 0 <= i < more.len() && more[i] {
        assert(more.contains(true));
    }
}

/// No job is lost in silence: it waits, last in the queue, or it is counted as dropped, and that
/// only where the queue is full. The jobs that wait already are not touched.
pub proof fn law_no_job_is_lost_in_silence(s: StewardV, kind: JobKind, i: int)
    requires
        0 <= i < s.jobs.len(),
    ensures
        s.offered_or_dropped(kind).jobs[i] == s.jobs[i],
        s.jobs.len() < 32 ==> s.offered_or_dropped(kind).jobs == s.jobs.push(kind)
            && s.offered_or_dropped(kind).dropped == s.dropped,
        s.jobs.len() >= 32 ==> s.offered_or_dropped(kind).jobs == s.jobs && s.offered_or_dropped(
            kind,
        ).dropped == s.dropped.wrapping_add(1),
{
}

/// A rescan is given time to settle: a full one a second and a deep one as configured, or two and a
/// half, each with what is configured on top. A light job does not rescan.
pub proof fn law_rescans_settle(bus: BusConfigV)
    ensures
        rescan_settle(JobKind::Light, bus) is None,
        bus.rescan_extra_settle_ms <= 0 ==> rescan_settle(JobKind::Full, bus) == Some(
            1_000_000_000nat,
        ),
        bus.rescan_extra_settle_ms <= 0 && bus.deep_settle_ms <= 0 ==> rescan_settle(
            JobKind::Deep,
            bus,
        ) == Some(2_500_000_000nat),
        bus.rescan_extra_settle_ms >= 0 ==> rescan_settle(JobKind::Full, bus) == Some(
            (1_000_000_000 + bus.rescan_extra_settle_ms * 1_000_000) as nat,
        ),
        bus.rescan_extra_settle_ms >= 0 && bus.deep_settle_ms > 0 ==> rescan_settle(
            JobKind::Deep,
            bus,
        ) == Some(((bus.deep_settle_ms + bus.rescan_extra_settle_ms) * 1_000_000) as nat),
{
}

/// Observed devices are forgotten after ten minutes unless another time is configured; a negative
/// one stands for never.
pub proof fn law_forgetting_time(bus: BusConfigV)
    ensures
        bus.stale_device_ttl_sec < 0 ==> ttl_of(bus)@ == 0,
        bus.stale_device_ttl_sec == 0 ==> ttl_of(bus)@ == 600_000_000_000,
        0 < bus.stale_device_ttl_sec <= u64::MAX ==> ttl_of(bus)@ == bus.stale_device_ttl_sec
            * 1_000_000_000,
{
    if 0 < bus.stale_device_ttl_sec <= u64::MAX {
        assert(ttl_of(bus).secs == bus.stale_device_ttl_sec);
    }
}

/// The devices that were only observed are those of the observed ones that the scan did not list,
/// each once, in their order.
pub proof fn law_ghosts_are_the_observed_that_are_not_listed(observed: Seq<i32>, active: Seq<u8>)
    ensures
        ghosts(observed, active) == observed.filter(|a: i32| !listed(active, a)).map_values(
            |a: i32| ghost_entry(a),
        ),
    decreases observed.len(),
{
    reveal(Seq::filter);
    let gone = |a: i32| !listed(active, a);
    let entry = |a: i32| ghost_entry(a);
    if observed.len() > 0 {
        law_ghosts_are_the_observed_that_are_not_listed(observed.drop_last(), active);
        let rest = observed.drop_last().filter(gone);
        if gone(observed.last()) {
            assert(rest.push(observed.last()).map_values(entry) =~= rest.map_values(entry).push(
                ghost_entry(observed.last()),
            ));
        }
    }
    assert(ghosts(observed, active) =~= observed.filter(gone).map_values(entry));
}

/// An address is listed exactly where it is among the addresses.
pub proof fn law_listed_addresses(active: Seq<u8>, a: u8)
    ensures
        listed(active, a as i32) <==> active.contains(a),
        forall|n: i32| n < 0 || n > 255 ==> !listed(active, n),
{
    if active.contains(a) {
        let k = active.index_of(a);
        assert(active[k] as int == a as int);
    }
}

/// The devices that only answered a poll are those of the scanned addresses that libcec does not
/// list and that no entry is known for, each once.
pub proof fn law_silent_devices_are_entered(
    addresses: Seq<u8>,
    active: Seq<u8>,
    known: Seq<i32>,
    now: Timestamp,
)
    ensures
        silent(addresses, active, known, now) == addresses.filter(
            |a: u8| !active.contains(a) && !known.contains(a as i32),
        ).map_values(|a: u8| polled_entry(a, now)),
    decreases addresses.len(),
{
    reveal(Seq::filter);
    let mute = |a: u8| !active.contains(a) && !known.contains(a as i32);
    let entry = |a: u8| polled_entry(a, now);
    if addresses.len() > 0 {
        law_silent_devices_are_entered(addresses.drop_last(), active, known, now);
        let rest = addresses.drop_last().filter(mute);
        if mute(addresses.last()) {
            assert(rest.push(addresses.last()).map_values(entry) =~= rest.map_values(entry).push(
                polled_entry(addresses.last(), now),
            ));
        }
    }
    assert(silent(addresses, active, known, now) =~= addresses.filter(mute).map_values(entry));
}

/// An entry of a device that was not queried tells its address, and how the device was found.
pub proof fn law_entries_tell_their_address(a: u8, now: Timestamp)
    ensures
        json::int_field(polled_entry(a, now), "logical_address"@) == Some(a as int),
        json::int_field(ghost_entry(a as i32), "logical_address"@) == Some(a as int),
        json::text_field(ghost_entry(a as i32), "discovery"@) == Some("observed"@),
        json::text_field(polled_entry(a, now), "discovery"@) == Some("polled"@),
        json::text_field(polled_entry(a, now), "address_name"@) == Some(logical_address_text(a)),
        json::text_field(ghost_entry(a as i32), "address_name"@) == Some(logical_address_text(a)),
{
    reveal_strlit("logical_address");
    reveal_strlit("address_name");
    reveal_strlit("device_type");
    reveal_strlit("polled_at");
    reveal_strlit("discovery");
    assert("logical_address"@.len() == 15 && "address_name"@.len() == 12 && "device_type"@.len()
        == 11);
    assert("polled_at"@.len() == 9 && "polled_at"@[0] == 'p');
    assert("discovery"@.len() == 9 && "discovery"@[0] == 'd');
}

/// A rebuild keeps what a device said of itself: the entries of the devices that answered come
/// first, in the order of the queries, with nothing of them changed but the times they were seen.
pub proof fn law_answers_survive_the_rebuild(
    entries: Seq<JsonV>,
    addresses: Seq<u8>,
    active: Seq<u8>,
    order: Seq<i32>,
    observed: Map<i32, ObservedV>,
    now: Timestamp,
    i: int,
    key: Seq<char>,
)
    requires
        0 <= i < entries.len(),
        key != "first_seen_at"@,
        key != "last_seen_at"@,
    ensures
        i < rebuilt(entries, addresses, active, order, observed, now).len(),
        json::field(rebuilt(entries, addresses, active, order, observed, now)[i], key)
            == json::field(entries[i], key),
{
}

/// A device that was seen on the bus tells when, first and last; one that was not tells neither.
pub proof fn law_entries_tell_when_a_device_was_seen(
    o: Map<Seq<char>, JsonV>,
    observed: Map<i32, ObservedV>,
    a: i32,
)
    requires
        json::int_field(JsonV::Object(o), "logical_address"@) == Some(a as int),
    ensures
        observed.contains_key(a) ==> json::text_field(
            with_seen(JsonV::Object(o), observed),
            "first_seen_at"@,
        ) == Some(observed[a].first_seen.text()),
        observed.contains_key(a) ==> json::text_field(
            with_seen(JsonV::Object(o), observed),
            "last_seen_at"@,
        ) == Some(observed[a].last_seen.text()),
        !observed.contains_key(a) ==> with_seen(JsonV::Object(o), observed) == JsonV::Object(o),
{
    reveal_strlit("first_seen_at");
    reveal_strlit("last_seen_at");
    assert("first_seen_at"@.len() != "last_seen_at"@.len());
}

/// The addresses of a list of devices are those of its entries, in order.
pub proof fn law_addresses_are_those_of_the_entries(devices: Seq<JsonV>, d: JsonV)
    ensures
        addresses_of(Seq::empty()).len() == 0,
        json::int_field(d, "logical_address"@) matches Some(la) ==> addresses_of(devices.push(d))
            == addresses_of(devices).push(la as i32),
        json::int_field(d, "logical_address"@) is None ==> addresses_of(devices.push(d))
            == addresses_of(devices),
{
    assert(devices.push(d).drop_last() =~= devices);
}

/// The event of a rebuild tells which kind it was and which devices are there now.
pub proof fn law_rebuild_is_told(kind: JobKind, addresses: Seq<i32>, now: Timestamp)
    ensures
        json::text_field(devices_changed(kind, addresses, now).data, "kind"@) == Some(
            job_kind_text(kind),
        ),
        json::field(devices_changed(kind, addresses, now).data, "logical_addresses"@) matches Some(
            JsonV::Array(v),
        ) && v.len() == addresses.len() && forall|i: int|
            0 <= i < v.len() ==> #[trigger] v[i] == JsonV::Int(addresses[i] as int),
        devices_changed(kind, addresses, now).kind == DEVICES_CHANGED@,
        devices_changed(kind, addresses, now).timestamp == now,
{
    reveal_strlit("reason");
    reveal_strlit("kind");
    reveal_strlit("logical_addresses");
    assert("reason"@.len() == 6 && "kind"@.len() == 4 && "logical_addresses"@.len() == 17);
}

/// The kinds of jobs go by different names.
pub proof fn law_job_kinds_have_names(a: JobKind, b: JobKind)
    ensures
        job_kind_text(a) == job_kind_text(b) ==> a == b,
{
    reveal_strlit("light");
    reveal_strlit("full");
    reveal_strlit("deep");
    assert("light"@.len() == 5 && "full"@[0] == 'f' && "deep"@[0] == 'd');
    assert("full"@.len() == 4 && "deep"@.len() == 4);
}

proof fn lemma_probe_commands(
    profile: Option<VendorEntryV>,
    first: Option<LogicalAddress>,
    la: int,
    n: int,
)
    requires
        0 <= n <= 5,
    ensures
        probe_commands(profile, first, la, n).len() <= n,
        forall|i: int|
            0 <= i < probe_commands(profile, first, la, n).len() ==> (#[trigger] probe_commands(
                profile,
                first,
                la,
                n,
            )[i]).destination == la as u8 && probe_commands(profile, first, la, n)[i].parameters.len()
                == 0,
        forall|k: int|
            0 <= k < n ==> (probe_commands(profile, first, la, n).contains(
                probe_command((#[trigger] PROBES@[k]).0, first, la),
            ) <==> !(profile matches Some(p) && p.skip_probes.contains(PROBES@[k].1@))),
    decreases n,
{
    if n > 0 {
        lemma_probe_commands(profile, first, la, n - 1);
        let rest = probe_commands(profile, first, la, n - 1);
        let all = probe_commands(profile, first, la, n);
        assert(PROBES@[0].0 == 0x8c && PROBES@[1].0 == 0x46 && PROBES@[2].0 == 0x9f && PROBES@[3].0
            == 0x8f && PROBES@[4].0 == 0x83);
        let c = probe_command(PROBES@[n - 1].0, first, la);
        lemma_probes_before(profile, first, la, n - 1);
        assert forall|k: int| 0 <= k < n implies (all.contains(
            probe_command((#[trigger] PROBES@[k]).0, first, la),
        ) <==> !(profile matches Some(p) && p.skip_probes.contains(PROBES@[k].1@))) by {
            let d = probe_command(PROBES@[k].0, first, la);
            if all.len() > rest.len() {
                assert(all == rest.push(c));
                assert(all[rest.len() as int] == c);
                if rest.contains(d) {
                    let j = rest.index_of(d);
                    assert(all[j] == d);
                }
                if all.contains(d) && k < n - 1 {
                    let j = all.index_of(d);
                    assert(c.opcode != d.opcode);
                    assert(j < rest.len());
                    assert(rest[j] == d);
                }
            } else {
                assert(all == rest);
            }
        }
    }
}

proof fn lemma_probes_before(
    profile: Option<VendorEntryV>,
    first: Option<LogicalAddress>,
    la: int,
    n: int,
)
    requires
        0 <= n <= 4,
    ensures
        forall|k: int|
            n <= k < 5 ==> !probe_commands(profile, first, la, n).contains(
                probe_command((#[trigger] PROBES@[k]).0, first, la),
            ),
    decreases n,
{
    assert(PROBES@[0].0 == 0x8c && PROBES@[1].0 == 0x46 && PROBES@[2].0 == 0x9f && PROBES@[3].0
        == 0x8f && PROBES@[4].0 == 0x83);
    if n > 0 {
        lemma_probes_before(profile, first, la, n - 1);
        let rest = probe_commands(profile, first, la, n - 1);
        let all = probe_commands(profile, first, la, n);
        assert forall|k: int| n <= k < 5 implies !all.contains(
            probe_command((#[trigger] PROBES@[k]).0, first, la),
        ) by {
            let d = probe_command(PROBES@[k].0, first, la);
            let c = probe_command(PROBES@[n - 1].0, first, la);
            assert(c.opcode != d.opcode);
            if all.contains(d) {
                let j = all.index_of(d);
                if j < rest.len() {
                    assert(rest[j] == d);
                    assert(rest.contains(d));
                }
            }
        }
    }
}

/// A deep rebuild asks a device for its vendor, OSD name, version, power and place, and for nothing
/// else; what the profile of its vendor skips is not asked. Every question goes to that device and
/// is one that has an answer.
pub proof fn law_probes_ask_the_device(
    d: JsonV,
    profiles: Seq<VendorEntryV>,
    first: Option<LogicalAddress>,
    la: int,
    k: int,
)
    requires
        json::int_field(d, "logical_address"@) == Some(la),
        0 <= la <= 14,
        0 <= k < 5,
    ensures
        probe_plan(d, profiles, first) matches Some(p) && {
            &&& p.commands.len() <= 5
            &&& p.settle_ms >= 0
            &&& forall|i: int|
                0 <= i < p.commands.len() ==> (#[trigger] p.commands[i]).destination == la
                    && p.commands[i].parameters.len() == 0
            &&& (profile_for(d, profiles) is None ==> p.settle_ms == 0 && p.commands.contains(
                probe_command(PROBES@[k].0, first, la),
            ))
            &&& (profile_for(d, profiles) matches Some(v) ==> (p.commands.contains(
                probe_command(PROBES@[k].0, first, la),
            ) <==> !v.skip_probes.contains(PROBES@[k].1@)) && (v.settle_ms > 0 ==> p.settle_ms
                == v.settle_ms) && (v.settle_ms <= 0 ==> p.settle_ms == 0))
        },
        expected_reply(
            StepV {
                kind: StepKind::Transmit,
                target: la as u8,
                key: 0,
                wait: false,
                hold_ms: 0,
                opcode: PROBES@[k].0,
                params: Seq::empty(),
                delay_ms: 0,
            },
        ) is Some,
{
    lemma_probe_commands(profile_for(d, profiles), first, la, 5);
    assert(PROBES@[0].0 == 0x8c && PROBES@[1].0 == 0x46 && PROBES@[2].0 == 0x9f && PROBES@[3].0
        == 0x8f && PROBES@[4].0 == 0x83);
}

proof fn lemma_profile_at(profiles: Seq<VendorEntryV>, vendor: Seq<char>, i: int)
    requires
        0 <= i,
    ensures
        match profile_at(profiles, vendor, i) {
            Some(k) => i <= k < profiles.len() && profiles[k].vendor == vendor,
            None => forall|j: int|
                i <= j < profiles.len() ==> (#[trigger] profiles[j]).vendor != vendor,
        },
    decreases profiles.len() - i,
{
    if i < profiles.len() && profiles[i].vendor != vendor {
        lemma_profile_at(profiles, vendor, i + 1);
    }
}

/// The profile that counts for a device is one of its vendor, whatever the case of the vendor in its
/// entry; where there is one for the vendor, one counts.
pub proof fn law_profiles_count_for_their_vendor(
    d: JsonV,
    profiles: Seq<VendorEntryV>,
    v: Seq<char>,
)
    requires
        json::text_field(d, "vendor_id"@) == Some(v),
    ensures
        match profile_for(d, profiles) {
            Some(p) => p.vendor == text::lower(v) && profiles.contains(p),
            None => forall|j: int|
                0 <= j < profiles.len() ==> (#[trigger] profiles[j]).vendor != text::lower(v),
        },
{
    lemma_profile_at(profiles, text::lower(v), 0);
    if let Some(k) = profile_at(profiles, text::lower(v), 0) {
        assert(profiles[k].vendor == text::lower(v));
    }
}

/// Every device with an address has one plan, in the order of the devices; one without has none.
pub proof fn law_every_device_is_probed(
    devices: Seq<JsonV>,
    d: JsonV,
    profiles: Seq<VendorEntryV>,
    first: Option<LogicalAddress>,
)
    ensures
        probe_plan(d, profiles, first) is Some <==> json::int_field(d, "logical_address"@) is Some,
        probe_plan(d, profiles, first) matches Some(p) ==> probe_plans(
            devices.push(d),
            profiles,
            first,
        ) == probe_plans(devices, profiles, first).push(p),
        probe_plan(d, profiles, first) is None ==> probe_plans(devices.push(d), profiles, first)
            == probe_plans(devices, profiles, first),
{
    assert(devices.push(d).drop_last() =~= devices);
}

/// A question is a whole frame that was not yet acknowledged, from the adapter or, where that has
/// no address, from the address for free use.
pub proof fn law_questions_come_from_the_adapter(opcode: u8, own: LogicalAddress, la: int)
    requires
        0 <= la <= 14,
    ensures
        probe_command(opcode, Some(own), la).initiator == own.0,
        probe_command(opcode, None, la).initiator == 14,
        probe_command(opcode, Some(own), la).destination == la,
        probe_command(opcode, Some(own), la).opcode == opcode,
        probe_command(opcode, Some(own), la).opcode_set,
        probe_command(opcode, Some(own), la).eom,
        !probe_command(opcode, Some(own), la).ack,
{
}

} // verus!
