//! Prometheus text metrics from the counters of the process.

use crate::events::{EventHub, Metrics};
use crate::text;
use vstd::prelude::*;

verus! {

/// The media type of the text.
pub const CONTENT_TYPE: &'static str = "text/plain; version=0.0.4";

/// One metric with its help and type lines.
pub open spec fn metric_text(
    name: Seq<char>,
    help: Seq<char>,
    kind: Seq<char>,
    value: nat,
) -> Seq<char> {
    "# HELP "@ + name + " "@ + help + "\n# TYPE "@ + name + " "@ + kind + "\n"@ + name + " "@
        + text::dec(value) + "\n"@
}

fn metric(name: &str, help: &str, kind: &str, value: u64) -> (r: String)
    ensures
        r@ == metric_text(name@, help@, kind@, value as nat),
{
    let a = text::concat3("# HELP ", name, " ");
    let b = text::concat3(a.as_str(), help, "\n# TYPE ");
    let c = text::concat3(b.as_str(), name, " ");
    let d = text::concat3(c.as_str(), kind, "\n");
    let e = text::concat3(d.as_str(), name, " ");
    let number = text::dec_u64(value);
    text::concat3(e.as_str(), number.as_str(), "\n")
}

/// What the metrics tell.
#[derive(Debug, Clone, Copy, PartialEq, Eq, Structural)]
pub struct Readings {
    pub metrics: Metrics,
    pub hub: EventHub,
    pub jobs_queued: u64,
    pub jobs_dropped: u64,
    pub frames_captured: u64,
    pub subscribers: u64,
    pub adapter_ready: bool,
}

/// The text of the metrics.
pub open spec fn metrics_text(m: Readings) -> Seq<char> {
    let counter = "counter"@;
    let gauge = "gauge"@;
    metric_text(
        "capi_requests_total"@,
        "Total HTTP requests."@,
        counter,
        m.metrics.requests_total as nat,
    ) + metric_text(
        "capi_errors_total"@,
        "Total non-2xx responses."@,
        counter,
        m.metrics.errors_total as nat,
    ) + metric_text(
        "capi_panics_total"@,
        "Recovered handler panics."@,
        counter,
        m.metrics.panics_total as nat,
    ) + metric_text(
        "capi_events_published_total"@,
        "Events published to the hub."@,
        counter,
        m.metrics.events_published as nat,
    ) + metric_text(
        "capi_events_dropped_total"@,
        "Hub events dropped (slow subscribers)."@,
        counter,
        m.hub.dropped as nat,
    ) + metric_text(
        "capi_events_delivered_total"@,
        "Hub events delivered."@,
        counter,
        m.hub.delivered as nat,
    ) + metric_text(
        "capi_steward_jobs_queued_total"@,
        "Steward jobs executed."@,
        counter,
        m.jobs_queued as nat,
    ) + metric_text(
        "capi_steward_jobs_dropped_total"@,
        "Steward jobs dropped (queue full)."@,
        counter,
        m.jobs_dropped as nat,
    ) + metric_text(
        "capi_frames_captured_total"@,
        "CEC frames captured in the ring."@,
        counter,
        m.frames_captured as nat,
    ) + metric_text(
        "capi_subscribers"@,
        "Active SSE/WS/MQTT subscribers."@,
        gauge,
        m.subscribers as nat,
    ) + metric_text(
        "capi_adapter_ready"@,
        "Whether a live adapter session exists."@,
        gauge,
        if m.adapter_ready {
            1
        } else {
            0
        },
    )
}

/// `GET /metrics`.
pub fn metrics_handler(m: &Readings) -> (r: String)
    ensures
        r@ == metrics_text(*m),
{
    let (dropped, delivered) = m.hub.stats();
    let counter = "counter";
    let requests = metric(
        "capi_requests_total",
        "Total HTTP requests.",
        counter,
        m.metrics.requests_total,
    );
    let errors = metric(
        "capi_errors_total",
        "Total non-2xx responses.",
        counter,
        m.metrics.errors_total,
    );
    let panics = metric(
        "capi_panics_total",
        "Recovered handler panics.",
        counter,
        m.metrics.panics_total,
    );
    let out = text::concat3(requests.as_str(), errors.as_str(), panics.as_str());
    let published = metric(
        "capi_events_published_total",
        "Events published to the hub.",
        counter,
        m.metrics.events_published,
    );
    let lost = metric(
        "capi_events_dropped_total",
        "Hub events dropped (slow subscribers).",
        counter,
        dropped,
    );
    let out = text::concat3(out.as_str(), published.as_str(), lost.as_str());
    let sent = metric("capi_events_delivered_total", "Hub events delivered.", counter, delivered);
    let queued = metric(
        "capi_steward_jobs_queued_total",
        "Steward jobs executed.",
        counter,
        m.jobs_queued,
    );
    let out = text::concat3(out.as_str(), sent.as_str(), queued.as_str());
    let dropped_jobs = metric(
        "capi_steward_jobs_dropped_total",
        "Steward jobs dropped (queue full).",
        counter,
        m.jobs_dropped,
    );
    let frames = metric(
        "capi_frames_captured_total",
        "CEC frames captured in the ring.",
        counter,
        m.frames_captured,
    );
    let out = text::concat3(out.as_str(), dropped_jobs.as_str(), frames.as_str());
    let subscribers = metric(
        "capi_subscribers",
        "Active SSE/WS/MQTT subscribers.",
        "gauge",
        m.subscribers,
    );
    let ready = metric(
        "capi_adapter_ready",
        "Whether a live adapter session exists.",
        "gauge",
        if m.adapter_ready { 1 } else { 0 },
    );
    text::concat3(out.as_str(), subscribers.as_str(), ready.as_str())
}

/// The line of a metric that holds its value.
pub open spec fn value_line(name: Seq<char>, value: nat) -> Seq<char> {
    name + " "@ + text::dec(value) + "\n"@
}

/// Whether one text stands in another.
pub open spec fn stands_in(part: Seq<char>, whole: Seq<char>) -> bool {
    exists|i: int| 0 <= i <= whole.len() - part.len() && #[trigger] whole.subrange(i, i + part.len())
        == part
}

proof fn lemma_line_stands_in(name: Seq<char>, help: Seq<char>, kind: Seq<char>, value: nat)
    ensures
        stands_in(value_line(name, value), metric_text(name, help, kind, value)),
{
    let line = value_line(name, value);
    let whole = metric_text(name, help, kind, value);
    let i = whole.len() - line.len();
    let head = "# HELP "@ + name + " "@ + help + "\n# TYPE "@ + name + " "@ + kind + "\n"@;
    assert(whole =~= head + line);
    assert(whole.subrange(i, i + line.len()) =~= line);
}

proof fn lemma_stands_before(part: Seq<char>, whole: Seq<char>, rest: Seq<char>)
    requires
        stands_in(part, whole),
    ensures
        stands_in(part, whole + rest),
{
    let i = choose|i: int|
        0 <= i <= whole.len() - part.len() && #[trigger] whole.subrange(i, i + part.len()) == part;
    assert((whole + rest).subrange(i, i + part.len()) =~= whole.subrange(i, i + part.len()));
}

proof fn lemma_stands_behind(part: Seq<char>, front: Seq<char>, whole: Seq<char>)
    requires
        stands_in(part, whole),
    ensures
        stands_in(part, front + whole),
{
    let i = choose|i: int|
        0 <= i <= whole.len() - part.len() && #[trigger] whole.subrange(i, i + part.len()) == part;
    let k = front.len() + i;
    assert((front + whole).subrange(k, k + part.len()) =~= whole.subrange(i, i + part.len()));
}

/// Every reading is told under its name: the text of the metrics holds a line with the name and the
/// value for each of them.
pub proof fn law_every_reading_is_told(m: Readings)
    ensures
        stands_in(value_line("capi_requests_total"@, m.metrics.requests_total as nat), metrics_text(m)),
        stands_in(value_line("capi_errors_total"@, m.metrics.errors_total as nat), metrics_text(m)),
        stands_in(value_line("capi_panics_total"@, m.metrics.panics_total as nat), metrics_text(m)),
        stands_in(value_line("capi_events_published_total"@, m.metrics.events_published as nat), metrics_text(m)),
        stands_in(value_line("capi_events_dropped_total"@, m.hub.dropped as nat), metrics_text(m)),
        stands_in(value_line("capi_events_delivered_total"@, m.hub.delivered as nat), metrics_text(m)),
        stands_in(value_line("capi_steward_jobs_queued_total"@, m.jobs_queued as nat), metrics_text(m)),
        stands_in(value_line("capi_steward_jobs_dropped_total"@, m.jobs_dropped as nat), metrics_text(m)),
        stands_in(value_line("capi_frames_captured_total"@, m.frames_captured as nat), metrics_text(m)),
        stands_in(value_line("capi_subscribers"@, m.subscribers as nat), metrics_text(m)),
        stands_in(value_line("capi_adapter_ready"@, (if m.adapter_ready {
                1nat
            } else {
                0nat
            })), metrics_text(m)),
{
    let t0 = metric_text("capi_requests_total"@, "Total HTTP requests."@, "counter"@, m.metrics.requests_total as nat);
    lemma_line_stands_in("capi_requests_total"@, "Total HTTP requests."@, "counter"@, m.metrics.requests_total as nat);
    let t1 = metric_text("capi_errors_total"@, "Total non-2xx responses."@, "counter"@, m.metrics.errors_total as nat);
    lemma_line_stands_in("capi_errors_total"@, "Total non-2xx responses."@, "counter"@, m.metrics.errors_total as nat);
    let t2 = metric_text("capi_panics_total"@, "Recovered handler panics."@, "counter"@, m.metrics.panics_total as nat);
    lemma_line_stands_in("capi_panics_total"@, "Recovered handler panics."@, "counter"@, m.metrics.panics_total as nat);
    let t3 = metric_text("capi_events_published_total"@, "Events published to the hub."@, "counter"@, m.metrics.events_published as nat);
    lemma_line_stands_in("capi_events_published_total"@, "Events published to the hub."@, "counter"@, m.metrics.events_published as nat);
    let t4 = metric_text("capi_events_dropped_total"@, "Hub events dropped (slow subscribers)."@, "counter"@, m.hub.dropped as nat);
    lemma_line_stands_in("capi_events_dropped_total"@, "Hub events dropped (slow subscribers)."@, "counter"@, m.hub.dropped as nat);
    let t5 = metric_text("capi_events_delivered_total"@, "Hub events delivered."@, "counter"@, m.hub.delivered as nat);
    lemma_line_stands_in("capi_events_delivered_total"@, "Hub events delivered."@, "counter"@, m.hub.delivered as nat);
    let t6 = metric_text("capi_steward_jobs_queued_total"@, "Steward jobs executed."@, "counter"@, m.jobs_queued as nat);
    lemma_line_stands_in("capi_steward_jobs_queued_total"@, "Steward jobs executed."@, "counter"@, m.jobs_queued as nat);
    let t7 = metric_text("capi_steward_jobs_dropped_total"@, "Steward jobs dropped (queue full)."@, "counter"@, m.jobs_dropped as nat);
    lemma_line_stands_in("capi_steward_jobs_dropped_total"@, "Steward jobs dropped (queue full)."@, "counter"@, m.jobs_dropped as nat);
    let t8 = metric_text("capi_frames_captured_total"@, "CEC frames captured in the ring."@, "counter"@, m.frames_captured as nat);
    lemma_line_stands_in("capi_frames_captured_total"@, "CEC frames captured in the ring."@, "counter"@, m.frames_captured as nat);
    let t9 = metric_text("capi_subscribers"@, "Active SSE/WS/MQTT subscribers."@, "gauge"@, m.subscribers as nat);
    lemma_line_stands_in("capi_subscribers"@, "Active SSE/WS/MQTT subscribers."@, "gauge"@, m.subscribers as nat);
    let t10 = metric_text("capi_adapter_ready"@, "Whether a live adapter session exists."@, "gauge"@, (if m.adapter_ready {
                1nat
            } else {
                0nat
            }));
    lemma_line_stands_in("capi_adapter_ready"@, "Whether a live adapter session exists."@, "gauge"@, (if m.adapter_ready {
                1nat
            } else {
                0nat
            }));
    let s0 = t0;
    let s1 = s0 + t1;
    let s2 = s1 + t2;
    let s3 = s2 + t3;
    let s4 = s3 + t4;
    let s5 = s4 + t5;
    let s6 = s5 + t6;
    let s7 = s6 + t7;
    let s8 = s7 + t8;
    let s9 = s8 + t9;
    let s10 = s9 + t10;
    assert(s10 == metrics_text(m));
    let l0 = value_line("capi_requests_total"@, m.metrics.requests_total as nat);
    lemma_stands_before(l0, s0, t1);
    lemma_stands_before(l0, s1, t2);
    lemma_stands_before(l0, s2, t3);
    lemma_stands_before(l0, s3, t4);
    lemma_stands_before(l0, s4, t5);
    lemma_stands_before(l0, s5, t6);
    lemma_stands_before(l0, s6, t7);
    lemma_stands_before(l0, s7, t8);
    lemma_stands_before(l0, s8, t9);
    lemma_stands_before(l0, s9, t10);
    let l1 = value_line("capi_errors_total"@, m.metrics.errors_total as nat);
    lemma_stands_behind(l1, s0, t1);
    lemma_stands_before(l1, s1, t2);
    lemma_stands_before(l1, s2, t3);
    lemma_stands_before(l1, s3, t4);
    lemma_stands_before(l1, s4, t5);
    lemma_stands_before(l1, s5, t6);
    lemma_stands_before(l1, s6, t7);
    lemma_stands_before(l1, s7, t8);
    lemma_stands_before(l1, s8, t9);
    lemma_stands_before(l1, s9, t10);
    let l2 = value_line("capi_panics_total"@, m.metrics.panics_total as nat);
    lemma_stands_behind(l2, s1, t2);
    lemma_stands_before(l2, s2, t3);
    lemma_stands_before(l2, s3, t4);
    lemma_stands_before(l2, s4, t5);
    lemma_stands_before(l2, s5, t6);
    lemma_stands_before(l2, s6, t7);
    lemma_stands_before(l2, s7, t8);
    lemma_stands_before(l2, s8, t9);
    lemma_stands_before(l2, s9, t10);
    let l3 = value_line("capi_events_published_total"@, m.metrics.events_published as nat);
    lemma_stands_behind(l3, s2, t3);
    lemma_stands_before(l3, s3, t4);
    lemma_stands_before(l3, s4, t5);
    lemma_stands_before(l3, s5, t6);
    lemma_stands_before(l3, s6, t7);
    lemma_stands_before(l3, s7, t8);
    lemma_stands_before(l3, s8, t9);
    lemma_stands_before(l3, s9, t10);
    let l4 = value_line("capi_events_dropped_total"@, m.hub.dropped as nat);
    lemma_stands_behind(l4, s3, t4);
    lemma_stands_before(l4, s4, t5);
    lemma_stands_before(l4, s5, t6);
    lemma_stands_before(l4, s6, t7);
    lemma_stands_before(l4, s7, t8);
    lemma_stands_before(l4, s8, t9);
    lemma_stands_before(l4, s9, t10);
    let l5 = value_line("capi_events_delivered_total"@, m.hub.delivered as nat);
    lemma_stands_behind(l5, s4, t5);
    lemma_stands_before(l5, s5, t6);
    lemma_stands_before(l5, s6, t7);
    lemma_stands_before(l5, s7, t8);
    lemma_stands_before(l5, s8, t9);
    lemma_stands_before(l5, s9, t10);
    let l6 = value_line("capi_steward_jobs_queued_total"@, m.jobs_queued as nat);
    lemma_stands_behind(l6, s5, t6);
    lemma_stands_before(l6, s6, t7);
    lemma_stands_before(l6, s7, t8);
    lemma_stands_before(l6, s8, t9);
    lemma_stands_before(l6, s9, t10);
    let l7 = value_line("capi_steward_jobs_dropped_total"@, m.jobs_dropped as nat);
    lemma_stands_behind(l7, s6, t7);
    lemma_stands_before(l7, s7, t8);
    lemma_stands_before(l7, s8, t9);
    lemma_stands_before(l7, s9, t10);
    let l8 = value_line("capi_frames_captured_total"@, m.frames_captured as nat);
    lemma_stands_behind(l8, s7, t8);
    lemma_stands_before(l8, s8, t9);
    lemma_stands_before(l8, s9, t10);
    let l9 = value_line("capi_subscribers"@, m.subscribers as nat);
    lemma_stands_behind(l9, s8, t9);
    lemma_stands_before(l9, s9, t10);
    let l10 = value_line("capi_adapter_ready"@, (if m.adapter_ready {
                1nat
            } else {
                0nat
            }));
    lemma_stands_behind(l10, s9, t10);
}

} // verus!
