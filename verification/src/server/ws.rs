//! The WebSocket stream of panel fragments: panels that events made stale are rendered together
//! after a short while, and each event gives a line of the feed at once.

use crate::text;
use crate::types::{
    ADAPTER_STATE, CONFIGURATION_CHANGED, DEVICES_CHANGED, POWER_CHANGE, SOURCE_ACTIVATED,
};
use vstd::prelude::*;

verus! {

/// How long stale panels are collected, in milliseconds.
pub const COALESCE_WINDOW_MS: u64 = 120;

/// The time between pings, in seconds.
pub const PING_INTERVAL_SECS: u64 = 45;

/// Whether a client may connect: it gives no origin, or the host that it connects to.
pub open spec fn origin_admitted(origin: Option<Seq<char>>, host: Seq<char>) -> bool {
    match origin {
        None => true,
        Some(o) => text::eq_ascii_case(
            text::split_on(text::after_pattern(o, "://"@), '/')[0],
            host,
        ),
    }
}

/// Decides whether a client may connect, by its Origin and Host headers. A client that is no
/// browser gives no origin.
pub fn origin_allowed(origin: Option<&str>, host: Option<&str>) -> (r: bool)
    ensures
        r == origin_admitted(
            match origin {
                Some(o) => Some(o@),
                None => None,
            },
            match host {
                Some(h) => h@,
                None => ""@,
            },
        ),
{
    match origin {
        None => true,
        Some(o) => {
            let parts = text::split(text::skip_past(o, "://"), '/');
            assert(parts@[0]@ == text::views(parts@)[0]);
            match host {
                Some(h) => text::eq_ignore_ascii_case(parts[0].as_str(), h),
                None => text::eq_ignore_ascii_case(parts[0].as_str(), ""),
            }
        },
    }
}

/// The panels that are stale.
#[derive(Debug, Clone, Copy, PartialEq, Eq, Structural)]
pub struct Panels {
    pub devices: bool,
    pub topology: bool,
    pub source: bool,
}

/// Whether an event of a kind makes the device list stale.
pub open spec fn stales_devices(kind: Seq<char>) -> bool {
    kind == DEVICES_CHANGED@ || kind == POWER_CHANGE@ || kind == CONFIGURATION_CHANGED@ || kind
        == ADAPTER_STATE@
}

/// Whether an event of a kind makes the topology stale.
pub open spec fn stales_topology(kind: Seq<char>) -> bool {
    kind == ADAPTER_STATE@ || kind == SOURCE_ACTIVATED@
}

/// Whether an event of a kind makes the source panel stale.
pub open spec fn stales_source(kind: Seq<char>) -> bool {
    kind == SOURCE_ACTIVATED@
}

/// What one connection has to render, and whether its collecting time runs.
#[derive(Debug, Clone, Copy, PartialEq, Eq, Structural)]
pub struct Coalescer {
    pub stale: Panels,
    pub pending: bool,
}

impl Coalescer {
    pub fn new() -> (r: Coalescer)
        ensures
            r == (Coalescer {
                stale: Panels { devices: false, topology: false, source: false },
                pending: false,
            }),
    {
        Coalescer {
            stale: Panels { devices: false, topology: false, source: false },
            pending: false,
        }
    }

    /// The state after an event of a kind.
    pub open spec fn noted(self, kind: Seq<char>) -> Coalescer {
        Coalescer {
            stale: Panels {
                devices: self.stale.devices || stales_devices(kind),
                topology: self.stale.topology || stales_topology(kind),
                source: self.stale.source || stales_source(kind),
            },
            pending: true,
        }
    }

    /// The state after events of some kinds.
    pub open spec fn noted_all(self, kinds: Seq<Seq<char>>) -> Coalescer
        decreases kinds.len(),
    {
        if kinds.len() == 0 {
            self
        } else {
            self.noted_all(kinds.drop_last()).noted(kinds.last())
        }
    }

    /// Takes note of an event; gives whether the collecting time starts with it.
    pub fn on_event(&mut self, kind: &str) -> (r: bool)
        ensures
            *final(self) == old(self).noted(kind@),
            r == !old(self).pending,
    {
        let started = !self.pending;
        let source = text::str_eq(kind, SOURCE_ACTIVATED);
        let adapter = text::str_eq(kind, ADAPTER_STATE);
        let devices = adapter || text::str_eq(kind, DEVICES_CHANGED) || text::str_eq(
            kind,
            POWER_CHANGE,
        ) || text::str_eq(kind, CONFIGURATION_CHANGED);
        self.stale = Panels {
            devices: self.stale.devices || devices,
            topology: self.stale.topology || adapter || source,
            source: self.stale.source || source,
        };
        self.pending = true;
        started
    }

    /// Ends the collecting time; gives the panels to render.
    pub fn on_flush(&mut self) -> (r: Panels)
        ensures
            r == old(self).stale,
            *final(self) == (Coalescer {
                stale: Panels { devices: false, topology: false, source: false },
                pending: false,
            }),
    {
        let stale = self.stale;
        *self = Coalescer::new();
        stale
    }
}

/// A fragment that replaces the content of an element.
pub open spec fn fragment_text(id: Seq<char>, html: Seq<char>) -> Seq<char> {
    "<div id=\""@ + id + "\" hx-swap-oob=\"innerHTML\">"@ + html + "</div>"@
}

/// The fragment of a panel that is rendered; nothing where it is not.
pub open spec fn panel_text(id: Seq<char>, html: Option<Seq<char>>) -> Seq<char> {
    match html {
        Some(h) => fragment_text(id, h),
        None => Seq::empty(),
    }
}

/// What an optional text holds.
pub open spec fn html_view(html: Option<&str>) -> Option<Seq<char>> {
    match html {
        Some(h) => Some(h@),
        None => None,
    }
}

fn panel(id: &str, html: Option<&str>) -> (r: String)
    ensures
        r@ == panel_text(id@, html_view(html)),
{
    match html {
        Some(h) => {
            let open = text::concat3("<div id=\"", id, "\" hx-swap-oob=\"innerHTML\">");
            text::concat3(open.as_str(), h, "</div>")
        },
        None => String::new(),
    }
}

/// Puts rendered panels into one message; `None` stands for a panel that is not stale. Without an
/// adapter nothing is rendered, so that the banner, which explains the outage, stays in force.
pub fn render_oob(
    ready: bool,
    devices: Option<&str>,
    topology: Option<&str>,
    source: Option<&str>,
) -> (r: String)
    ensures
        r@ == (if ready {
            panel_text("devices-panel"@, html_view(devices)) + panel_text(
                "topology-card"@,
                html_view(topology),
            ) + panel_text("source-card"@, html_view(source))
        } else {
            Seq::empty()
        }),
{
    if !ready {
        return String::new();
    }
    let a = panel("devices-panel", devices);
    let b = panel("topology-card", topology);
    let c = panel("source-card", source);
    text::concat3(a.as_str(), b.as_str(), c.as_str())
}

/// No event is lost between two flushes: a panel is rendered at the end of the collecting time
/// exactly where one of the events since its start makes it stale.
pub proof fn law_flush_renders_what_events_made_stale(kinds: Seq<Seq<char>>)
    ensures
        ({
            let start = Coalescer {
                stale: Panels { devices: false, topology: false, source: false },
                pending: false,
            };
            let stale = start.noted_all(kinds).stale;
            &&& stale.devices <==> exists|i: int|
                0 <= i < kinds.len() && #[trigger] stales_devices(kinds[i])
            &&& stale.topology <==> exists|i: int|
                0 <= i < kinds.len() && #[trigger] stales_topology(kinds[i])
            &&& stale.source <==> exists|i: int|
                0 <= i < kinds.len() && #[trigger] stales_source(kinds[i])
        }),
    decreases kinds.len(),
{
    if kinds.len() > 0 {
        let before = kinds.drop_last();
        let n = kinds.len() - 1;
        law_flush_renders_what_events_made_stale(before);
        assert(forall|i: int| 0 <= i < n ==> before[i] == kinds[i]);
        assert forall|i: int| 0 <= i < n && stales_devices(#[trigger] kinds[i]) implies
            stales_devices(before[i]) by {}
        assert forall|i: int| 0 <= i < n && stales_topology(#[trigger] kinds[i]) implies
            stales_topology(before[i]) by {}
        assert forall|i: int| 0 <= i < n && stales_source(#[trigger] kinds[i]) implies
            stales_source(before[i]) by {}
        assert(stales_devices(kinds.last()) ==> stales_devices(kinds[n]));
        assert(stales_topology(kinds.last()) ==> stales_topology(kinds[n]));
        assert(stales_source(kinds.last()) ==> stales_source(kinds[n]));
        assert forall|i: int| 0 <= i < n && stales_devices(#[trigger] before[i]) implies
            stales_devices(kinds[i]) by {}
        assert forall|i: int| 0 <= i < n && stales_topology(#[trigger] before[i]) implies
            stales_topology(kinds[i]) by {}
        assert forall|i: int| 0 <= i < n && stales_source(#[trigger] before[i]) implies
            stales_source(kinds[i]) by {}
    }
}

/// A client that gives the host it connects to as its origin may connect, with either scheme and
/// whatever stands behind the host; so may one that gives none.
pub proof fn law_own_origin_may_connect(host: Seq<char>, rest: Seq<char>)
    requires
        !host.contains('/'),
        !host.contains(':'),
    ensures
        origin_admitted(None, host),
        origin_admitted(Some("http://"@ + host), host),
        origin_admitted(Some("https://"@ + host), host),
        origin_admitted(Some("https://"@ + (host.push('/') + rest)), host) == origin_admitted(
            Some("http://"@ + (host.push('/') + rest)),
            host,
        ),
{
    lemma_after_scheme(host);
    lemma_after_scheme(host.push('/') + rest);
    text::lemma_split_single(host, '/');
    assert(text::split_on(host, '/')[0] == host);
}

proof fn lemma_after_scheme(t: Seq<char>)
    ensures
        text::after_pattern("http://"@ + t, "://"@) == t,
        text::after_pattern("https://"@ + t, "://"@) == t,
{
    reveal_strlit("http://");
    reveal_strlit("https://");
    reveal_strlit("://");
    let a = "http://"@ + t;
    let b = "https://"@ + t;
    assert(a.skip(4).take(3) =~= "://"@);
    assert(b.skip(5).take(3) =~= "://"@);
    assert forall|j: int| 0 <= j < 4 implies !text::starts_with(#[trigger] a.skip(j), "://"@) by {
        if text::starts_with(a.skip(j), "://"@) {
            assert(a.skip(j).take(3)[0] == ':');
            assert(a[j] == ':');
        }
    }
    assert forall|j: int| 0 <= j < 5 implies !text::starts_with(#[trigger] b.skip(j), "://"@) by {
        if text::starts_with(b.skip(j), "://"@) {
            assert(b.skip(j).take(3)[0] == ':');
            assert(b[j] == ':');
        }
    }
    text::law_what_follows_a_pattern(a, "://"@, 4);
    text::law_what_follows_a_pattern(b, "://"@, 5);
    assert(a.skip(7) =~= t);
    assert(b.skip(8) =~= t);
}

/// A client of another host may not connect: the host in its origin must be the one that it connects
/// to, letter for letter but for case.
pub proof fn law_other_origins_may_not_connect(host: Seq<char>, other: Seq<char>)
    requires
        !other.contains('/'),
        other.len() != host.len() || exists|i: int|
            0 <= i < host.len() && text::ascii_lower(#[trigger] host[i]) != text::ascii_lower(
                other[i],
            ),
    ensures
        !origin_admitted(Some("http://"@ + other), host),
        !origin_admitted(Some("https://"@ + other), host),
{
    lemma_after_scheme(other);
    text::lemma_split_single(other, '/');
    assert(text::split_on(other, '/')[0] == other);
    let low = |c: char| text::ascii_lower(c);
    let a = other.map_values(low);
    let b = host.map_values(low);
    if a == b {
        assert(a.len() == b.len());
        let i = choose|i: int|
            0 <= i < host.len() && text::ascii_lower(#[trigger] host[i]) != text::ascii_lower(
                other[i],
            );
        assert(a[i] == text::ascii_lower(other[i]));
        assert(b[i] == text::ascii_lower(host[i]));
    }
}

/// What an event makes stale stays stale until it is flushed, and nothing else becomes stale; any
/// event is a reason to flush.
pub proof fn law_events_make_panels_stale(c: Coalescer, kind: Seq<char>)
    ensures
        c.noted(kind).pending,
        c.stale.devices ==> c.noted(kind).stale.devices,
        c.stale.topology ==> c.noted(kind).stale.topology,
        c.stale.source ==> c.noted(kind).stale.source,
        !c.stale.devices ==> c.noted(kind).stale.devices == (kind == "devices_changed"@ || kind
            == "power_change"@ || kind == "configuration_changed"@ || kind == "adapter_state"@),
        !c.stale.topology ==> c.noted(kind).stale.topology == (kind == "adapter_state"@ || kind
            == "source_activated"@),
        !c.stale.source ==> c.noted(kind).stale.source == (kind == "source_activated"@),
{
}

/// A fragment replaces the content of the element it names with exactly what was rendered.
pub proof fn law_fragments_hold_what_was_rendered(id: Seq<char>, html: Seq<char>)
    ensures
        panel_text(id, None).len() == 0,
        panel_text(id, Some(html)) == "<div id=\""@ + id + "\" hx-swap-oob=\"innerHTML\">"@ + html
            + "</div>"@,
{
}

} // verus!
