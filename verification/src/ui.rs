//! The UI: what its pages and panels show, and what its form actions do.

use crate::busstate::{stale_at, BusState, BusStateSnapshot, BusV};
use crate::cec::session::{CecCall, Connection};
use crate::cec::tables::{key_entries, keycode_names, table_sorted, table_view};
use crate::events::{log_views, EventHub, LogMessage, LogMessageV, LogRing};
use crate::exec;
use crate::exec::{
    device_command, exec_error_text, session_view, ExecError, KeyPlan,
};
use crate::json;
use crate::json::JsonV;
use crate::server::api::{merged_mqtt, requested_mqtt, seconds_between, MqttSettingsRequest};
use crate::server::{err, err_reply, ok, ok_reply, unavailable, unavailable_reply, Reply, ReplyV};
use crate::strategies::{all_actions, Action, ACTION_NAMES};
use crate::text;
use crate::time::Timestamp;
use crate::topology::{build_from_snapshot, highest_port, TopologyPayload};
use crate::types::{
    AppEvent, BusFrameEntry, FrameV, MqttConfig, ADAPTER_STATE, COMMAND,
    CONFIGURATION_CHANGED, DEVICES_CHANGED, KEY_PRESS, POWER_CHANGE, SOURCE_ACTIVATED,
};
use crate::ui_ctx::{
    row_views, target_views, BusBannerData, BusBannerV, DevModeData, DevTraceData, DeviceRow,
    DeviceRowV, DevicesPanelData, EventFeedEntry, FrameRow, FrameRowV, HdmiPortButton, HealthData,
    LogLine, LogsData, MqttPanelData, NavTarget, NavTargetV, RemoteData,
};
use crate::util::{title_case, title_cased};
use vstd::prelude::*;

verus! {

// ---------------------------------------------------------------------------
// Devices
// ---------------------------------------------------------------------------

/// The text in a field; empty where there is none.
pub open spec fn text_in(d: JsonV, key: Seq<char>) -> Seq<char> {
    match json::text_field(d, key) {
        Some(s) => s,
        None => Seq::empty(),
    }
}

/// The integer in a field; 0 where there is none.
pub open spec fn int_in(d: JsonV, key: Seq<char>) -> int {
    match json::int_field(d, key) {
        Some(n) => n,
        None => 0,
    }
}

/// The truth value in a field; false where there is none.
pub open spec fn bool_in(d: JsonV, key: Seq<char>) -> bool {
    json::bool_field(d, key) == Some(true)
}

/// The name that a device is shown with: its own, the observed one, its role, or its address.
pub open spec fn display_name(d: JsonV) -> Seq<char> {
    if text_in(d, "osd_name"@).len() > 0 {
        text_in(d, "osd_name"@)
    } else if text_in(d, "observed_osd_name_fragment"@).len() > 0 {
        text_in(d, "observed_osd_name_fragment"@)
    } else if text_in(d, "device_type"@).len() > 0 {
        title_cased(text_in(d, "device_type"@))
    } else {
        text_in(d, "address_name"@)
    }
}

/// The power status that a device is shown with: the polled one, or the observed one where nothing
/// is known by polling.
pub open spec fn shown_power(d: JsonV) -> Seq<char> {
    let polled = text_in(d, "power_status"@);
    let observed = text_in(d, "observed_power_status"@);
    if (polled.len() == 0 || polled == "Unknown"@) && observed.len() > 0 {
        title_cased(observed)
    } else {
        polled
    }
}

/// The row of a device with an address.
pub open spec fn device_row(d: JsonV, la: int, active_source: int) -> DeviceRowV {
    DeviceRowV {
        logical_address: la as i32,
        display_name: display_name(d),
        address_name: text_in(d, "address_name"@),
        role: text_in(d, "device_type"@),
        physical_address: text_in(d, "physical_address"@),
        hdmi_port: int_in(d, "hdmi_port"@),
        vendor_name: text_in(d, "vendor_name"@),
        vendor_id: text_in(d, "vendor_id"@),
        cec_version: text_in(d, "cec_version"@),
        power_status: shown_power(d),
        power_observed_at: text_in(d, "observed_at"@),
        discovery: text_in(d, "discovery"@),
        is_own: bool_in(d, "is_own"@),
        is_active_source: active_source == la as i32 || bool_in(d, "is_active_source"@),
        is_audio_system: la == 5,
        is_ghost: text_in(d, "discovery"@) == "observed"@,
        first_seen: text_in(d, "first_seen_at"@),
        last_seen: text_in(d, "last_seen_at"@),
    }
}

/// The rows of a device list. An entry without an address is left out.
pub open spec fn device_rows(devices: Seq<JsonV>, active_source: int) -> Seq<DeviceRowV>
    decreases devices.len(),
{
    if devices.len() == 0 {
        Seq::empty()
    } else {
        let before = device_rows(devices.drop_last(), active_source);
        match json::int_field(devices.last(), "logical_address"@) {
            Some(la) if la >= 0 => before.push(device_row(devices.last(), la, active_source)),
            _ => before,
        }
    }
}

fn str_in(d: &serde_json::Value, key: &str) -> (r: String)
    ensures
        r@ == text_in(json::json(*d), key@),
{
    match json::get_str(d, key) {
        Some(s) => s.to_owned(),
        None => String::new(),
    }
}

fn flag_in(d: &serde_json::Value, key: &str) -> (r: bool)
    ensures
        r == bool_in(json::json(*d), key@),
{
    match json::get_bool(d, key) {
        Some(b) => b,
        None => false,
    }
}

fn name_of(d: &serde_json::Value) -> (r: String)
    ensures
        r@ == display_name(json::json(*d)),
{
    let osd = str_in(d, "osd_name");
    if !osd.as_str().is_empty() {
        return osd;
    }
    let fragment = str_in(d, "observed_osd_name_fragment");
    if !fragment.as_str().is_empty() {
        return fragment;
    }
    let role = str_in(d, "device_type");
    if !role.as_str().is_empty() {
        return title_case(role.as_str());
    }
    str_in(d, "address_name")
}

fn power_of(d: &serde_json::Value) -> (r: String)
    ensures
        r@ == shown_power(json::json(*d)),
{
    let polled = str_in(d, "power_status");
    if polled.as_str().is_empty() || text::str_eq(polled.as_str(), "Unknown") {
        let observed = str_in(d, "observed_power_status");
        if !observed.as_str().is_empty() {
            return title_case(observed.as_str());
        }
    }
    polled
}

fn row_of(d: &serde_json::Value, la: i64, active_source: i32) -> (r: DeviceRow)
    ensures
        r@ == device_row(json::json(*d), la as int, active_source as int),
{
    let address: i32 = #[verifier::truncate]
    (la as i32);
    let discovery = str_in(d, "discovery");
    let is_ghost = text::str_eq(discovery.as_str(), "observed");
    DeviceRow {
        logical_address: address,
        display_name: name_of(d),
        address_name: str_in(d, "address_name"),
        role: str_in(d, "device_type"),
        physical_address: str_in(d, "physical_address"),
        hdmi_port: match json::get_i64(d, "hdmi_port") {
            Some(n) => n,
            None => 0,
        },
        vendor_name: str_in(d, "vendor_name"),
        vendor_id: str_in(d, "vendor_id"),
        cec_version: str_in(d, "cec_version"),
        power_status: power_of(d),
        power_observed_at: str_in(d, "observed_at"),
        discovery,
        is_own: flag_in(d, "is_own"),
        is_active_source: active_source == address || flag_in(d, "is_active_source"),
        is_audio_system: la == 5,
        is_ghost,
        first_seen: str_in(d, "first_seen_at"),
        last_seen: str_in(d, "last_seen_at"),
    }
}

/// The rows of the devices of a snapshot.
pub fn device_rows_from_snapshot(snap: &BusStateSnapshot) -> (r: Vec<DeviceRow>)
    ensures
        row_views(r@) == device_rows(json::jsons(snap.devices@), snap.active_source as int),
{
    let ghost all = json::jsons(snap.devices@);
    let mut rows: Vec<DeviceRow> = Vec::new();
    let mut i: usize = 0;
    assert(row_views(rows@) =~= device_rows(all.take(0), snap.active_source as int));
    while i < snap.devices.len()
        invariant
            i <= snap.devices@.len(),
            all == json::jsons(snap.devices@),
            row_views(rows@) == device_rows(all.take(i as int), snap.active_source as int),
        decreases snap.devices@.len() - i,
    {
        let d = &snap.devices[i];
        assert(all.take(i as int + 1).drop_last() =~= all.take(i as int));
        assert(all.take(i as int + 1).last() == json::json(*d));
        let ghost before = row_views(rows@);
        match json::get_i64(d, "logical_address") {
            Some(la) => if la >= 0 {
                let row = row_of(d, la, snap.active_source);
                let ghost rv = row@;
                rows.push(row);
                assert(row_views(rows@) =~= before.push(rv));
            },
            None => {},
        }
        i += 1;
    }
    assert(all.take(i as int) =~= all);
    rows
}

/// The device list with its message.
pub open spec fn devices_panel(d: DevicesPanelData, devices: Seq<JsonV>, active_source: int) -> bool {
    &&& row_views(d.devices@) == device_rows(devices, active_source)
    &&& d.message@ == "Live snapshot ("@ + text::dec(
        device_rows(devices, active_source).len(),
    ) + " devices)"@
}

/// The device list.
pub fn devices_panel_data(bus: &BusState, now: Timestamp) -> (r: DevicesPanelData)
    ensures
        devices_panel(r, bus@.devices, bus@.active_source),
{
    let snap = bus.copy_snapshot(now);
    let devices = device_rows_from_snapshot(&snap);
    let n = text::dec_u64(devices.len() as u64);
    assert(row_views(devices@).len() == devices@.len());
    DevicesPanelData {
        message: text::concat3("Live snapshot (", n.as_str(), " devices)"),
        devices,
    }
}

// ---------------------------------------------------------------------------
// Banner and remote control
// ---------------------------------------------------------------------------

/// What the banner shows: without an adapter the bus is not ready, and the snapshot counts as
/// stale.
pub open spec fn banner(bus: BusV, ready: bool, scanned_at: Option<Seq<char>>, now: Timestamp) -> BusBannerV {
    BusBannerV {
        cec_ready: ready && bus.cec_ready,
        scan_in_progress: bus.scan_in_progress,
        stale: !ready || stale_at(bus, now),
        monitoring: bus.monitoring,
        last_full_scan: match scanned_at {
            Some(t) => t,
            None => "never"@,
        },
        active_source: bus.active_source,
        device_count: bus.devices.len(),
    }
}

/// What an optional text holds.
pub open spec fn maybe(s: Option<&str>) -> Option<Seq<char>> {
    match s {
        Some(t) => Some(t@),
        None => None,
    }
}

/// The banner. `scanned_at` is the time of the last full scan in local time, where there was one.
pub fn bus_banner_data(bus: &BusState, ready: bool, scanned_at: Option<&str>, now: Timestamp) -> (r:
    BusBannerData)
    ensures
        r@ == banner(bus@, ready, maybe(scanned_at), now),
{
    let snap = bus.copy_snapshot(now);
    assert(json::jsons(snap.devices@).len() == snap.devices@.len());
    let mut d = BusBannerData::from_snapshot(&snap, scanned_at);
    d.cec_ready = ready && d.cec_ready;
    if !ready {
        d.stale = true;
    }
    d
}

/// The devices that keys can be sent to: all but the adapter's own.
pub open spec fn nav_targets(rows: Seq<DeviceRowV>) -> Seq<NavTargetV>
    decreases rows.len(),
{
    if rows.len() == 0 {
        Seq::empty()
    } else {
        let before = nav_targets(rows.drop_last());
        let d = rows.last();
        if d.is_own {
            before
        } else {
            before.push(
                NavTargetV {
                    la: d.logical_address,
                    label: d.display_name,
                    selected: d.is_active_source,
                },
            )
        }
    }
}

fn targets_of(rows: &Vec<DeviceRow>) -> (r: Vec<NavTarget>)
    ensures
        target_views(r@) == nav_targets(row_views(rows@)),
{
    let ghost all = row_views(rows@);
    let mut out: Vec<NavTarget> = Vec::new();
    let mut i: usize = 0;
    assert(target_views(out@) =~= nav_targets(all.take(0)));
    while i < rows.len()
        invariant
            i <= rows@.len(),
            all == row_views(rows@),
            target_views(out@) == nav_targets(all.take(i as int)),
        decreases rows@.len() - i,
    {
        let d = &rows[i];
        assert(all.take(i as int + 1).drop_last() =~= all.take(i as int));
        assert(all.take(i as int + 1).last() == d@);
        let ghost before = target_views(out@);
        if !d.is_own {
            let t = NavTarget {
                la: d.logical_address,
                label: d.display_name.clone(),
                selected: d.is_active_source,
            };
            let ghost tv = t@;
            out.push(t);
            assert(target_views(out@) =~= before.push(tv));
        }
        i += 1;
    }
    assert(all.take(i as int) =~= all);
    out
}

/// The buttons of the ports 1 to `n`.
pub open spec fn port_buttons(n: int) -> Seq<HdmiPortButton> {
    Seq::new(n as nat, |i: int| HdmiPortButton { port: (i + 1) as i64, selected: false })
}

/// What the remote control shows.
pub open spec fn remote(
    r: RemoteData,
    bus: BusV,
    ready: bool,
    audio: Option<(u8, bool, u8)>,
    scanned_at: Option<Seq<char>>,
    now: Timestamp,
) -> bool {
    let rows = device_rows(bus.devices, bus.active_source);
    let (volume, muted) = match audio {
        Some(a) => (a.0, a.1),
        None => (0, false),
    };
    &&& r.banner@ == banner(bus, ready, scanned_at, now)
    &&& row_views(r.devices@) == rows
    &&& r.hdmi_ports@ == port_buttons(highest_port(bus.devices, 4))
    &&& target_views(r.nav_targets@) == nav_targets(rows)
    &&& r.audio_display_volume == (if volume > 100 {
        100
    } else {
        volume as int
    })
    &&& r.audio_muted == muted
    &&& r.audio_available == ready
}

/// The remote control. `audio` is what the adapter told of volume and mute state, if anything.
pub fn remote_data(
    bus: &BusState,
    ready: bool,
    audio: Option<(u8, bool, u8)>,
    scanned_at: Option<&str>,
    now: Timestamp,
) -> (r: RemoteData)
    ensures
        remote(r, bus@, ready, audio, maybe(scanned_at), now),
{
    let snap = bus.copy_snapshot(now);
    let devices = device_rows_from_snapshot(&snap);
    let topo = build_from_snapshot(bus, now);
    let ghost buttons = port_buttons(highest_port(bus@.devices, 4));
    let mut hdmi_ports: Vec<HdmiPortButton> = Vec::new();
    let mut n: i64 = 0;
    while n < topo.known_port_count
        invariant
            0 <= n <= topo.known_port_count == buttons.len(),
            buttons == port_buttons(highest_port(bus@.devices, 4)),
            hdmi_ports@ == buttons.take(n as int),
        decreases topo.known_port_count - n,
    {
        let ghost before = hdmi_ports@;
        hdmi_ports.push(HdmiPortButton { port: n + 1, selected: false });
        assert(hdmi_ports@ =~= before.push(buttons[n as int]));
        n += 1;
        assert(hdmi_ports@ =~= buttons.take(n as int));
    }
    assert(buttons.take(buttons.len() as int) =~= buttons);
    let nav_targets = targets_of(&devices);
    let (volume, muted, _raw) = exec::audio_status(audio);
    RemoteData {
        banner: bus_banner_data(bus, ready, scanned_at, now),
        devices,
        hdmi_ports,
        nav_targets,
        audio_display_volume: if volume > 100 {
            100
        } else {
            volume as i32
        },
        audio_muted: muted,
        audio_available: ready,
    }
}

/// The source panel shows the same as the remote control.
pub fn source_panel_data(
    bus: &BusState,
    ready: bool,
    audio: Option<(u8, bool, u8)>,
    scanned_at: Option<&str>,
    now: Timestamp,
) -> (r: RemoteData)
    ensures
        remote(r, bus@, ready, audio, maybe(scanned_at), now),
{
    remote_data(bus, ready, audio, scanned_at, now)
}

// ---------------------------------------------------------------------------
// Activity feed
// ---------------------------------------------------------------------------

/// What an event is told with in the feed.
pub open spec fn summary_text(kind: Seq<char>, data: JsonV) -> Seq<char> {
    if kind == POWER_CHANGE@ {
        "device "@ + json::shown_field(data, "address"@) + " → "@ + json::shown_field(
            data,
            "status"@,
        )
    } else if kind == SOURCE_ACTIVATED@ {
        "active source → LA "@ + json::shown_field(data, "address"@)
    } else if kind == KEY_PRESS@ {
        "key "@ + json::shown_field(data, "keycode"@) + " ("@ + json::shown_field(
            data,
            "duration"@,
        ) + ")"@
    } else if kind == COMMAND@ {
        json::shown_field(data, "initiator"@) + " → "@ + json::shown_field(data, "destination"@)
            + " op "@ + json::shown_field(data, "opcode"@)
    } else if kind == DEVICES_CHANGED@ {
        "devices changed ("@ + json::shown_field(data, "reason"@) + ")"@
    } else if kind == CONFIGURATION_CHANGED@ {
        "libcec configuration changed"@
    } else if kind == ADAPTER_STATE@ {
        "adapter "@ + json::shown_field(data, "state"@)
    } else {
        kind
    }
}

/// Tells an event in a line.
pub fn summarize(ev: &AppEvent) -> (r: String)
    ensures
        r@ == summary_text(ev@.kind, ev@.data),
{
    let kind = ev.kind.as_str();
    if text::str_eq(kind, POWER_CHANGE) {
        let address = json::show_field(&ev.data, "address");
        let status = json::show_field(&ev.data, "status");
        let head = text::concat3("device ", address.as_str(), " → ");
        text::concat(head.as_str(), status.as_str())
    } else if text::str_eq(kind, SOURCE_ACTIVATED) {
        let address = json::show_field(&ev.data, "address");
        text::concat("active source → LA ", address.as_str())
    } else if text::str_eq(kind, KEY_PRESS) {
        let code = json::show_field(&ev.data, "keycode");
        let duration = json::show_field(&ev.data, "duration");
        let head = text::concat3("key ", code.as_str(), " (");
        text::concat3(head.as_str(), duration.as_str(), ")")
    } else if text::str_eq(kind, COMMAND) {
        let initiator = json::show_field(&ev.data, "initiator");
        let destination = json::show_field(&ev.data, "destination");
        let opcode = json::show_field(&ev.data, "opcode");
        let head = text::concat3(initiator.as_str(), " → ", destination.as_str());
        text::concat3(head.as_str(), " op ", opcode.as_str())
    } else if text::str_eq(kind, DEVICES_CHANGED) {
        let reason = json::show_field(&ev.data, "reason");
        text::concat3("devices changed (", reason.as_str(), ")")
    } else if text::str_eq(kind, CONFIGURATION_CHANGED) {
        "libcec configuration changed".to_owned()
    } else if text::str_eq(kind, ADAPTER_STATE) {
        let state = json::show_field(&ev.data, "state");
        text::concat("adapter ", state.as_str())
    } else {
        ev.kind.clone()
    }
}

/// The line of an event in the feed, at a time of day.
pub fn event_feed_entry(ev: &AppEvent, time: &str) -> (r: EventFeedEntry)
    ensures
        r.time@ == time@,
        r.kind@ == ev@.kind,
        r.summary@ == summary_text(ev@.kind, ev@.data),
{
    EventFeedEntry { time: time.to_owned(), kind: ev.kind.clone(), summary: summarize(ev) }
}

// ---------------------------------------------------------------------------
// Health, MQTT, logs and trace
// ---------------------------------------------------------------------------

/// A quotient rounded toward zero.
pub open spec fn toward_zero(n: int, d: int) -> int {
    if n >= 0 {
        n / d
    } else {
        -((-n) / d)
    }
}

/// A number with a leading zero where it is one digit.
pub open spec fn two_digits(n: int) -> Seq<char> {
    if 0 <= n < 10 {
        "0"@ + text::dec_int(n)
    } else {
        text::dec_int(n)
    }
}

/// A time span in hours and minutes.
pub open spec fn uptime_text(secs: int) -> Seq<char> {
    let minutes = toward_zero(secs, 60);
    text::dec_int(toward_zero(secs, 3600)) + "h "@ + two_digits(
        minutes - toward_zero(minutes, 60) * 60,
    ) + "m"@
}

fn uptime_of(secs: i64) -> (r: String)
    ensures
        r@ == uptime_text(secs as int),
{
    let hours: i64 = quotient(secs, 3600);
    let minutes: i64 = quotient(secs, 60);
    let left: i64 = minutes - quotient(minutes, 60) * 60;
    let h = text::dec_i64(hours);
    let digits = text::dec_i64(left);
    let m = if 0 <= left && left < 10 {
        text::concat("0", digits.as_str())
    } else {
        digits
    };
    let head = text::concat3(h.as_str(), "h ", m.as_str());
    text::concat(head.as_str(), "m")
}

fn quotient(n: i64, d: i64) -> (r: i64)
    requires
        0 < d <= 3600,
    ensures
        r == toward_zero(n as int, d as int),
        n >= 0 ==> 0 <= r * d <= n,
        n < 0 ==> n <= r * d <= 0,
{
    proof {
        let a = if n >= 0 {
            n as int
        } else {
            -(n as int)
        };
        assert(0 <= (a / d as int) * d <= a) by (nonlinear_arith)
            requires
                a >= 0,
                d > 0,
        ;
        assert(a / d as int <= a) by (nonlinear_arith)
            requires
                a >= 0,
                d > 0,
        ;
        assert((-(a / d as int)) * d == -((a / d as int) * d)) by (nonlinear_arith);
    }
    if n >= 0 {
        n / d
    } else {
        let a: i128 = -(n as i128);
        (-(a / (d as i128))) as i64
    }
}

/// The health panel.
pub fn health_data(
    version: &str,
    started: Timestamp,
    now: Timestamp,
    ready: bool,
    lib_info: Option<&str>,
    subscribers: usize,
    hub: &EventHub,
    frames_captured: u64,
) -> (r: HealthData)
    ensures
        r.version@ == version@,
        r.uptime@ == uptime_text(seconds_between(started, now)),
        r.cec_ready == ready,
        r.lib_info@ == (match lib_info {
            Some(s) => s@,
            None => Seq::empty(),
        }),
        r.subscribers == subscribers,
        r.events_dropped == hub.dropped,
        r.frames_captured == frames_captured,
{
    let (dropped, _delivered) = hub.stats();
    HealthData {
        version: version.to_owned(),
        uptime: uptime_of(now.seconds_since(started)),
        cec_ready: ready,
        lib_info: match lib_info {
            Some(s) => s.to_owned(),
            None => String::new(),
        },
        subscribers,
        events_dropped: dropped,
        frames_captured,
    }
}

/// The MQTT panel. The password is not shown, only whether there is one.
pub fn mqtt_panel_data(cfg: &MqttConfig, connected: bool) -> (r: MqttPanelData)
    ensures
        r.broker@ == cfg@.broker,
        r.user@ == cfg@.user,
        r.prefix@ == cfg@.prefix,
        r.pass_set == (cfg@.pass.len() > 0),
        r.connected == connected,
{
    MqttPanelData {
        broker: cfg.broker.clone(),
        user: cfg.user.clone(),
        prefix: cfg.prefix.clone(),
        pass_set: !cfg.pass.as_str().is_empty(),
        connected,
    }
}

/// What the lines of the log panel hold.
pub open spec fn line_views(v: Seq<LogLine>) -> Seq<LogMessageV> {
    v.map_values(
        |l: LogLine|
            LogMessageV { timestamp: l.timestamp@, level: l.level@, message: l.message@ },
    )
}

/// The log panel.
pub fn logs_data(logs: &LogRing) -> (r: LogsData)
    ensures
        line_views(r.lines@) == logs@,
{
    let recent = logs.recent();
    let ghost all = log_views(recent@);
    let mut lines: Vec<LogLine> = Vec::new();
    let mut i: usize = 0;
    while i < recent.len()
        invariant
            i <= recent@.len(),
            all == log_views(recent@),
            line_views(lines@) == all.take(i as int),
        decreases recent@.len() - i,
    {
        let ghost before = line_views(lines@);
        let m: &LogMessage = &recent[i];
        lines.push(
            LogLine {
                timestamp: m.timestamp.clone(),
                level: m.level.clone(),
                message: m.message.clone(),
            },
        );
        i += 1;
        assert(line_views(lines@) =~= before.push(all[i - 1]));
        assert(line_views(lines@) =~= all.take(i as int));
    }
    assert(all.take(i as int) =~= all);
    LogsData { lines }
}

/// How many frames the trace shows.
pub const TRACE_LEN: usize = 100;

/// The row of a frame with its time of day.
pub open spec fn frame_row(f: FrameV, time: Seq<char>) -> FrameRowV {
    FrameRowV {
        time,
        initiator: f.initiator,
        destination: f.destination,
        opcode: f.opcode,
        ack: f.ack,
        params: text::joined(f.params_hex, " "@),
    }
}

/// The trace: the newest frames, newest first. `times` are the times of day of `frames`, in local
/// time.
pub fn trace_data(frames: &Vec<BusFrameEntry>, times: &Vec<String>) -> (r: DevTraceData)
    requires
        times@.len() == frames@.len(),
    ensures
        r.frames@.len() == (if frames@.len() < TRACE_LEN {
            frames@.len()
        } else {
            TRACE_LEN as nat
        }),
        forall|i: int|
            0 <= i < r.frames@.len() ==> (#[trigger] r.frames@[i])@ == frame_row(
                frames@[frames@.len() - 1 - i]@,
                times@[frames@.len() - 1 - i]@,
            ),
{
    let mut out: Vec<FrameRow> = Vec::new();
    let n: usize = frames.len();
    while out.len() < TRACE_LEN && out.len() < n
        invariant
            n == frames@.len() == times@.len(),
            out@.len() <= n,
            out@.len() <= TRACE_LEN,
            forall|i: int|
                0 <= i < out@.len() ==> (#[trigger] out@[i])@ == frame_row(
                    frames@[n - 1 - i]@,
                    times@[n - 1 - i]@,
                ),
        decreases n - out@.len(),
    {
        let k: usize = n - 1 - out.len();
        let f = &frames[k];
        out.push(
            FrameRow {
                time: times[k].clone(),
                initiator: f.initiator,
                destination: f.destination,
                opcode: f.opcode.clone(),
                ack: f.ack,
                params: text::join(&f.params_hex, " "),
            },
        );
    }
    DevTraceData { frames: out }
}

// ---------------------------------------------------------------------------
// Pages and fragments
// ---------------------------------------------------------------------------

/// The dashboard.
#[derive(Debug)]
pub struct DashboardTmpl {
    pub ctx: RemoteData,
    pub version: String,
}

/// The settings page.
#[derive(Debug)]
pub struct SettingsTmpl {
    pub mqtt: MqttPanelData,
    pub health: HealthData,
    pub monitor_only: bool,
    pub token_set: bool,
    pub version: String,
}

/// The dev console.
#[derive(Debug)]
pub struct DevTmpl {
    pub mode: DevModeData,
    pub adapter_ready: bool,
    pub actions: Vec<String>,
    pub keys: Vec<(String, u8)>,
    pub version: String,
}

/// The login page.
#[derive(Debug)]
pub struct LoginTmpl {
    pub error: String,
}

/// The banner fragment.
#[derive(Debug)]
pub struct BusBannerTmpl {
    pub ctx: BusBannerData,
}

/// The device list fragment.
#[derive(Debug)]
pub struct DevicesTmpl {
    pub ctx: DevicesPanelData,
}

/// The health fragment.
#[derive(Debug)]
pub struct HealthTmpl {
    pub ctx: HealthData,
}

/// The MQTT fragment.
#[derive(Debug)]
pub struct MqttTmpl {
    pub ctx: MqttPanelData,
}

/// The log fragment.
#[derive(Debug)]
pub struct LogsTmpl {
    pub ctx: LogsData,
}

/// The topology fragment.
#[derive(Debug)]
pub struct TopologyTmpl {
    pub ctx: TopologyPayload,
}

/// The source fragment.
#[derive(Debug)]
pub struct SourceTmpl {
    pub ctx: RemoteData,
}

/// The volume fragment.
#[derive(Debug)]
pub struct VolumeTmpl {
    pub ctx: RemoteData,
}

/// The navigation fragment.
#[derive(Debug)]
pub struct NavTmpl {
    pub ctx: RemoteData,
}

/// The device power fragment.
#[derive(Debug)]
pub struct DevicePowerTmpl {
    pub ctx: DevicesPanelData,
}

/// The dashboard page.
pub fn dashboard(ctx: RemoteData, version: &str) -> (r: DashboardTmpl)
    ensures
        r.ctx == ctx,
        r.version@ == version@,
{
    DashboardTmpl { ctx, version: version.to_owned() }
}

/// The settings page. The token itself is not shown, only whether there is one.
pub fn settings_page(
    mqtt: MqttPanelData,
    health: HealthData,
    monitor_only: bool,
    auth_token: &str,
    version: &str,
) -> (r: SettingsTmpl)
    ensures
        r.mqtt == mqtt,
        r.health == health,
        r.monitor_only == monitor_only,
        r.token_set == (auth_token@.len() > 0),
        r.version@ == version@,
{
    SettingsTmpl {
        mqtt,
        health,
        monitor_only,
        token_set: !auth_token.is_empty(),
        version: version.to_owned(),
    }
}

/// The dev console page, with the names of all actions and keys.
pub fn dev_page(monitor_only: bool, adapter_ready: bool, version: &str) -> (r: DevTmpl)
    ensures
        r.mode == (DevModeData { monitor_only }),
        r.adapter_ready == adapter_ready,
        text::views(r.actions@) == Seq::new(30, |i: int| ACTION_NAMES@[i]@),
        table_sorted(table_view(r.keys@)),
        table_view(r.keys@).to_multiset() == key_entries().to_multiset(),
        r.version@ == version@,
{
    let ghost all = Seq::new(30, |i: int| ACTION_NAMES@[i]@);
    let names = all_actions();
    let mut actions: Vec<String> = Vec::new();
    let mut i: usize = 0;
    while i < 30
        invariant
            i <= 30 == names@.len(),
            all == Seq::new(30, |i: int| ACTION_NAMES@[i]@),
            forall|k: int| 0 <= k < 30 ==> (#[trigger] names@[k]).0@ == ACTION_NAMES@[k]@,
            text::views(actions@) == all.take(i as int),
        decreases 30 - i,
    {
        let ghost before = text::views(actions@);
        actions.push(names[i].0.to_owned());
        i += 1;
        assert(text::views(actions@) =~= before.push(all[i - 1]));
        assert(text::views(actions@) =~= all.take(i as int));
    }
    assert(all.take(i as int) =~= all);
    DevTmpl {
        mode: DevModeData { monitor_only },
        adapter_ready,
        actions,
        keys: keycode_names(),
        version: version.to_owned(),
    }
}

/// The login page before an attempt.
pub fn login_page() -> (r: LoginTmpl)
    ensures
        r.error@ == Seq::<char>::empty(),
{
    LoginTmpl { error: String::new() }
}

// ---------------------------------------------------------------------------
// Actions
// ---------------------------------------------------------------------------

/// What a character is in HTML text.
pub open spec fn html_char(c: char) -> Seq<char> {
    if c == '&' {
        "&amp;"@
    } else if c == '<' {
        "&lt;"@
    } else if c == '>' {
        "&gt;"@
    } else {
        seq![c]
    }
}

/// A text with the characters escaped that mean something in HTML text.
pub open spec fn escaped(s: Seq<char>) -> Seq<char>
    decreases s.len(),
{
    if s.len() == 0 {
        Seq::empty()
    } else {
        escaped(s.drop_last()) + html_char(s.last())
    }
}

/// Escapes a text for HTML.
pub fn askama_escape(s: &str) -> (r: String)
    ensures
        r@ == escaped(s@),
{
    let cs = text::chars_of(s);
    let mut out = String::new();
    let mut i: usize = 0;
    assert(out@ =~= escaped(cs@.take(0)));
    while i < cs.len()
        invariant
            i <= cs@.len(),
            out@ == escaped(cs@.take(i as int)),
        decreases cs@.len() - i,
    {
        assert(cs@.take(i as int + 1).drop_last() =~= cs@.take(i as int));
        assert(cs@.take(i as int + 1).last() == cs@[i as int]);
        let ghost before = out@;
        if cs[i] == '&' {
            out = text::concat(out.as_str(), "&amp;");
        } else if cs[i] == '<' {
            out = text::concat(out.as_str(), "&lt;");
        } else if cs[i] == '>' {
            out = text::concat(out.as_str(), "&gt;");
        } else {
            out.push(cs[i]);
            assert(out@ =~= before + seq![cs@[i as int]]);
        }
        i += 1;
    }
    assert(cs@.take(i as int) =~= s@);
    out
}

/// An escaped text holds no angle bracket.
pub proof fn law_escaped_text_has_no_markup(s: Seq<char>)
    ensures
        forall|i: int|
            0 <= i < escaped(s).len() ==> #[trigger] escaped(s)[i] != '<' && escaped(s)[i] != '>',
    decreases s.len(),
{
    reveal_strlit("&amp;");
    reveal_strlit("&lt;");
    reveal_strlit("&gt;");
    if s.len() > 0 {
        let head = escaped(s.drop_last());
        let tail = html_char(s.last());
        law_escaped_text_has_no_markup(s.drop_last());
        assert forall|i: int| 0 <= i < tail.len() implies #[trigger] tail[i] != '<' && tail[i]
            != '>' by {}
        assert forall|i: int| 0 <= i < escaped(s).len() implies #[trigger] escaped(s)[i] != '<'
            && escaped(s)[i] != '>' by {
            if i < head.len() {
                assert(escaped(s)[i] == head[i]);
            } else {
                assert(escaped(s)[i] == tail[i - head.len()]);
            }
        }
    }
}

/// The answer to a form action. The toast goes into a header.
#[derive(Debug)]
pub enum ActionReply {
    /// A note in HTML.
    Note { html: String, toast: String },
    /// A failure.
    Failed { reply: Reply, toast: String },
}

/// What an [`ActionReply`] holds.
pub enum ActionReplyV {
    Note { html: Seq<char>, toast: Seq<char> },
    Failed { reply: ReplyV, toast: Seq<char> },
}

impl View for ActionReply {
    type V = ActionReplyV;

    open spec fn view(&self) -> ActionReplyV {
        match self {
            ActionReply::Note { html, toast } => ActionReplyV::Note { html: html@, toast: toast@ },
            ActionReply::Failed { reply, toast } => ActionReplyV::Failed {
                reply: reply@,
                toast: toast@,
            },
        }
    }
}

/// A note on an action.
pub open spec fn note(title: Seq<char>, message: Seq<char>) -> ActionReplyV {
    ActionReplyV::Note {
        html: "<div class=\"action-note ok\">"@ + title + ": "@ + escaped(message) + "</div>"@,
        toast: "ok: "@ + message,
    }
}

/// The answer to an action that failed.
pub open spec fn failure(e: ExecError) -> ActionReplyV {
    ActionReplyV::Failed {
        reply: err_reply(
            if e is AdapterUnavailable {
                503
            } else {
                400
            },
            exec_error_text(e),
        ),
        toast: "err: "@ + exec_error_text(e),
    }
}

/// Answers an action.
pub fn action_result(title: &str, res: &Result<String, ExecError>) -> (r: ActionReply)
    ensures
        r@ == (match *res {
            Ok(m) => note(title@, m@),
            Err(e) => failure(e),
        }),
{
    match res {
        Ok(m) => {
            let head = text::concat3("<div class=\"action-note ok\">", title, ": ");
            let body = askama_escape(m.as_str());
            ActionReply::Note {
                html: text::concat3(head.as_str(), body.as_str(), "</div>"),
                toast: text::concat("ok: ", m.as_str()),
            }
        },
        Err(e) => {
            let message = e.to_string();
            let status: u16 = match e {
                ExecError::AdapterUnavailable => 503,
                _ => 400,
            };
            ActionReply::Failed {
                reply: err(status, message.as_str()),
                toast: text::concat("err: ", message.as_str()),
            }
        },
    }
}

/// A form with an optional device address.
#[derive(Debug, Clone, Copy, PartialEq, Eq, Structural)]
pub struct AddrForm {
    pub addr: Option<i32>,
}

/// The address of a form; the TV where there is none.
pub open spec fn form_addr(f: AddrForm) -> i32 {
    match f.addr {
        Some(a) => a,
        None => 0,
    }
}

fn addr_of(f: &AddrForm) -> (r: i32)
    ensures
        r == form_addr(*f),
{
    match f.addr {
        Some(a) => a,
        None => 0,
    }
}

/// Powers on a device; the note is "sent".
pub fn act_power_on(session: Option<&Connection>, f: &AddrForm) -> (r: Result<CecCall, ExecError>)
    ensures
        device_command(
            session_view(session),
            form_addr(*f),
            (CecCall::PowerOn { address: form_addr(*f) as u8 }),
            r,
        ),
{
    exec::power_on(session, addr_of(f))
}

/// Puts a device in standby; the note is "sent".
pub fn act_power_off(session: Option<&Connection>, f: &AddrForm) -> (r: Result<CecCall, ExecError>)
    ensures
        device_command(
            session_view(session),
            form_addr(*f),
            (CecCall::Standby { address: form_addr(*f) as u8 }),
            r,
        ),
{
    exec::power_off(session, addr_of(f))
}

/// The form of a switch to a device.
#[derive(Debug, Clone, Copy, PartialEq, Eq, Structural)]
pub struct SetSourceForm {
    pub addr: i32,
}

/// Answers a switch to a device.
pub fn set_source_result(f: &SetSourceForm, outcome: Result<(), ExecError>) -> (r: ActionReply)
    ensures
        r@ == (match outcome {
            Ok(()) => note("Source"@, "switched to "@ + text::dec_int(f.addr as int)),
            Err(e) => failure(e),
        }),
{
    let res = match outcome {
        Ok(()) => Ok(text::concat("switched to ", text::dec_i64(f.addr as i64).as_str())),
        Err(e) => Err(e),
    };
    action_result("Source", &res)
}

/// The form of a switch to a port.
#[derive(Debug, Clone, Copy, PartialEq, Eq, Structural)]
pub struct HdmiForm {
    pub port: i32,
}

/// Answers a switch to a port.
pub fn hdmi_result(f: &HdmiForm, outcome: Result<(), ExecError>) -> (r: ActionReply)
    ensures
        r@ == (match outcome {
            Ok(()) => note("HDMI"@, "port "@ + text::dec_int(f.port as int)),
            Err(e) => failure(e),
        }),
{
    let res = match outcome {
        Ok(()) => Ok(text::concat("port ", text::dec_i64(f.port as i64).as_str())),
        Err(e) => Err(e),
    };
    action_result("HDMI", &res)
}

/// The form of a key press.
#[derive(Debug)]
pub struct NavKeyForm {
    pub key: String,
    pub addr: Option<i32>,
}

/// The device that a key goes to: the one of the form, the active source, or the TV.
pub open spec fn nav_addr(addr: Option<i32>, active_source: int) -> i32 {
    let a = match addr {
        Some(a) => a as int,
        None => active_source,
    };
    if a >= 0 {
        a as i32
    } else {
        0
    }
}

/// The device that a key goes to.
pub fn nav_target(f: &NavKeyForm, bus: &BusState, now: Timestamp) -> (r: i32)
    ensures
        r == nav_addr(f.addr, bus@.active_source),
{
    let a: i32 = match f.addr {
        Some(a) => a,
        None => bus.copy_snapshot(now).active_source,
    };
    if a >= 0 {
        a
    } else {
        0
    }
}

/// A key press of the form: how the key is sent, or the answer where it is not. Without an adapter
/// nothing else is checked.
pub fn act_nav_key(
    session: Option<&Connection>,
    f: &NavKeyForm,
    bus: &BusState,
    now: Timestamp,
) -> (r: Result<KeyPlan, ActionOrReply>)
    ensures
        ({
            let addr = nav_addr(f.addr, bus@.active_source);
            match session_view(session) {
                None => r matches Err(ActionOrReply::Plain(reply)) && reply@ == unavailable_reply(),
                Some(c) => match exec::key_fault(addr, f.key@, 0) {
                    Some(e) => r matches Err(ActionOrReply::Action(a)) && a@ == failure(e),
                    None => match exec::action_of_key(crate::strategies::action_form(f.key@)) {
                        Some(action) if f.key@.len() > 0 => r matches Ok(
                            KeyPlan::Run { action: a, target },
                        ) && a == action && target.0 == addr as u8,
                        _ => match c.send_fault(crate::cec::types::LogicalAddress(addr as u8)) {
                            Some(e) => r matches Err(ActionOrReply::Action(a)) && a@ == failure(
                                ExecError::Cec(e),
                            ),
                            None => r matches Ok(KeyPlan::Press { call }) && call == (
                            CecCall::SendKeypress {
                                address: addr as u8,
                                key: exec::sent_code(f.key@, 0).0,
                                wait: true,
                            }),
                        },
                    },
                },
            }
        }),
{
    if session.is_none() {
        return Err(ActionOrReply::Plain(unavailable()));
    }
    let addr: i32 = nav_target(f, bus, now);
    match exec::send_key(session, addr, f.key.as_str(), 0) {
        Ok(plan) => Ok(plan),
        Err(e) => Err(ActionOrReply::Action(action_result("Key", &Err(e)))),
    }
}

/// An answer of the UI.
#[derive(Debug)]
pub enum ActionOrReply {
    Action(ActionReply),
    Plain(Reply),
}

/// The form of a deep scan.
#[derive(Debug, Clone, Copy, PartialEq, Eq, Structural)]
pub struct DeepScanForm {}

/// Answers a deep scan, once it was put to the queue.
pub fn act_deep_scan(enqueued: bool) -> (r: Reply)
    ensures
        r@ == (if enqueued {
            ok_reply("deep scan queued"@, None)
        } else {
            err_reply(503, "queue full"@)
        }),
{
    if enqueued {
        ok("deep scan queued", None)
    } else {
        err(503, "queue full")
    }
}

/// The form of the MQTT settings.
#[derive(Debug)]
pub struct MqttSaveForm {
    pub broker: String,
    pub user: String,
    pub pass: String,
    pub prefix: String,
}

/// The MQTT settings that a form leads to.
pub fn act_mqtt_save(existing: &MqttConfig, f: MqttSaveForm) -> (r: MqttConfig)
    ensures
        r@ == requested_mqtt(
            existing@,
            MqttSettingsRequest { broker: f.broker, user: f.user, pass: f.pass, prefix: f.prefix },
        ),
{
    let req = MqttSettingsRequest {
        broker: f.broker,
        user: f.user,
        pass: f.pass,
        prefix: f.prefix,
    };
    merged_mqtt(existing, &req)
}

// ---------------------------------------------------------------------------
// Login
// ---------------------------------------------------------------------------

/// The form of a login.
#[derive(Debug)]
pub struct LoginForm {
    pub token: String,
}

/// What comes of a login.
#[derive(Debug)]
pub enum LoginOutcome {
    /// The cookie to set; the client is led to the dashboard.
    Cookie(String),
    /// The login page with an error.
    Page(LoginTmpl),
}

/// Whether a token opens: it is one of the two that are known, where those are not empty.
pub open spec fn token_matches(token: Seq<char>, configured: Seq<char>, expected: Seq<char>) -> bool {
    (configured.len() > 0 && token == configured) || (expected.len() > 0 && token == expected)
}

/// The cookie of a token.
pub open spec fn cookie_text(token: Seq<char>) -> Seq<char> {
    "capi_token="@ + token + "; Path=/; HttpOnly; SameSite=Lax"@
}

/// Answers a login. The token must be the configured one, or the one that the environment names.
pub fn login_submit(f: &LoginForm, configured: &str, expected: &str) -> (r: LoginOutcome)
    ensures
        if token_matches(f.token@, configured@, expected@) {
            r matches LoginOutcome::Cookie(c) && c@ == cookie_text(f.token@)
        } else {
            r matches LoginOutcome::Page(p) && p.error@ == "Invalid token"@
        },
{
    let token = f.token.as_str();
    if (!configured.is_empty() && text::str_eq(token, configured)) || (!expected.is_empty()
        && text::str_eq(token, expected)) {
        LoginOutcome::Cookie(
            text::concat3("capi_token=", token, "; Path=/; HttpOnly; SameSite=Lax"),
        )
    } else {
        LoginOutcome::Page(LoginTmpl { error: "Invalid token".to_owned() })
    }
}

// ---------------------------------------------------------------------------
// Laws
// ---------------------------------------------------------------------------

/// A device goes by its own name where it has told one, by the name that was observed where it has
/// not, then by its role and at last by its address; so it has no name only where nothing of it is
/// known.
pub proof fn law_devices_go_by_the_best_name(d: JsonV)
    ensures
        json::text_field(d, "osd_name"@) matches Some(n) ==> (n.len() > 0 ==> display_name(d) == n),
        text_in(d, "osd_name"@).len() == 0 ==> (json::text_field(
            d,
            "observed_osd_name_fragment"@,
        ) matches Some(n) ==> (n.len() > 0 ==> display_name(d) == n)),
        text_in(d, "osd_name"@).len() == 0 && text_in(d, "observed_osd_name_fragment"@).len() == 0
            ==> (json::text_field(d, "device_type"@) matches Some(t) ==> (t.len() > 0
            ==> display_name(d) == title_cased(t))),
        text_in(d, "osd_name"@).len() == 0 && text_in(d, "observed_osd_name_fragment"@).len() == 0
            && text_in(d, "device_type"@).len() == 0 ==> display_name(d) == text_in(
            d,
            "address_name"@,
        ),
{
}

/// The power status that a device told when it was asked counts; what was observed counts where it
/// told none.
pub proof fn law_polled_power_counts_first(d: JsonV)
    ensures
        json::text_field(d, "power_status"@) matches Some(p) ==> (p.len() > 0 && p != "Unknown"@
            ==> shown_power(d) == p),
        json::text_field(d, "observed_power_status"@) matches Some(o) ==> (o.len() > 0 && (text_in(
            d,
            "power_status"@,
        ).len() == 0 || text_in(d, "power_status"@) == "Unknown"@) ==> shown_power(d)
            == title_cased(o)),
        text_in(d, "observed_power_status"@).len() == 0 ==> shown_power(d) == text_in(
            d,
            "power_status"@,
        ),
{
}

proof fn lemma_rows_of_parts(a: Seq<JsonV>, b: Seq<JsonV>, active_source: int)
    ensures
        device_rows(a + b, active_source) == device_rows(a, active_source) + device_rows(
            b,
            active_source,
        ),
    decreases b.len(),
{
    if b.len() == 0 {
        assert(a + b =~= a);
        assert(device_rows(a, active_source) + device_rows(b, active_source) =~= device_rows(
            a,
            active_source,
        ));
    } else {
        lemma_rows_of_parts(a, b.drop_last(), active_source);
        assert((a + b).drop_last() =~= a + b.drop_last());
        assert((a + b).last() == b.last());
        assert(device_rows(a + b, active_source) =~= device_rows(a, active_source) + device_rows(
            b,
            active_source,
        ));
    }
}

/// The device list shows every entry with an address in its place, with what the entry holds, and
/// no other.
pub proof fn law_every_addressed_device_has_its_row(
    a: Seq<JsonV>,
    d: JsonV,
    b: Seq<JsonV>,
    active_source: int,
)
    ensures
        json::int_field(d, "logical_address"@) matches Some(la) ==> (0 <= la <= 15 ==> ({
            let rows = device_rows(a + seq![d] + b, active_source);
            let at = device_rows(a, active_source).len() as int;
            &&& rows.len() == at + 1 + device_rows(b, active_source).len()
            &&& rows[at].logical_address == la
            &&& rows[at].display_name == display_name(d)
            &&& rows[at].power_status == shown_power(d)
            &&& json::text_field(d, "physical_address"@) matches Some(p)
                ==> rows[at].physical_address == p
            &&& json::text_field(d, "vendor_name"@) matches Some(v) ==> rows[at].vendor_name == v
            &&& json::text_field(d, "vendor_id"@) matches Some(v) ==> rows[at].vendor_id == v
            &&& json::text_field(d, "cec_version"@) matches Some(v) ==> rows[at].cec_version == v
            &&& json::text_field(d, "address_name"@) matches Some(v) ==> rows[at].address_name == v
            &&& json::text_field(d, "device_type"@) matches Some(v) ==> rows[at].role == v
            &&& json::text_field(d, "discovery"@) matches Some(v) ==> rows[at].discovery == v
            &&& json::text_field(d, "first_seen_at"@) matches Some(v) ==> rows[at].first_seen == v
            &&& json::text_field(d, "last_seen_at"@) matches Some(v) ==> rows[at].last_seen == v
            &&& json::text_field(d, "observed_at"@) matches Some(v) ==> rows[at].power_observed_at
                == v
            &&& json::int_field(d, "hdmi_port"@) matches Some(p) ==> rows[at].hdmi_port == p
            &&& json::int_field(d, "hdmi_port"@) is None ==> rows[at].hdmi_port == 0
            &&& json::bool_field(d, "is_own"@) matches Some(o) ==> rows[at].is_own == o
            &&& rows[at].is_audio_system == (la == 5)
            &&& rows[at].is_ghost == (json::text_field(d, "discovery"@) == Some("observed"@))
            &&& la == active_source ==> rows[at].is_active_source
            &&& json::bool_field(d, "is_active_source"@) == Some(true) ==> rows[at].is_active_source
            &&& la != active_source && json::bool_field(d, "is_active_source"@) != Some(true)
                ==> !rows[at].is_active_source
        })),
        json::int_field(d, "logical_address"@) is None ==> device_rows(
            a + seq![d] + b,
            active_source,
        ) == device_rows(a + b, active_source),
        json::int_field(d, "logical_address"@) matches Some(la) ==> (la < 0 ==> device_rows(
            a + seq![d] + b,
            active_source,
        ) == device_rows(a + b, active_source)),
{
    let one = seq![d];
    lemma_rows_of_parts(a, one, active_source);
    lemma_rows_of_parts(a + one, b, active_source);
    lemma_rows_of_parts(a, b, active_source);
    assert(one.drop_last() =~= Seq::<JsonV>::empty());
    assert(one.last() == d);
    let none = device_rows(one.drop_last(), active_source);
    assert(none =~= Seq::<DeviceRowV>::empty());
    reveal_strlit("observed");
    match json::int_field(d, "logical_address"@) {
        Some(la) if la >= 0 => {
            let row = device_row(d, la, active_source);
            assert(device_rows(one, active_source) =~= seq![row]);
            let rows = device_rows(a + one + b, active_source);
            let at = device_rows(a, active_source).len() as int;
            assert(rows[at] == row);
        },
        _ => {
            assert(device_rows(a, active_source) + none =~= device_rows(a, active_source));
        },
    }
}

/// Without an adapter the banner shows a bus that is not ready, and its state as stale; with one
/// it shows what the bus tells.
pub proof fn law_banner_shows_the_bus(
    bus: BusV,
    scanned_at: Option<Seq<char>>,
    now: Timestamp,
    t: Seq<char>,
)
    ensures
        !banner(bus, false, scanned_at, now).cec_ready,
        banner(bus, false, scanned_at, now).stale,
        banner(bus, true, scanned_at, now).cec_ready == bus.cec_ready,
        banner(bus, true, scanned_at, now).stale == stale_at(bus, now),
        banner(bus, true, Some(t), now).last_full_scan == t,
        banner(bus, true, None, now).last_full_scan == "never"@,
        forall|ready: bool|
            ({
                let b = #[trigger] banner(bus, ready, scanned_at, now);
                &&& b.scan_in_progress == bus.scan_in_progress
                &&& b.monitoring == bus.monitoring
                &&& b.active_source == bus.active_source
                &&& b.device_count == bus.devices.len()
            }),
{
}

/// Keys can be sent to every device but the adapter's own ones, in the order of the list, and the
/// active source is selected.
pub proof fn law_keys_go_to_other_devices(rows: Seq<DeviceRowV>)
    ensures
        nav_targets(rows) == rows.filter(|d: DeviceRowV| !d.is_own).map_values(
            |d: DeviceRowV|
                NavTargetV {
                    la: d.logical_address,
                    label: d.display_name,
                    selected: d.is_active_source,
                },
        ),
    decreases rows.len(),
{
    reveal(Seq::filter);
    let name = |d: DeviceRowV|
        NavTargetV { la: d.logical_address, label: d.display_name, selected: d.is_active_source };
    let other = |d: DeviceRowV| !d.is_own;
    if rows.len() > 0 {
        law_keys_go_to_other_devices(rows.drop_last());
        let before = rows.drop_last().filter(other);
        assert(before.push(rows.last()).map_values(name) =~= before.map_values(name).push(
            name(rows.last()),
        ));
    } else {
        assert(nav_targets(rows) =~= rows.filter(other).map_values(name));
    }
}

/// The buttons of the ports are numbered from one without a gap.
pub proof fn law_port_buttons_count_up(n: int, i: int)
    requires
        0 <= i < n <= i64::MAX,
    ensures
        port_buttons(n).len() == n,
        port_buttons(n)[i].port == i + 1,
{
}

/// The remote control shows the volume of the audio system up to a hundred, and silence where it
/// is not known; the controls can be used exactly with an adapter.
pub proof fn law_remote_shows_the_volume(
    r: RemoteData,
    bus: BusV,
    ready: bool,
    audio: Option<(u8, bool, u8)>,
    scanned_at: Option<Seq<char>>,
    now: Timestamp,
)
    requires
        remote(r, bus, ready, audio, scanned_at, now),
    ensures
        r.audio_display_volume <= 100,
        audio matches Some((v, m, _)) ==> (v <= 100 ==> r.audio_display_volume == v) && (v > 100
            ==> r.audio_display_volume == 100) && r.audio_muted == m,
        audio is None ==> r.audio_display_volume == 0 && !r.audio_muted,
        r.audio_available == ready,
{
}

/// The feed tells each kind of event by what it is about; an event of another kind is told by its
/// kind alone.
pub proof fn law_feed_tells_what_happened(kind: Seq<char>, data: JsonV)
    ensures
        summary_text("power_change"@, data) == "device "@ + json::shown_field(data, "address"@)
            + " → "@ + json::shown_field(data, "status"@),
        summary_text("source_activated"@, data) == "active source → LA "@ + json::shown_field(
            data,
            "address"@,
        ),
        summary_text("key_press"@, data) == "key "@ + json::shown_field(data, "keycode"@) + " ("@
            + json::shown_field(data, "duration"@) + ")"@,
        summary_text("command"@, data) == json::shown_field(data, "initiator"@) + " → "@
            + json::shown_field(data, "destination"@) + " op "@ + json::shown_field(
            data,
            "opcode"@,
        ),
        summary_text("devices_changed"@, data) == "devices changed ("@ + json::shown_field(
            data,
            "reason"@,
        ) + ")"@,
        summary_text("adapter_state"@, data) == "adapter "@ + json::shown_field(data, "state"@),
        !(seq![
            "power_change"@,
            "source_activated"@,
            "key_press"@,
            "command"@,
            "devices_changed"@,
            "configuration_changed"@,
            "adapter_state"@,
        ]).contains(kind) ==> summary_text(kind, data) == kind,
{
    reveal_strlit("power_change");
    reveal_strlit("source_activated");
    reveal_strlit("key_press");
    reveal_strlit("command");
    reveal_strlit("devices_changed");
    reveal_strlit("configuration_changed");
    reveal_strlit("adapter_state");
    assert("power_change"@.len() == 12);
    assert("source_activated"@.len() == 16);
    assert("key_press"@.len() == 9);
    assert("command"@.len() == 7);
    assert("devices_changed"@.len() == 15);
    assert("configuration_changed"@.len() == 21);
    assert("adapter_state"@.len() == 13);
    let kinds = seq![
        "power_change"@,
        "source_activated"@,
        "key_press"@,
        "command"@,
        "devices_changed"@,
        "configuration_changed"@,
        "adapter_state"@,
    ];
    assert(kinds[0] == "power_change"@);
    assert(kinds[1] == "source_activated"@);
    assert(kinds[2] == "key_press"@);
    assert(kinds[3] == "command"@);
    assert(kinds[4] == "devices_changed"@);
    assert(kinds[5] == "configuration_changed"@);
    assert(kinds[6] == "adapter_state"@);
}

/// The time that a server has been up is shown in whole hours and the whole minutes beyond them,
/// with two digits for the minutes.
pub proof fn law_uptime_is_hours_and_minutes(hours: int, minutes: int, seconds: int)
    requires
        0 <= hours,
        0 <= minutes < 60,
        0 <= seconds < 60,
    ensures
        minutes >= 10 ==> uptime_text(hours * 3600 + minutes * 60 + seconds) == text::dec(
            hours as nat,
        ) + "h "@ + text::dec(minutes as nat) + "m"@,
        minutes < 10 ==> uptime_text(hours * 3600 + minutes * 60 + seconds) == text::dec(
            hours as nat,
        ) + "h "@ + ("0"@ + text::dec(minutes as nat)) + "m"@,
{
    let secs = hours * 3600 + minutes * 60 + seconds;
    assert(secs / 3600 == hours);
    assert(secs / 60 == hours * 60 + minutes);
    assert((hours * 60 + minutes) / 60 == hours);
}

/// The text that HTML text shows.
pub open spec fn html_shown(s: Seq<char>) -> Seq<char>
    decreases s.len(),
{
    if s.len() == 0 {
        Seq::empty()
    } else if s.len() >= 5 && s.take(5) == "&amp;"@ {
        seq!['&'] + html_shown(s.skip(5))
    } else if s.len() >= 4 && s.take(4) == "&lt;"@ {
        seq!['<'] + html_shown(s.skip(4))
    } else if s.len() >= 4 && s.take(4) == "&gt;"@ {
        seq!['>'] + html_shown(s.skip(4))
    } else {
        seq![s[0]] + html_shown(s.skip(1))
    }
}

proof fn lemma_escaped_parts(a: Seq<char>, b: Seq<char>)
    ensures
        escaped(a + b) == escaped(a) + escaped(b),
    decreases b.len(),
{
    if b.len() == 0 {
        assert(a + b =~= a);
        assert(escaped(a) + escaped(b) =~= escaped(a));
    } else {
        lemma_escaped_parts(a, b.drop_last());
        assert((a + b).drop_last() =~= a + b.drop_last());
        assert(escaped(a + b) =~= escaped(a) + escaped(b));
    }
}

/// A page shows an escaped text as the text that it was.
pub proof fn law_escaped_text_is_shown_as_it_was(s: Seq<char>)
    ensures
        html_shown(escaped(s)) == s,
    decreases s.len(),
{
    reveal_strlit("&amp;");
    reveal_strlit("&lt;");
    reveal_strlit("&gt;");
    if s.len() > 0 {
        let c = s[0];
        let rest = s.skip(1);
        let one = seq![c];
        assert(s =~= one + rest);
        lemma_escaped_parts(one, rest);
        assert(one.drop_last() =~= Seq::<char>::empty());
        assert(escaped(one.drop_last()) == Seq::<char>::empty());
        assert(escaped(one) =~= html_char(c));
        law_escaped_text_is_shown_as_it_was(rest);
        let e = html_char(c) + escaped(rest);
        assert(e[0] == html_char(c)[0]);
        if c == '&' {
            assert(e.take(5) =~= "&amp;"@);
            assert(e.skip(5) =~= escaped(rest));
        } else if c == '<' {
            assert(e.take(4) =~= "&lt;"@);
            assert(e[1] == 'l');
            if e.len() >= 5 && e.take(5) == "&amp;"@ {
                assert(e.take(5)[1] == 'a');
            }
            assert(e.skip(4) =~= escaped(rest));
        } else if c == '>' {
            assert(e.take(4) =~= "&gt;"@);
            assert(e[1] == 'g');
            if e.len() >= 5 && e.take(5) == "&amp;"@ {
                assert(e.take(5)[1] == 'a');
            }
            if e.len() >= 4 && e.take(4) == "&lt;"@ {
                assert(e.take(4)[1] == 'l');
            }
            assert(e.skip(4) =~= escaped(rest));
        } else {
            assert(e[0] == c);
            if e.len() >= 5 && e.take(5) == "&amp;"@ {
                assert(e.take(5)[0] == '&');
            }
            if e.len() >= 4 && e.take(4) == "&lt;"@ {
                assert(e.take(4)[0] == '&');
            }
            if e.len() >= 4 && e.take(4) == "&gt;"@ {
                assert(e.take(4)[0] == '&');
            }
            assert(e.skip(1) =~= escaped(rest));
        }
        assert(seq![c] + rest =~= s);
    }
}

/// An action that failed is answered with an error and its reason: as unavailable for want of an
/// adapter, and as a bad request for any other.
pub proof fn law_failed_actions_tell_the_reason(e: ExecError)
    ensures
        failure(e) matches ActionReplyV::Failed { reply, toast } && reply.body.status == "error"@
            && reply.body.message == exec_error_text(e) && toast == "err: "@ + exec_error_text(e)
            && reply.status == (if e is AdapterUnavailable {
            503int
        } else {
            400int
        }),
{
}

/// An action without an address is for the TV. A key goes to the device that is named, then to the
/// active source, and to the TV where neither is known.
pub proof fn law_actions_fall_back_to_the_tv(a: i32, active_source: int)
    requires
        i32::MIN <= active_source <= i32::MAX,
    ensures
        form_addr(AddrForm { addr: Some(a) }) == a,
        form_addr(AddrForm { addr: None }) == 0,
        a >= 0 ==> nav_addr(Some(a), active_source) == a,
        a < 0 ==> nav_addr(Some(a), active_source) == 0,
        active_source >= 0 ==> nav_addr(None, active_source) == active_source,
        active_source < 0 ==> nav_addr(None, active_source) == 0,
{
}

/// A login takes the configured token and the expected one, and nothing else; an empty token opens
/// nothing, whatever is configured.
pub proof fn law_login_takes_the_known_tokens(
    token: Seq<char>,
    configured: Seq<char>,
    expected: Seq<char>,
)
    ensures
        token.len() == 0 ==> !token_matches(token, configured, expected),
        token != configured && token != expected ==> !token_matches(token, configured, expected),
        token.len() > 0 ==> token_matches(token, token, expected) && token_matches(
            token,
            configured,
            token,
        ),
{
}

/// The cookie of a login names the token first, and keeps it from scripts and from other sites.
pub proof fn law_login_cookie_is_kept_from_others(token: Seq<char>)
    requires
        !token.contains(';'),
    ensures
        text::split_on(cookie_text(token), ';') == seq![
            "capi_token="@ + token,
            " Path=/"@,
            " HttpOnly"@,
            " SameSite=Lax"@,
        ],
{
    reveal_strlit("capi_token=");
    reveal_strlit("; Path=/; HttpOnly; SameSite=Lax");
    reveal_strlit(" Path=/");
    reveal_strlit(" HttpOnly");
    reveal_strlit(" SameSite=Lax");
    let a = "capi_token="@ + token;
    assert(!a.contains(';')) by {
        if a.contains(';') {
            let k = a.index_of(';');
            if k >= 11 {
                assert(token[k - 11] == ';');
            }
        }
    }
    let ab = a.push(';') + " Path=/"@;
    let abc = ab.push(';') + " HttpOnly"@;
    let abcd = abc.push(';') + " SameSite=Lax"@;
    assert(cookie_text(token) =~= abcd);
    text::lemma_split_single(a, ';');
    text::lemma_split_more(a, " Path=/"@, ';');
    text::lemma_split_more(ab, " HttpOnly"@, ';');
    text::lemma_split_more(abc, " SameSite=Lax"@, ';');
    assert(text::split_on(abcd, ';') =~= seq![a, " Path=/"@, " HttpOnly"@, " SameSite=Lax"@]);
}

/// The trace shows a frame with its operands in order.
pub proof fn law_trace_rows_show_their_frame(f: FrameV, time: Seq<char>)
    ensures
        frame_row(f, time).time == time,
        frame_row(f, time).initiator == f.initiator,
        frame_row(f, time).destination == f.destination,
        frame_row(f, time).opcode == f.opcode,
        frame_row(f, time).ack == f.ack,
        frame_row(f, time).params == text::joined(f.params_hex, " "@),
{
}

/// A note shows its title and the message as text: nothing in the message is markup, and a page
/// shows the message as it is.
pub proof fn law_notes_show_the_message(title: Seq<char>, message: Seq<char>)
    ensures
        note(title, message) matches ActionReplyV::Note { html, toast } && html
            == "<div class=\"action-note ok\">"@ + title + ": "@ + escaped(message) + "</div>"@
            && toast == "ok: "@ + message,
        html_shown(escaped(message)) == message,
{
    law_escaped_text_is_shown_as_it_was(message);
}

/// The device list tells how many rows it has.
pub proof fn law_device_list_tells_its_length(
    d: DevicesPanelData,
    devices: Seq<JsonV>,
    active_source: int,
)
    requires
        devices_panel(d, devices, active_source),
    ensures
        row_views(d.devices@) == device_rows(devices, active_source),
        d.message@ == "Live snapshot ("@ + text::dec(d.devices@.len()) + " devices)"@,
{
    assert(row_views(d.devices@).len() == d.devices@.len());
}

} // verus!
