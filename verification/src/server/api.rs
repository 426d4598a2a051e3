//! The JSON API. Malformed input is answered 400, a missing adapter 503, a failure of the bus 500
//! or 502.
//!
//! A handler either answers or says what is to be asked of the bus; a function with the same stem
//! answers with what came of that.

use crate::busstate::{ring_view, stale_at, BusState, BusV};
use crate::cec::session::{CecCall, Connection};
use crate::cec::types::{
    cec_error_text, device_object, power_status_display, transmit_fault, CecError, Command,
    CommandV, DeviceInfo, LogicalAddress, Opcode, PowerStatus,
};
use crate::events::{log_views, EventHub, LogMessage, LogMessageV, LogRing};
use crate::exec;
use crate::exec::{
    action_of_key, device_refusal, key_fault, sent_code, session_view, ExecError, KeyPlan,
};
use crate::json;
use crate::json::JsonV;
use crate::server::{
    accepted, accepted_reply, api_map_exec, err, err_reply, exec_reply, is_truthy, ok, ok_reply, truthy, unavailable, unavailable_reply, Reply, ReplyV,
};
use crate::strategies::action_form;
use crate::steward::{int_array, int_values, JobKind, StewardWait};
use crate::text;
use crate::time::{Duration, Timestamp};
use crate::topology::{
    build_from_snapshot, highest_port, labels_behind, own_addresses_of, TopologyPortRow,
};
use crate::types::{
    BusFrameEntry, FrameV, MqttConfig, MqttConfigV, ADAPTER_STATE, ALERT, COMMAND,
    CONFIGURATION_CHANGED, DEVICES_CHANGED, KEY_PRESS, POWER_CHANGE, SOURCE_ACTIVATED,
};
use crate::util::{parse_wait, wait_of};
use vstd::prelude::*;

verus! {

// ---------------------------------------------------------------------------
// Devices and bus
// ---------------------------------------------------------------------------

/// The query of a device list.
#[derive(Debug, Default)]
pub struct DevicesQuery {
    pub live: Option<String>,
    pub rescan: Option<String>,
    pub wait: Option<String>,
}

/// The longest wait for a scan, in seconds.
pub const MAX_DEVICE_WAIT_SECS: u64 = 10;

/// The wait for a scan that was asked for without one, in seconds.
pub const LIVE_WAIT_SECS: u64 = 5;

/// The scan that a device list asks for.
#[derive(Debug, Clone, Copy, PartialEq, Eq, Structural)]
pub struct ScanPlan {
    pub kind: JobKind,
    /// How long to wait for the scan; not at all where this is zero.
    pub wait: Duration,
    /// Whether the list is called live.
    pub live: bool,
}

/// Whether an optional query value means yes.
pub open spec fn asked(v: Option<String>) -> bool {
    match v {
        Some(s) => is_truthy(s@),
        None => false,
    }
}

/// Whether a full rebuild is asked for.
pub open spec fn forced(q: DevicesQuery) -> bool {
    asked(q.live) || asked(q.rescan)
}

/// The scan that a query asks for.
pub open spec fn scan_kind(q: DevicesQuery) -> JobKind {
    if forced(q) {
        JobKind::Full
    } else {
        JobKind::Light
    }
}

/// The wait that a query gives, in nanoseconds.
pub open spec fn asked_wait(q: DevicesQuery) -> Result<nat, Seq<char>> {
    match q.wait {
        Some(w) => wait_of(w@),
        None => Ok(0),
    }
}

/// How long the answer waits for the scan, in nanoseconds: as long as asked, at most ten seconds;
/// five where a rebuild was asked for and no wait.
pub open spec fn scan_wait(forced: bool, asked: nat) -> nat {
    if asked == 0 && forced {
        (LIVE_WAIT_SECS * 1_000_000_000) as nat
    } else if asked > MAX_DEVICE_WAIT_SECS * 1_000_000_000 {
        (MAX_DEVICE_WAIT_SECS * 1_000_000_000) as nat
    } else {
        asked
    }
}

/// No answer waits longer than ten seconds for a scan, and one that was asked for a rebuild waits.
pub proof fn law_scan_wait_is_bounded(forced: bool, asked: nat)
    ensures
        scan_wait(forced, asked) <= 10 * 1_000_000_000,
        scan_wait(forced, asked) == 0 <==> asked == 0 && !forced,
{
}

fn is_asked(v: &Option<String>) -> (r: bool)
    ensures
        r == asked(*v),
{
    match v {
        Some(s) => truthy(s.as_str()),
        None => false,
    }
}

/// `GET /api/devices`.
pub fn devices_handler(ready: bool, q: &DevicesQuery) -> (r: Result<ScanPlan, Reply>)
    ensures
        match r {
            Err(reply) => if !ready {
                reply@ == unavailable_reply()
            } else {
                asked_wait(*q) matches Err(e) && reply@ == err_reply(400, "invalid wait: "@ + e)
            },
            Ok(plan) => ready && plan.wait.wf() && plan.live == forced(*q) && plan.kind
                == scan_kind(*q) && (asked_wait(*q) matches Ok(w) && plan.wait@ == scan_wait(forced(*q), w)),
        },
{
    if !ready {
        return Err(unavailable());
    }
    let wait = match &q.wait {
        Some(w) => match parse_wait(w.as_str()) {
            Ok(d) => d,
            Err(e) => {
                return Err(err(400, text::concat("invalid wait: ", e.as_str()).as_str()));
            },
        },
        None => Duration::zero(),
    };
    let live = is_asked(&q.live) || is_asked(&q.rescan);
    let longest = Duration::from_secs(MAX_DEVICE_WAIT_SECS);
    let wait = if wait.is_zero() && live {
        Duration::from_secs(LIVE_WAIT_SECS)
    } else if wait.at_least(longest) {
        longest
    } else {
        wait
    };
    Ok(ScanPlan { kind: if live { JobKind::Full } else { JobKind::Light }, wait, live })
}

/// The answer with a device list.
pub open spec fn devices_answer(
    live: bool,
    outcome: Result<(), StewardWait>,
    devices: Seq<JsonV>,
) -> ReplyV {
    match outcome {
        Ok(()) => ok_reply(
            if live {
                "Devices retrieved (live)"@
            } else {
                "Devices retrieved (cache)"@
            },
            Some(JsonV::Array(devices)),
        ),
        Err(StewardWait::QueueFull) => err_reply(503, "Bus steward queue full; retry shortly"@),
        Err(StewardWait::Timeout) => err_reply(
            504,
            "Device scan timed out; partial result via /api/bus/state"@,
        ),
    }
}

/// Answers a device list, once the scan is over or, where there is no wait, at once.
pub fn devices_reply(
    bus: &BusState,
    live: bool,
    outcome: Result<(), StewardWait>,
    now: Timestamp,
) -> (r: Reply)
    ensures
        r@ == devices_answer(live, outcome, bus@.devices),
{
    match outcome {
        Ok(()) => {
            let snap = bus.copy_snapshot(now);
            let message = if live { "Devices retrieved (live)" } else { "Devices retrieved (cache)" };
            ok(message, Some(json::array(snap.devices)))
        },
        Err(StewardWait::QueueFull) => err(503, "Bus steward queue full; retry shortly"),
        Err(StewardWait::Timeout) => err(
            504,
            "Device scan timed out; partial result via /api/bus/state",
        ),
    }
}

/// The number that a path names, if it lies in `min..=max`.
pub open spec fn path_number(path: Seq<char>, min: int, max: int) -> Option<int> {
    match text::parse_int(path, i32::MIN as int, i32::MAX as int) {
        Some(n) if min <= n <= max => Some(n),
        _ => None,
    }
}

fn number_in(path: &str, min: i32, max: i32) -> (r: Option<i32>)
    ensures
        match r {
            Some(n) => path_number(path@, min as int, max as int) == Some(n as int),
            None => path_number(path@, min as int, max as int) is None,
        },
{
    match text::parse_i64(path, i32::MIN as i64, i32::MAX as i64) {
        Some(n) if min as i64 <= n && n <= max as i64 => Some(n as i32),
        _ => None,
    }
}

/// `GET /api/devices/{address}`: the device to ask about.
pub fn device_handler(session: Option<&Connection>, path: &str) -> (r: Result<
    LogicalAddress,
    Reply,
>)
    ensures
        match (path_number(path@, 0, 14), r) {
            (None, Err(reply)) => reply@ == err_reply(400, "invalid logical address"@),
            (Some(_), Err(reply)) => session is None && reply@ == unavailable_reply(),
            (Some(a), Ok(address)) => session is Some && address.0 == a,
            (None, Ok(_)) => false,
        },
{
    match number_in(path, 0, 14) {
        None => Err(err(400, "invalid logical address")),
        Some(a) => if session.is_none() {
            Err(unavailable())
        } else {
            Ok(LogicalAddress(a as u8))
        },
    }
}

/// The answer to a failure of the bus.
pub open spec fn bus_failure(e: CecError) -> ReplyV {
    err_reply(500, cec_error_text(e))
}

fn failed(e: &CecError) -> (r: Reply)
    ensures
        r@ == bus_failure(*e),
{
    err(500, e.to_string().as_str())
}

/// Answers with what a device said of itself.
pub fn device_reply(info: &Result<DeviceInfo, CecError>) -> (r: Reply)
    ensures
        r@ == (match *info {
            Ok(i) => ok_reply("Device retrieved"@, Some(JsonV::Object(device_object(i)))),
            Err(e) => bus_failure(e),
        }),
{
    match info {
        Ok(i) => ok("Device retrieved", Some(json::object_value(i.to_map()))),
        Err(e) => failed(e),
    }
}

/// The body of the bus state.
pub open spec fn bus_state_object(bus: BusV, now: Timestamp) -> Map<Seq<char>, JsonV> {
    json::no_fields().insert("devices"@, JsonV::Array(bus.devices)).insert(
        "logical_addresses"@,
        JsonV::Array(int_values(bus.addresses)),
    ).insert("active_source"@, JsonV::Int(bus.active_source as int)).insert(
        "cec_ready"@,
        JsonV::Bool(bus.cec_ready),
    ).insert("monitoring"@, JsonV::Bool(bus.monitoring)).insert(
        "scan_in_progress"@,
        JsonV::Bool(bus.scan_in_progress),
    ).insert("stale"@, JsonV::Bool(stale_at(bus, now))).insert(
        "last_full_scan_at"@,
        match bus.last_full_scan_at {
            Some(t) => JsonV::Text(t.text()),
            None => JsonV::Null,
        },
    ).insert("stale_threshold_sec"@, JsonV::Int(bus.stale_threshold_sec as int)).insert(
        "generation"@,
        JsonV::Int(bus.generation as int),
    )
}

/// `GET /api/bus/state`.
pub fn bus_state_handler(bus: &BusState, now: Timestamp) -> (r: Reply)
    ensures
        r@ == ok_reply("Bus state"@, Some(JsonV::Object(bus_state_object(bus@, now)))),
{
    let snap = bus.copy_snapshot(now);
    let mut m = json::new_object();
    let addresses = int_array(&snap.logical_addresses);
    json::insert(&mut m, "devices", json::array(snap.devices));
    json::insert(&mut m, "logical_addresses", addresses);
    json::insert(&mut m, "active_source", json::integer(snap.active_source as i64));
    json::insert(&mut m, "cec_ready", json::boolean(snap.cec_ready));
    json::insert(&mut m, "monitoring", json::boolean(snap.monitoring));
    json::insert(&mut m, "scan_in_progress", json::boolean(snap.scan_in_progress));
    json::insert(&mut m, "stale", json::boolean(snap.stale));
    let scanned = match snap.last_full_scan_at {
        Some(t) => json::text(t.to_rfc3339().as_str()),
        None => json::null(),
    };
    json::insert(&mut m, "last_full_scan_at", scanned);
    json::insert(&mut m, "stale_threshold_sec", json::integer(snap.stale_threshold_sec));
    json::insert(&mut m, "generation", json::integer(snap.generation));
    ok("Bus state", Some(json::object_value(m)))
}

/// `POST /api/bus/scan`: answers once the scan was put to the queue.
pub fn bus_scan_handler(enqueued: bool) -> (r: Reply)
    ensures
        r@ == (if enqueued {
            accepted_reply(
                "Scan queued"@,
                Some(JsonV::Object(json::no_fields().insert("accepted"@, JsonV::Bool(true)))),
            )
        } else {
            err_reply(503, "Bus steward queue full; retry shortly"@)
        }),
{
    if enqueued {
        let mut m = json::new_object();
        json::insert(&mut m, "accepted", json::boolean(true));
        accepted("Scan queued", Some(json::object_value(m)))
    } else {
        err(503, "Bus steward queue full; retry shortly")
    }
}

/// One port of the topology.
pub open spec fn port_object(devices: Seq<JsonV>, port: int) -> JsonV {
    JsonV::Object(
        json::no_fields().insert("port"@, JsonV::Int(port)).insert(
            "devices"@,
            JsonV::Array(json::text_values(labels_behind(devices, port))),
        ),
    )
}

/// The body of the topology.
pub open spec fn topology_object(devices: Seq<JsonV>) -> Map<Seq<char>, JsonV> {
    json::no_fields().insert(
        "own_addresses"@,
        JsonV::Array(int_values(own_addresses_of(devices))),
    ).insert("known_port_count"@, JsonV::Int(highest_port(devices, 4))).insert(
        "ports"@,
        JsonV::Array(
            Seq::new(highest_port(devices, 4) as nat, |i: int| port_object(devices, i + 1)),
        ),
    )
}

fn port_row(row: &TopologyPortRow) -> (r: serde_json::Value)
    ensures
        json::json(r) == JsonV::Object(
            json::no_fields().insert("port"@, JsonV::Int(row.port as int)).insert(
                "devices"@,
                JsonV::Array(json::text_values(text::views(row.devices@))),
            ),
        ),
{
    let mut m = json::new_object();
    json::insert(&mut m, "port", json::integer(row.port));
    json::insert(&mut m, "devices", json::text_array(&row.devices));
    json::object_value(m)
}

/// `GET /api/topology`: from the cached devices, never by the bus.
pub fn topology_handler(bus: &BusState, now: Timestamp) -> (r: Reply)
    ensures
        r@ == ok_reply("Topology"@, Some(JsonV::Object(topology_object(bus@.devices)))),
{
    let topo = build_from_snapshot(bus, now);
    let ghost rows = Seq::new(
        highest_port(bus@.devices, 4) as nat,
        |i: int| port_object(bus@.devices, i + 1),
    );
    let mut list: Vec<serde_json::Value> = Vec::new();
    let mut i: usize = 0;
    while i < topo.ports.len()
        invariant
            i <= topo.ports@.len() == rows.len(),
            rows == Seq::new(
                highest_port(bus@.devices, 4) as nat,
                |i: int| port_object(bus@.devices, i + 1),
            ),
            forall|k: int|
                0 <= k < topo.ports@.len() ==> (#[trigger] topo.ports@[k]).port == k + 1
                    && text::views(topo.ports@[k].devices@) == labels_behind(bus@.devices, k + 1),
            json::jsons(list@) == rows.take(i as int),
        decreases topo.ports@.len() - i,
    {
        let ghost before = list@;
        list.push(port_row(&topo.ports[i]));
        i += 1;
        assert(json::jsons(list@) =~= json::jsons(before).push(rows[i - 1]));
        assert(json::jsons(list@) =~= rows.take(i as int));
    }
    assert(rows.take(i as int) =~= rows);
    let mut m = json::new_object();
    json::insert(&mut m, "own_addresses", int_array(&topo.own_addresses));
    json::insert(&mut m, "known_port_count", json::integer(topo.known_port_count));
    json::insert(&mut m, "ports", json::array(list));
    ok("Topology", Some(json::object_value(m)))
}

/// The fields of a frame.
pub open spec fn frame_fields(f: FrameV) -> Map<Seq<char>, JsonV> {
    json::no_fields().insert("timestamp"@, JsonV::Text(f.timestamp.utc_text())).insert(
        "initiator"@,
        JsonV::Int(f.initiator),
    ).insert("destination"@, JsonV::Int(f.destination)).insert(
        "opcode"@,
        JsonV::Text(f.opcode),
    ).insert("ack"@, JsonV::Bool(f.ack)).insert("eom"@, JsonV::Bool(f.eom)).insert(
        "opcode_set"@,
        JsonV::Bool(f.opcode_set),
    ).insert("params_hex"@, JsonV::Array(json::text_values(f.params_hex)))
}

/// One frame with its sequence number.
pub open spec fn frame_object(seq_no: u64, f: FrameV) -> JsonV {
    JsonV::Object(frame_fields(f).insert("seq"@, JsonV::Int(seq_no as int)))
}

/// The frames of a ring.
pub open spec fn frame_objects(ring: Seq<(u64, FrameV)>) -> Seq<JsonV> {
    ring.map_values(|e: (u64, FrameV)| frame_object(e.0, e.1))
}

/// The JSON fields of a frame.
pub fn frame_map(f: &BusFrameEntry) -> (r: serde_json::Map<String, serde_json::Value>)
    ensures
        json::object(r) == frame_fields(f@),
{
    let mut m = json::new_object();
    json::insert(&mut m, "timestamp", json::text(f.timestamp.to_rfc3339_utc().as_str()));
    json::insert(&mut m, "initiator", json::integer(f.initiator as i64));
    json::insert(&mut m, "destination", json::integer(f.destination as i64));
    json::insert(&mut m, "opcode", json::text(f.opcode.as_str()));
    json::insert(&mut m, "ack", json::boolean(f.ack));
    json::insert(&mut m, "eom", json::boolean(f.eom));
    json::insert(&mut m, "opcode_set", json::boolean(f.opcode_set));
    json::insert(&mut m, "params_hex", json::text_array(&f.params_hex));
    m
}

fn frame_value(seq_no: u64, f: &BusFrameEntry) -> (r: serde_json::Value)
    ensures
        json::json(r) == frame_object(seq_no, f@),
{
    let mut m = frame_map(f);
    json::insert(&mut m, "seq", json::unsigned(seq_no));
    json::object_value(m)
}

/// `GET /api/bus/frames`.
pub fn bus_frames_handler(bus: &BusState) -> (r: Reply)
    ensures
        r@ == ok_reply("Frames"@, Some(JsonV::Array(frame_objects(bus@.ring)))),
{
    let frames = bus.numbered_frames();
    let ghost all = frame_objects(ring_view(frames@));
    let mut list: Vec<serde_json::Value> = Vec::new();
    let mut i: usize = 0;
    while i < frames.len()
        invariant
            i <= frames@.len(),
            all == frame_objects(ring_view(frames@)),
            json::jsons(list@) == all.take(i as int),
        decreases frames@.len() - i,
    {
        let ghost before = list@;
        list.push(frame_value(frames[i].0, &frames[i].1));
        i += 1;
        assert(json::jsons(list@) =~= json::jsons(before).push(all[i - 1]));
        assert(json::jsons(list@) =~= all.take(i as int));
    }
    assert(all.take(i as int) =~= all);
    ok("Frames", Some(json::array(list)))
}

// ---------------------------------------------------------------------------
// Power
// ---------------------------------------------------------------------------

/// The address that an optional path names; the default where there is no path.
pub open spec fn addr_of(path: Option<Seq<char>>, dflt: int) -> Option<int> {
    match path {
        Some(p) => path_number(p, i32::MIN as int, i32::MAX as int),
        None => Some(dflt),
    }
}

/// What an optional path holds.
pub open spec fn path_view(path: Option<&str>) -> Option<Seq<char>> {
    match path {
        Some(p) => Some(p@),
        None => None,
    }
}

fn optional_addr(path: Option<&str>, dflt: i32) -> (r: Option<i32>)
    ensures
        match r {
            Some(a) => addr_of(path_view(path), dflt as int) == Some(a as int),
            None => addr_of(path_view(path), dflt as int) is None,
        },
{
    match path {
        Some(p) => number_in(p, i32::MIN, i32::MAX),
        None => Some(dflt),
    }
}

/// The call for a device, or the answer where it is not made: the address must be a number in
/// 0..=14, and there must be an opened session.
pub open spec fn device_request(
    session: Option<Connection>,
    addr: Option<int>,
    call: CecCall,
) -> Result<CecCall, ReplyV> {
    match addr {
        None => Err(err_reply(400, "invalid logical address"@)),
        Some(a) => match device_refusal(session, a as i32) {
            Some(e) => Err(exec_reply(e)),
            None => match session->0.device_fault(LogicalAddress(a as u8)) {
                Some(e) => Err(exec_reply(ExecError::Cec(e))),
                None => Ok(call),
            },
        },
    }
}

/// `POST /api/power/on` and `POST /api/power/on/{address}`: the device and the call.
pub fn power_on_handler(session: Option<&Connection>, path: Option<&str>) -> (r: Result<
    (i32, CecCall),
    Reply,
>)
    ensures
        ({
            let addr = addr_of(path_view(path), 0);
            let call = CecCall::PowerOn { address: addr->0 as u8 };
            match r {
                Ok((a, c)) => addr == Some(a as int) && device_request(
                    session_view(session),
                    addr,
                    call,
                ) == Ok::<CecCall, ReplyV>(c),
                Err(reply) => device_request(session_view(session), addr, call) == Err::<
                    CecCall,
                    ReplyV,
                >(reply@),
            }
        }),
{
    match optional_addr(path, 0) {
        None => Err(err(400, "invalid logical address")),
        Some(a) => match exec::power_on(session, a) {
            Ok(c) => Ok((a, c)),
            Err(e) => Err(api_map_exec(&e)),
        },
    }
}

/// `POST /api/power/off` and `POST /api/power/off/{address}`: the device and the call.
pub fn power_off_handler(session: Option<&Connection>, path: Option<&str>) -> (r: Result<
    (i32, CecCall),
    Reply,
>)
    ensures
        ({
            let addr = addr_of(path_view(path), 0);
            let call = CecCall::Standby { address: addr->0 as u8 };
            match r {
                Ok((a, c)) => addr == Some(a as int) && device_request(
                    session_view(session),
                    addr,
                    call,
                ) == Ok::<CecCall, ReplyV>(c),
                Err(reply) => device_request(session_view(session), addr, call) == Err::<
                    CecCall,
                    ReplyV,
                >(reply@),
            }
        }),
{
    match optional_addr(path, 0) {
        None => Err(err(400, "invalid logical address")),
        Some(a) => match exec::power_off(session, a) {
            Ok(c) => Ok((a, c)),
            Err(e) => Err(api_map_exec(&e)),
        },
    }
}

/// `GET /api/power/status` and `GET /api/power/status/{address}`: the device and the call.
pub fn power_status_handler(session: Option<&Connection>, path: Option<&str>) -> (r: Result<
    (i32, CecCall),
    Reply,
>)
    ensures
        ({
            let addr = addr_of(path_view(path), 0);
            let call = CecCall::PowerStatus { address: addr->0 as u8 };
            match r {
                Ok((a, c)) => addr == Some(a as int) && device_request(
                    session_view(session),
                    addr,
                    call,
                ) == Ok::<CecCall, ReplyV>(c),
                Err(reply) => device_request(session_view(session), addr, call) == Err::<
                    CecCall,
                    ReplyV,
                >(reply@),
            }
        }),
{
    match optional_addr(path, 0) {
        None => Err(err(400, "invalid logical address")),
        Some(a) => match exec::power_status(session, a) {
            Ok(c) => Ok((a, c)),
            Err(e) => Err(api_map_exec(&e)),
        },
    }
}

/// The answer to a command: a message that ends with a number, or the failure.
pub open spec fn command_answer(
    message: Seq<char>,
    n: i32,
    outcome: Result<(), CecError>,
) -> ReplyV {
    match outcome {
        Ok(()) => ok_reply(message + text::dec_int(n as int), None),
        Err(e) => bus_failure(e),
    }
}

fn command_reply(message: &str, n: i32, outcome: &Result<(), CecError>) -> (r: Reply)
    ensures
        r@ == command_answer(message@, n, *outcome),
{
    match outcome {
        Ok(()) => ok(text::concat(message, text::dec_i64(n as i64).as_str()).as_str(), None),
        Err(e) => failed(e),
    }
}

/// Answers a power-on.
pub fn power_on_reply(addr: i32, outcome: &Result<(), CecError>) -> (r: Reply)
    ensures
        r@ == command_answer("Power on command sent to device "@, addr, *outcome),
{
    command_reply("Power on command sent to device ", addr, outcome)
}

/// Answers a standby.
pub fn power_off_reply(addr: i32, outcome: &Result<(), CecError>) -> (r: Reply)
    ensures
        r@ == command_answer("Standby command sent to device "@, addr, *outcome),
{
    command_reply("Standby command sent to device ", addr, outcome)
}

/// Answers with a power status.
pub fn power_status_reply(addr: i32, status: &Result<PowerStatus, CecError>) -> (r: Reply)
    ensures
        r@ == (match *status {
            Ok(p) => ok_reply(
                "Power status retrieved"@,
                Some(
                    JsonV::Object(
                        json::no_fields().insert("address"@, JsonV::Int(addr as int)).insert(
                            "status"@,
                            JsonV::Text(power_status_display(p.0)),
                        ),
                    ),
                ),
            ),
            Err(e) => bus_failure(e),
        }),
{
    match status {
        Ok(p) => {
            let mut m = json::new_object();
            json::insert(&mut m, "address", json::integer(addr as i64));
            json::insert(&mut m, "status", json::text(p.to_string().as_str()));
            ok("Power status retrieved", Some(json::object_value(m)))
        },
        Err(e) => failed(e),
    }
}

// ---------------------------------------------------------------------------
// Volume
// ---------------------------------------------------------------------------

/// The query of a volume command.
#[derive(Debug, Default)]
pub struct VolumeQuery {
    pub address: Option<String>,
}

/// What a volume command names as its device: the path, or the query where there is no path. A
/// blank query names none.
pub open spec fn volume_name(path: Option<Seq<char>>, q: VolumeQuery) -> Option<Seq<char>> {
    match path {
        Some(p) => Some(p),
        None => match q.address {
            Some(s) if text::trimmed(s@).len() > 0 => Some(s@),
            _ => None,
        },
    }
}

/// A volume command: its device, or none for the system audio path.
pub fn volume(session: Option<&Connection>, path: Option<&str>, q: &VolumeQuery) -> (r: Result<
    Option<LogicalAddress>,
    Reply,
>)
    ensures
        ({
            let name = volume_name(path_view(path), *q);
            let addr = match name {
                Some(s) => path_number(s, 0, 14),
                None => None,
            };
            match r {
                Ok(target) => session is Some && (match target {
                    Some(a) => name is Some && addr == Some(a.0 as int),
                    None => name is None,
                }),
                Err(reply) => if name is Some && addr is None {
                    reply@ == err_reply(400, "invalid logical address"@)
                } else {
                    session is None && reply@ == unavailable_reply()
                },
            }
        }),
{
    let name: Option<&str> = match path {
        Some(p) => Some(p),
        None => match &q.address {
            Some(s) => if text::trim(s.as_str()).is_empty() {
                None
            } else {
                Some(s.as_str())
            },
            None => None,
        },
    };
    let target = match name {
        None => None,
        Some(s) => match number_in(s, 0, 14) {
            Some(a) => Some(LogicalAddress(a as u8)),
            None => {
                return Err(err(400, "invalid logical address"));
            },
        },
    };
    if session.is_none() {
        return Err(unavailable());
    }
    Ok(target)
}

/// Answers a command that ends in a message.
pub fn summary_reply(outcome: &Result<String, ExecError>) -> (r: Reply)
    ensures
        r@ == (match *outcome {
            Ok(m) => ok_reply(m@, None),
            Err(e) => exec_reply(e),
        }),
{
    match outcome {
        Ok(m) => ok(m.as_str(), None),
        Err(e) => api_map_exec(e),
    }
}

// ---------------------------------------------------------------------------
// Source, HDMI and audio
// ---------------------------------------------------------------------------

/// The body of an active source.
pub open spec fn source_object(n: int) -> JsonV {
    JsonV::Object(json::no_fields().insert("active_source"@, JsonV::Int(n)))
}

/// `GET /api/source/active`: the session's answer; `None` where there is no session.
pub fn active_source_handler(source: &Option<Result<LogicalAddress, CecError>>) -> (r: Reply)
    ensures
        r@ == (match *source {
            None => unavailable_reply(),
            Some(Ok(a)) => ok_reply("Active source retrieved"@, Some(source_object(a.0 as int))),
            Some(Err(CecError::NoActiveSource)) => ok_reply(
                "No active source"@,
                Some(source_object(-1)),
            ),
            Some(Err(e)) => bus_failure(e),
        }),
{
    match source {
        None => unavailable(),
        Some(Ok(a)) => {
            let mut m = json::new_object();
            json::insert(&mut m, "active_source", json::integer(a.0 as i64));
            ok("Active source retrieved", Some(json::object_value(m)))
        },
        Some(Err(CecError::NoActiveSource)) => {
            let mut m = json::new_object();
            json::insert(&mut m, "active_source", json::integer(-1));
            ok("No active source", Some(json::object_value(m)))
        },
        Some(Err(e)) => failed(e),
    }
}

/// `POST /api/source/{address}`: the device and the call that begins the switch.
pub fn set_source_handler(session: Option<&Connection>, path: &str) -> (r: Result<
    (i32, CecCall),
    Reply,
>)
    ensures
        ({
            let addr = path_number(path@, 0, 14);
            let call = CecCall::PhysicalAddress { address: addr->0 as u8 };
            match r {
                Ok((a, c)) => addr == Some(a as int) && device_request(
                    session_view(session),
                    addr,
                    call,
                ) == Ok::<CecCall, ReplyV>(c),
                Err(reply) => device_request(session_view(session), addr, call) == Err::<
                    CecCall,
                    ReplyV,
                >(reply@),
            }
        }),
{
    match number_in(path, 0, 14) {
        None => Err(err(400, "invalid logical address")),
        Some(a) => match exec::set_active_source(session, a) {
            Ok(c) => Ok((a, c)),
            Err(e) => Err(api_map_exec(&e)),
        },
    }
}

/// Answers a switch to a device.
pub fn set_source_reply(addr: i32, outcome: &Result<(), CecError>) -> (r: Reply)
    ensures
        r@ == command_answer("Source switched to device "@, addr, *outcome),
{
    command_reply("Source switched to device ", addr, outcome)
}

/// `POST /api/hdmi/{port}`: the port to switch to.
pub fn hdmi_port_handler(session: Option<&Connection>, path: &str) -> (r: Result<
    (i32, CecCall),
    Reply,
>)
    ensures
        match path_number(path@, 1, 15) {
            None => r matches Err(reply) && reply@ == err_reply(400, "invalid HDMI port"@),
            Some(p) => match session_view(session) {
                None => r matches Err(reply) && reply@ == unavailable_reply(),
                Some(c) => match exec::port_fault(c) {
                    Some(e) => r matches Err(reply) && reply@ == bus_failure(e),
                    None => r == Ok::<(i32, CecCall), Reply>(
                        (p as i32, CecCall::SetHdmiPort { base_device: 0, port: p as u8 }),
                    ),
                },
            },
        },
{
    match number_in(path, 1, 15) {
        None => Err(err(400, "invalid HDMI port")),
        Some(p) => match exec::hdmi_port(session, p) {
            Ok(c) => Ok((p, c)),
            Err(e) => Err(api_map_exec(&e)),
        },
    }
}

/// Answers a switch to a port.
pub fn hdmi_port_reply(port: i32, outcome: &Result<(), CecError>) -> (r: Reply)
    ensures
        r@ == command_answer("Switched to HDMI port "@, port, *outcome),
{
    command_reply("Switched to HDMI port ", port, outcome)
}

/// `GET /api/audio/status`: the adapter's volume, mute state and raw status, if it gave them.
pub fn audio_status_handler(status: Option<(u8, bool, u8)>) -> (r: Reply)
    ensures
        ({
            let (volume, muted, raw) = match status {
                Some(s) => s,
                None => (0, false, 0),
            };
            r@ == ok_reply(
                "Audio status"@,
                Some(
                    JsonV::Object(
                        json::no_fields().insert("volume"@, JsonV::Int(volume as int)).insert(
                            "muted"@,
                            JsonV::Bool(muted),
                        ).insert("raw"@, JsonV::Int(raw as int)),
                    ),
                ),
            )
        }),
{
    let (volume, muted, raw) = exec::audio_status(status);
    let mut m = json::new_object();
    json::insert(&mut m, "volume", json::integer(volume as i64));
    json::insert(&mut m, "muted", json::boolean(muted));
    json::insert(&mut m, "raw", json::integer(raw as i64));
    ok("Audio status", Some(json::object_value(m)))
}

// ---------------------------------------------------------------------------
// Keys and raw commands
// ---------------------------------------------------------------------------

/// The body of a key press. A field that the client leaves out is 0 or empty.
#[derive(Debug)]
pub struct KeyRequest {
    pub address: i32,
    pub key: String,
    pub keycode: i32,
}

/// `POST /api/key`: how the key is sent. Bad arguments are refused as such even where there is no
/// adapter.
pub fn send_key_handler(session: Option<&Connection>, req: Option<&KeyRequest>) -> (r: Result<
    KeyPlan,
    Reply,
>)
    ensures
        match req {
            None => r matches Err(reply) && reply@ == err_reply(400, "invalid request body"@),
            Some(k) => match key_fault(k.address, k.key@, k.keycode) {
                Some(e) => r matches Err(reply) && reply@ == exec_reply(e),
                None => match session_view(session) {
                    None => r matches Err(reply) && reply@ == unavailable_reply(),
                    Some(c) => match action_of_key(action_form(k.key@)) {
                        Some(action) if k.key@.len() > 0 => r == Ok::<KeyPlan, Reply>(
                            KeyPlan::Run { action, target: LogicalAddress(k.address as u8) },
                        ),
                        _ => match c.send_fault(LogicalAddress(k.address as u8)) {
                            Some(e) => r matches Err(reply) && reply@ == bus_failure(e),
                            None => r == Ok::<KeyPlan, Reply>(
                                KeyPlan::Press {
                                    call: CecCall::SendKeypress {
                                        address: k.address as u8,
                                        key: sent_code(k.key@, k.keycode).0,
                                        wait: true,
                                    },
                                },
                            ),
                        },
                    },
                },
            },
        },
{
    match req {
        None => Err(err(400, "invalid request body")),
        Some(k) => match exec::send_key(session, k.address, k.key.as_str(), k.keycode) {
            Ok(plan) => Ok(plan),
            Err(e) => Err(api_map_exec(&e)),
        },
    }
}

/// The body of a raw command.
#[derive(Debug)]
pub struct RawCommandRequest {
    pub initiator: i32,
    pub destination: i32,
    pub opcode: i32,
    pub parameters: Vec<u8>,
}

/// The most parameter bytes that a raw command may have.
pub const MAX_CEC_PARAMETERS: usize = 14;

/// What is wrong with a raw command.
pub open spec fn raw_fault(req: RawCommandRequest) -> Option<Seq<char>> {
    if !(0 <= req.initiator <= 15) {
        Some("invalid initiator logical address (must be 0-15)"@)
    } else if !(0 <= req.destination <= 15) {
        Some("invalid destination logical address (must be 0-15)"@)
    } else if !(0 <= req.opcode <= 255) {
        Some("invalid opcode (must be 0-255)"@)
    } else if req.parameters@.len() > MAX_CEC_PARAMETERS {
        Some("too many parameters (max 14)"@)
    } else {
        None
    }
}

/// The frame of a raw command.
pub open spec fn raw_command(req: RawCommandRequest) -> CommandV {
    CommandV {
        initiator: req.initiator as u8,
        destination: req.destination as u8,
        opcode: req.opcode as u8,
        opcode_set: true,
        parameters: req.parameters@,
        ack: false,
        eom: true,
    }
}

/// The answer to a raw command that failed.
pub open spec fn raw_failure(e: CecError) -> ReplyV {
    match e {
        CecError::AdapterNotOpen => unavailable_reply(),
        _ => bus_failure(e),
    }
}

fn raw_failed(e: &CecError) -> (r: Reply)
    ensures
        r@ == raw_failure(*e),
{
    match e {
        CecError::AdapterNotOpen => unavailable(),
        _ => failed(e),
    }
}

/// `POST /api/command`: the frame to transmit.
pub fn raw_command_handler(session: Option<&Connection>, req: Option<RawCommandRequest>) -> (r:
    Result<CecCall, Reply>)
    ensures
        match req {
            None => r matches Err(reply) && reply@ == err_reply(400, "invalid request body"@),
            Some(q) => match raw_fault(q) {
                Some(m) => r matches Err(reply) && reply@ == err_reply(400, m),
                None => match session_view(session) {
                    None => r matches Err(reply) && reply@ == unavailable_reply(),
                    Some(c) => if c.monitor_only {
                        r matches Err(reply) && reply@ == bus_failure(CecError::MonitorOnly)
                    } else {
                        match c.bus_fault() {
                            Some(e) => r matches Err(reply) && reply@ == raw_failure(e),
                            None => r matches Ok(CecCall::Transmit { command }) && command@
                                == raw_command(q),
                        }
                    },
                },
            },
        },
{
    let q = match req {
        None => {
            return Err(err(400, "invalid request body"));
        },
        Some(q) => q,
    };
    if !(0 <= q.initiator && q.initiator <= 15) {
        return Err(err(400, "invalid initiator logical address (must be 0-15)"));
    }
    if !(0 <= q.destination && q.destination <= 15) {
        return Err(err(400, "invalid destination logical address (must be 0-15)"));
    }
    if !(0 <= q.opcode && q.opcode <= 255) {
        return Err(err(400, "invalid opcode (must be 0-255)"));
    }
    if q.parameters.len() > MAX_CEC_PARAMETERS {
        return Err(err(400, "too many parameters (max 14)"));
    }
    let c = match session {
        None => {
            return Err(unavailable());
        },
        Some(c) => c,
    };
    let cmd = Command {
        initiator: LogicalAddress(q.initiator as u8),
        destination: LogicalAddress(q.destination as u8),
        opcode: Opcode(q.opcode as u8),
        opcode_set: true,
        parameters: q.parameters,
        ack: false,
        eom: true,
    };
    assert(transmit_fault(cmd@) is None);
    match c.transmit(&cmd) {
        Ok(call) => Ok(call),
        Err(e) => Err(raw_failed(&e)),
    }
}

/// Answers a raw command that was transmitted.
pub fn raw_command_reply(outcome: &Result<(), CecError>) -> (r: Reply)
    ensures
        r@ == (match *outcome {
            Ok(()) => ok_reply("Raw command sent"@, None),
            Err(e) => raw_failure(e),
        }),
{
    match outcome {
        Ok(()) => ok("Raw command sent", None),
        Err(e) => raw_failed(e),
    }
}

// ---------------------------------------------------------------------------
// Logs, health and updates
// ---------------------------------------------------------------------------

/// One log line.
pub open spec fn log_object(m: LogMessageV) -> JsonV {
    JsonV::Object(
        json::no_fields().insert("timestamp"@, JsonV::Text(m.timestamp)).insert(
            "level"@,
            JsonV::Text(m.level),
        ).insert("message"@, JsonV::Text(m.message)),
    )
}

/// The log lines.
pub open spec fn log_objects(v: Seq<LogMessageV>) -> Seq<JsonV> {
    v.map_values(|m: LogMessageV| log_object(m))
}

fn log_value(l: &LogMessage) -> (r: serde_json::Value)
    ensures
        json::json(r) == log_object(l@),
{
    let mut m = json::new_object();
    json::insert(&mut m, "timestamp", json::text(l.timestamp.as_str()));
    json::insert(&mut m, "level", json::text(l.level.as_str()));
    json::insert(&mut m, "message", json::text(l.message.as_str()));
    json::object_value(m)
}

/// `GET /api/logs`.
pub fn logs_handler(logs: &LogRing) -> (r: Reply)
    ensures
        r@ == ok_reply("Logs retrieved"@, Some(JsonV::Array(log_objects(logs@)))),
{
    let lines = logs.recent();
    let ghost all = log_objects(log_views(lines@));
    let mut list: Vec<serde_json::Value> = Vec::new();
    let mut i: usize = 0;
    while i < lines.len()
        invariant
            i <= lines@.len(),
            all == log_objects(log_views(lines@)),
            json::jsons(list@) == all.take(i as int),
        decreases lines@.len() - i,
    {
        let ghost before = list@;
        list.push(log_value(&lines[i]));
        i += 1;
        assert(json::jsons(list@) =~= json::jsons(before).push(all[i - 1]));
        assert(json::jsons(list@) =~= all.take(i as int));
    }
    assert(all.take(i as int) =~= all);
    ok("Logs retrieved", Some(json::array(list)))
}

/// What the health check tells.
#[derive(Debug)]
pub struct Health {
    pub version: String,
    pub libcec: String,
    pub started: Timestamp,
    pub now: Timestamp,
    pub cec_ready: bool,
    pub subscribers: u64,
    pub hub: EventHub,
    pub frames_captured: u64,
}

/// The body of the health check.
pub open spec fn health_object(h: Health, uptime: int) -> Map<Seq<char>, JsonV> {
    json::no_fields().insert("version"@, JsonV::Text(h.version@)).insert(
        "libcec"@,
        JsonV::Text(h.libcec@),
    ).insert("uptime_seconds"@, JsonV::Int(uptime)).insert(
        "cec_ready"@,
        JsonV::Bool(h.cec_ready),
    ).insert("subscribers"@, JsonV::Int(h.subscribers as int)).insert(
        "events_dropped"@,
        JsonV::Int(h.hub.dropped as int),
    ).insert("events_delivered"@, JsonV::Int(h.hub.delivered as int)).insert(
        "frames_captured"@,
        JsonV::Int(h.frames_captured as int),
    )
}

/// The whole seconds from one time to a later one, or the other way round, below zero.
pub open spec fn seconds_between(then: Timestamp, now: Timestamp) -> int {
    if now@ >= then@ {
        (now@ - then@) / 1_000_000_000
    } else {
        -((then@ - now@) / 1_000_000_000)
    }
}

/// `GET /api/health`.
pub fn health_handler(h: &Health) -> (r: Reply)
    ensures
        r@ == ok_reply(
            "healthy"@,
            Some(JsonV::Object(health_object(*h, seconds_between(h.started, h.now)))),
        ),
{
    let (dropped, delivered) = h.hub.stats();
    let mut m = json::new_object();
    json::insert(&mut m, "version", json::text(h.version.as_str()));
    json::insert(&mut m, "libcec", json::text(h.libcec.as_str()));
    json::insert(&mut m, "uptime_seconds", json::integer(h.now.seconds_since(h.started)));
    json::insert(&mut m, "cec_ready", json::boolean(h.cec_ready));
    json::insert(&mut m, "subscribers", json::unsigned(h.subscribers));
    json::insert(&mut m, "events_dropped", json::unsigned(dropped));
    json::insert(&mut m, "events_delivered", json::unsigned(delivered));
    json::insert(&mut m, "frames_captured", json::unsigned(h.frames_captured));
    ok("healthy", Some(json::object_value(m)))
}

/// `POST /api/update`: answers with the version that was installed, that there was none to
/// install, or the failure.
pub fn update_handler(outcome: &Result<Option<String>, String>, version: &str) -> (r: Reply)
    ensures
        r@ == (match *outcome {
            Ok(Some(v)) => ok_reply(
                "Updated to "@ + v@ + ", restarting..."@,
                Some(JsonV::Object(json::no_fields().insert("new_version"@, JsonV::Text(v@)))),
            ),
            Ok(None) => ok_reply(
                "Already up to date"@,
                Some(JsonV::Object(json::no_fields().insert("version"@, JsonV::Text(version@)))),
            ),
            Err(e) => err_reply(502, "update failed: "@ + e@),
        }),
{
    match outcome {
        Ok(Some(v)) => {
            let mut m = json::new_object();
            json::insert(&mut m, "new_version", json::text(v.as_str()));
            let message = text::concat3("Updated to ", v.as_str(), ", restarting...");
            ok(message.as_str(), Some(json::object_value(m)))
        },
        Ok(None) => {
            let mut m = json::new_object();
            json::insert(&mut m, "version", json::text(version));
            ok("Already up to date", Some(json::object_value(m)))
        },
        Err(e) => err(502, text::concat("update failed: ", e.as_str()).as_str()),
    }
}

// ---------------------------------------------------------------------------
// MQTT settings
// ---------------------------------------------------------------------------

/// The body of the MQTT settings. The password is not told.
pub open spec fn mqtt_object(cfg: MqttConfigV, connected: bool) -> Map<Seq<char>, JsonV> {
    json::no_fields().insert("broker"@, JsonV::Text(cfg.broker)).insert(
        "user"@,
        JsonV::Text(cfg.user),
    ).insert(
        "pass"@,
        JsonV::Text(
            if cfg.pass.len() == 0 {
                ""@
            } else {
                "***"@
            },
        ),
    ).insert("prefix"@, JsonV::Text(cfg.prefix)).insert("connected"@, JsonV::Bool(connected))
}

/// `GET /api/settings/mqtt`.
pub fn mqtt_settings_get(cfg: &MqttConfig, connected: bool) -> (r: Reply)
    ensures
        r@ == ok_reply("MQTT settings"@, Some(JsonV::Object(mqtt_object(cfg@, connected)))),
{
    let mut m = json::new_object();
    json::insert(&mut m, "broker", json::text(cfg.broker.as_str()));
    json::insert(&mut m, "user", json::text(cfg.user.as_str()));
    let pass = if cfg.pass.as_str().is_empty() { "" } else { "***" };
    json::insert(&mut m, "pass", json::text(pass));
    json::insert(&mut m, "prefix", json::text(cfg.prefix.as_str()));
    json::insert(&mut m, "connected", json::boolean(connected));
    ok("MQTT settings", Some(json::object_value(m)))
}

/// The body of new MQTT settings. A field that the client leaves out is empty.
#[derive(Debug)]
pub struct MqttSettingsRequest {
    pub broker: String,
    pub user: String,
    pub pass: String,
    pub prefix: String,
}

/// The settings that a request leads to. The mask stands for the password that is set; a blank
/// prefix is "capi".
pub open spec fn requested_mqtt(existing: MqttConfigV, req: MqttSettingsRequest) -> MqttConfigV {
    MqttConfigV {
        broker: text::trimmed(req.broker@),
        user: text::trimmed(req.user@),
        pass: if req.pass@ == "***"@ {
            existing.pass
        } else {
            req.pass@
        },
        prefix: if text::trimmed(req.prefix@).len() == 0 {
            "capi"@
        } else {
            text::trimmed(req.prefix@)
        },
    }
}

/// The settings that a request leads to.
pub fn merged_mqtt(existing: &MqttConfig, req: &MqttSettingsRequest) -> (r: MqttConfig)
    ensures
        r@ == requested_mqtt(existing@, *req),
{
    let prefix = text::trim(req.prefix.as_str());
    MqttConfig {
        broker: text::trim(req.broker.as_str()).to_owned(),
        user: text::trim(req.user.as_str()).to_owned(),
        pass: if text::str_eq(req.pass.as_str(), "***") {
            existing.pass.clone()
        } else {
            req.pass.clone()
        },
        prefix: if prefix.is_empty() {
            "capi".to_owned()
        } else {
            prefix.to_owned()
        },
    }
}

/// `POST /api/settings/mqtt`: the settings to save.
pub fn mqtt_settings_post(existing: &MqttConfig, req: Option<&MqttSettingsRequest>) -> (r: Result<
    MqttConfig,
    Reply,
>)
    ensures
        match (req, r) {
            (None, Err(reply)) => reply@ == err_reply(400, "invalid request body"@),
            (Some(q), Ok(cfg)) => cfg@ == requested_mqtt(existing@, *q),
            _ => false,
        },
{
    match req {
        None => Err(err(400, "invalid request body")),
        Some(q) => Ok(merged_mqtt(existing, q)),
    }
}

/// Answers whether the settings were saved.
pub fn mqtt_settings_reply(saved: &Result<(), String>) -> (r: Reply)
    ensures
        r@ == (match *saved {
            Ok(()) => ok_reply("MQTT settings saved"@, None),
            Err(e) => err_reply(500, "save config: "@ + e@),
        }),
{
    match saved {
        Ok(()) => ok("MQTT settings saved", None),
        Err(e) => err(500, text::concat("save config: ", e.as_str()).as_str()),
    }
}

/// Sending the settings back as they were told changes nothing: the password stays, and so does
/// the rest, where it has no blanks around it and the prefix is not blank.
pub proof fn law_mqtt_settings_round_trip(cfg: MqttConfigV, req: MqttSettingsRequest)
    requires
        text::trimmed(cfg.broker) == cfg.broker,
        text::trimmed(cfg.user) == cfg.user,
        text::trimmed(cfg.prefix) == cfg.prefix,
        cfg.prefix.len() > 0,
        mqtt_object(cfg, true)["broker"@] == JsonV::Text(req.broker@),
        mqtt_object(cfg, true)["user"@] == JsonV::Text(req.user@),
        mqtt_object(cfg, true)["pass"@] == JsonV::Text(req.pass@),
        mqtt_object(cfg, true)["prefix"@] == JsonV::Text(req.prefix@),
    ensures
        requested_mqtt(cfg, req) == cfg,
{
    reveal_strlit("broker");
    reveal_strlit("user");
    reveal_strlit("pass");
    reveal_strlit("prefix");
    reveal_strlit("connected");
    reveal_strlit("***");
    reveal_strlit("");
    assert("broker"@.len() == 6 && "prefix"@.len() == 6 && "broker"@[0] != "prefix"@[0]);
    assert("user"@[0] != "pass"@[0]);
    if cfg.pass.len() == 0 {
        assert(cfg.pass =~= ""@);
    }
}

/// The event types, as they stand on the wire.
pub fn event_type_names() -> (r: [&'static str; 8])
    ensures
        r@.map_values(|s: &'static str| s@) == seq![
            POWER_CHANGE@,
            SOURCE_ACTIVATED@,
            KEY_PRESS@,
            COMMAND@,
            ALERT@,
            DEVICES_CHANGED@,
            CONFIGURATION_CHANGED@,
            ADAPTER_STATE@,
        ],
{
    let r = [
        POWER_CHANGE,
        SOURCE_ACTIVATED,
        KEY_PRESS,
        COMMAND,
        ALERT,
        DEVICES_CHANGED,
        CONFIGURATION_CHANGED,
        ADAPTER_STATE,
    ];
    assert(r@.map_values(|s: &'static str| s@) =~= seq![
        POWER_CHANGE@,
        SOURCE_ACTIVATED@,
        KEY_PRESS@,
        COMMAND@,
        ALERT@,
        DEVICES_CHANGED@,
        CONFIGURATION_CHANGED@,
        ADAPTER_STATE@,
    ]);
    r
}

// ---------------------------------------------------------------------------
// Laws of requests
// ---------------------------------------------------------------------------

/// The devices are scanned anew exactly where `live` or `rescan` says yes.
pub proof fn law_live_and_rescan_force_a_scan(q: DevicesQuery)
    ensures
        (scan_kind(q) == JobKind::Full) == ((q.live matches Some(s) && is_truthy(s@)) || (
        q.rescan matches Some(s) && is_truthy(s@))),
        scan_kind(q) != JobKind::Full ==> scan_kind(q) == JobKind::Light,
        q.live is None && q.rescan is None ==> scan_kind(q) == JobKind::Light,
{
}

/// A wait up to ten seconds is kept as asked; a longer one is cut to ten; without one, a scan that
/// was asked for is waited for five seconds and the cache not at all.
pub proof fn law_waits_are_kept(forced: bool, asked: nat)
    ensures
        0 < asked <= 10_000_000_000 ==> scan_wait(forced, asked) == asked,
        asked > 10_000_000_000 ==> scan_wait(forced, asked) == 10_000_000_000,
        scan_wait(true, 0) == 5_000_000_000,
        scan_wait(false, 0) == 0,
{
}

/// The answer with the devices is the cached list, and says whether it was scanned for; a full
/// queue is 503 and a scan that is not over in time 504.
pub proof fn law_device_answers(live: bool, outcome: Result<(), StewardWait>, devices: Seq<JsonV>)
    ensures
        outcome is Ok ==> devices_answer(live, outcome, devices).status == 200 && devices_answer(
            live,
            outcome,
            devices,
        ).body.data == Some(JsonV::Array(devices)),
        outcome == Err::<(), StewardWait>(StewardWait::QueueFull) ==> devices_answer(
            live,
            outcome,
            devices,
        ).status == 503,
        outcome == Err::<(), StewardWait>(StewardWait::Timeout) ==> devices_answer(
            live,
            outcome,
            devices,
        ).status == 504,
        devices_answer(true, Ok(()), devices).body.message == "Devices retrieved (live)"@,
        devices_answer(false, Ok(()), devices).body.message == "Devices retrieved (cache)"@,
{
}

/// A number in a path is the address or port that it writes down, where it is in bounds; anything
/// else names none.
pub proof fn law_path_numbers_read_back(n: i32, path: Seq<char>, i: int, min: int, max: int)
    ensures
        min <= n <= max ==> path_number(text::dec_int(n as int), min, max) == Some(n as int),
        !(min <= n <= max) ==> path_number(text::dec_int(n as int), min, max) is None,
        0 <= i < path.len() && !text::is_digit(path[i]) && (i > 0 || (path[0] != '+' && path[0]
            != '-')) ==> path_number(path, min, max) is None,
        path.len() == 0 ==> path_number(path, min, max) is None,
        path_number(path, min, max) matches Some(v) ==> min <= v <= max,
{
    text::law_numbers_read_back(n as int, i32::MIN as int, i32::MAX as int);
    if 0 <= i < path.len() && !text::is_digit(path[i]) && (i > 0 || (path[0] != '+' && path[0]
        != '-')) {
        text::law_other_texts_are_no_numbers(path, i, i32::MIN as int, i32::MAX as int);
    }
}

/// Where a path names no device, the default one is meant; where it names one, that one is.
pub proof fn law_named_devices_are_meant(path: Seq<char>, n: i32, dflt: int)
    ensures
        addr_of(None, dflt) == Some(dflt),
        addr_of(Some(text::dec_int(n as int)), dflt) == Some(n as int),
{
    law_path_numbers_read_back(n, path, 0, i32::MIN as int, i32::MAX as int);
}

/// A request for a device makes its call exactly where the address is that of a device and there is
/// a session with an open adapter. A bad address is answered 400 in any case, a missing adapter 503,
/// and an adapter that is not open 500.
pub proof fn law_device_requests(session: Option<Connection>, addr: Option<int>, call: CecCall)
    requires
        addr matches Some(a) ==> i32::MIN <= a <= i32::MAX,
    ensures
        match device_request(session, addr, call) {
            Ok(made) => made == call && (addr matches Some(a) && 0 <= a <= 14) && (
            session matches Some(c) && c.opened && !c.closed),
            Err(r) => {
                &&& !(addr matches Some(a) && 0 <= a <= 14) ==> r.status == 400
                &&& (addr matches Some(a) && 0 <= a <= 14) && session is None ==> r.status == 503
                &&& (addr matches Some(a) && 0 <= a <= 14) && session is Some ==> r.status == 500
                    && !(session matches Some(c) && c.opened && !c.closed)
                &&& r.body.status == "error"@
            },
        },
{
}

/// A command that went well is told with the number it was for; one that did not is an error.
pub proof fn law_command_answers(message: Seq<char>, n: i32, outcome: Result<(), CecError>)
    ensures
        outcome is Ok ==> command_answer(message, n, outcome).status == 200 && command_answer(
            message,
            n,
            outcome,
        ).body.message == message + text::dec_int(n as int),
        outcome matches Err(e) ==> command_answer(message, n, outcome).status == 500
            && command_answer(message, n, outcome).body.message == cec_error_text(e),
{
}

/// The device in the path of a volume command counts before the one in its query; a blank query
/// names none.
pub proof fn law_volume_device_comes_from_path_or_query(path: Option<Seq<char>>, q: VolumeQuery)
    ensures
        path matches Some(p) ==> volume_name(path, q) == Some(p),
        path is None && q.address is None ==> volume_name(path, q) is None,
        path is None ==> (q.address matches Some(s) ==> (text::trimmed(s@).len() == 0
            ==> volume_name(path, q) is None) && (text::trimmed(s@).len() > 0 ==> volume_name(
            path,
            q,
        ) == Some(s@))),
{
}

/// A raw command is sent as it was given, exactly where its addresses are on the bus, its opcode is
/// a byte and it has no more than 14 parameters.
pub proof fn law_raw_commands_are_sent_as_given(req: RawCommandRequest)
    ensures
        raw_fault(req) is None <==> 0 <= req.initiator <= 15 && 0 <= req.destination <= 15 && 0
            <= req.opcode <= 255 && req.parameters@.len() <= 14,
        raw_fault(req) is None ==> {
            let c = raw_command(req);
            &&& c.initiator == req.initiator && c.destination == req.destination
            &&& c.opcode == req.opcode && c.opcode_set
            &&& c.parameters == req.parameters@
        },
        raw_fault(req) is None ==> crate::cec::types::transmit_fault(raw_command(req)) is None,
        raw_failure(CecError::AdapterNotOpen).status == 503,
        raw_failure(CecError::Closed).status == 500,
        raw_failure(CecError::MonitorOnly).status == 500,
{
}

/// The state of the bus is told field by field as it is cached.
pub proof fn law_bus_state_tells_the_cache(bus: BusV, now: Timestamp)
    requires
        i64::MIN <= bus.active_source <= i64::MAX,
        i64::MIN <= bus.generation <= i64::MAX,
        i64::MIN <= bus.stale_threshold_sec <= i64::MAX,
    ensures
        ({
            let o = JsonV::Object(bus_state_object(bus, now));
            &&& json::field(o, "devices"@) == Some(JsonV::Array(bus.devices))
            &&& json::field(o, "logical_addresses"@) == Some(
                JsonV::Array(int_values(bus.addresses)),
            )
            &&& json::int_field(o, "active_source"@) == Some(bus.active_source)
            &&& json::bool_field(o, "cec_ready"@) == Some(bus.cec_ready)
            &&& json::bool_field(o, "monitoring"@) == Some(bus.monitoring)
            &&& json::bool_field(o, "scan_in_progress"@) == Some(bus.scan_in_progress)
            &&& json::bool_field(o, "stale"@) == Some(stale_at(bus, now))
            &&& json::int_field(o, "generation"@) == Some(bus.generation)
            &&& json::int_field(o, "stale_threshold_sec"@) == Some(bus.stale_threshold_sec)
            &&& bus.last_full_scan_at is None ==> json::field(o, "last_full_scan_at"@) == Some(
                JsonV::Null,
            )
            &&& bus.last_full_scan_at matches Some(t) ==> json::text_field(
                o,
                "last_full_scan_at"@,
            ) == Some(t.text())
        }),
{
    reveal_strlit("devices");
    reveal_strlit("logical_addresses");
    reveal_strlit("active_source");
    reveal_strlit("cec_ready");
    reveal_strlit("monitoring");
    reveal_strlit("scan_in_progress");
    reveal_strlit("stale");
    reveal_strlit("last_full_scan_at");
    reveal_strlit("stale_threshold_sec");
    reveal_strlit("generation");
    assert("devices"@.len() == 7 && "active_source"@.len() == 13 && "cec_ready"@.len() == 9);
    assert("logical_addresses"@.len() == 17 && "logical_addresses"@[1] == 'o');
    assert("last_full_scan_at"@.len() == 17 && "last_full_scan_at"@[1] == 'a');
    assert("monitoring"@.len() == 10 && "monitoring"@[0] == 'm');
    assert("generation"@.len() == 10 && "generation"@[0] == 'g');
    assert("scan_in_progress"@.len() == 16 && "stale"@.len() == 5 && "stale_threshold_sec"@.len()
        == 19);
}

/// The topology that is told has one row for each known port, in order, with the names of the
/// devices behind it.
pub proof fn law_topology_is_told_port_by_port(devices: Seq<JsonV>, i: int)
    requires
        0 <= i < highest_port(devices, 4),
    ensures
        ({
            let o = JsonV::Object(topology_object(devices));
            &&& json::field(o, "known_port_count"@) == Some(JsonV::Int(highest_port(devices, 4)))
            &&& json::field(o, "own_addresses"@) == Some(
                JsonV::Array(int_values(own_addresses_of(devices))),
            )
            &&& json::field(o, "ports"@) matches Some(JsonV::Array(rows)) && rows.len()
                == highest_port(devices, 4) && json::field(rows[i], "port"@) == Some(
                JsonV::Int(i + 1),
            ) && json::field(rows[i], "devices"@) == Some(
                JsonV::Array(json::text_values(labels_behind(devices, i + 1))),
            )
        }),
{
    reveal_strlit("known_port_count");
    reveal_strlit("own_addresses");
    reveal_strlit("ports");
    reveal_strlit("port");
    reveal_strlit("devices");
    assert("known_port_count"@.len() == 16 && "own_addresses"@.len() == 13 && "ports"@.len() == 5);
    assert("port"@.len() == 4 && "devices"@.len() == 7);
}

/// A captured frame is told with its number and field by field.
pub proof fn law_frames_are_told(seq_no: u64, f: FrameV)
    ensures
        ({
            let o = frame_object(seq_no, f);
            &&& json::field(o, "seq"@) == Some(JsonV::Int(seq_no as int))
            &&& json::field(o, "initiator"@) == Some(JsonV::Int(f.initiator))
            &&& json::field(o, "destination"@) == Some(JsonV::Int(f.destination))
            &&& json::text_field(o, "opcode"@) == Some(f.opcode)
            &&& json::bool_field(o, "ack"@) == Some(f.ack)
            &&& json::bool_field(o, "eom"@) == Some(f.eom)
            &&& json::bool_field(o, "opcode_set"@) == Some(f.opcode_set)
            &&& json::field(o, "params_hex"@) == Some(
                JsonV::Array(json::text_values(f.params_hex)),
            )
            &&& json::text_field(o, "timestamp"@) == Some(f.timestamp.utc_text())
        }),
{
    reveal_strlit("seq");
    reveal_strlit("timestamp");
    reveal_strlit("initiator");
    reveal_strlit("destination");
    reveal_strlit("opcode");
    reveal_strlit("ack");
    reveal_strlit("eom");
    reveal_strlit("opcode_set");
    reveal_strlit("params_hex");
    assert("seq"@.len() == 3 && "seq"@[0] == 's' && "ack"@.len() == 3 && "ack"@[0] == 'a'
        && "eom"@.len() == 3 && "eom"@[0] == 'e');
    assert("timestamp"@.len() == 9 && "timestamp"@[0] == 't' && "initiator"@.len() == 9
        && "initiator"@[0] == 'i');
    assert("destination"@.len() == 11 && "opcode"@.len() == 6);
    assert("opcode_set"@.len() == 10 && "opcode_set"@[0] == 'o' && "params_hex"@.len() == 10
        && "params_hex"@[0] == 'p');
}

/// A log line is told with its time, level and text.
pub proof fn law_log_lines_are_told(m: LogMessageV)
    ensures
        json::text_field(log_object(m), "timestamp"@) == Some(m.timestamp),
        json::text_field(log_object(m), "level"@) == Some(m.level),
        json::text_field(log_object(m), "message"@) == Some(m.message),
{
    reveal_strlit("timestamp");
    reveal_strlit("level");
    reveal_strlit("message");
    assert("timestamp"@.len() == 9 && "level"@.len() == 5 && "message"@.len() == 7);
}

/// The health check tells what it read.
pub proof fn law_health_tells_the_readings(h: Health, uptime: int)
    ensures
        ({
            let o = JsonV::Object(health_object(h, uptime));
            &&& json::text_field(o, "version"@) == Some(h.version@)
            &&& json::text_field(o, "libcec"@) == Some(h.libcec@)
            &&& json::field(o, "uptime_seconds"@) == Some(JsonV::Int(uptime))
            &&& json::bool_field(o, "cec_ready"@) == Some(h.cec_ready)
            &&& json::field(o, "subscribers"@) == Some(JsonV::Int(h.subscribers as int))
            &&& json::field(o, "events_dropped"@) == Some(JsonV::Int(h.hub.dropped as int))
            &&& json::field(o, "events_delivered"@) == Some(JsonV::Int(h.hub.delivered as int))
            &&& json::field(o, "frames_captured"@) == Some(JsonV::Int(h.frames_captured as int))
        }),
{
    reveal_strlit("version");
    reveal_strlit("libcec");
    reveal_strlit("uptime_seconds");
    reveal_strlit("cec_ready");
    reveal_strlit("subscribers");
    reveal_strlit("events_dropped");
    reveal_strlit("events_delivered");
    reveal_strlit("frames_captured");
    assert("version"@.len() == 7 && "libcec"@.len() == 6 && "cec_ready"@.len() == 9
        && "subscribers"@.len() == 11);
    assert("uptime_seconds"@.len() == 14 && "uptime_seconds"@[0] == 'u' && "events_dropped"@.len()
        == 14 && "events_dropped"@[0] == 'e');
    assert("events_delivered"@.len() == 16 && "frames_captured"@.len() == 15);
}

/// The uptime counts whole seconds, grows with time, and is nothing at the start.
pub proof fn law_seconds_between(then: Timestamp, now: Timestamp)
    ensures
        then@ == now@ ==> seconds_between(then, now) == 0,
        now@ >= then@ ==> seconds_between(then, now) * 1_000_000_000 <= now@ - then@
            < seconds_between(then, now) * 1_000_000_000 + 1_000_000_000,
        seconds_between(then, now) == -seconds_between(now, then),
{
}

/// The password of the broker is never told: only whether there is one. The other settings are told
/// as they are.
pub proof fn law_password_is_not_told(cfg: MqttConfigV, connected: bool)
    ensures
        ({
            let o = JsonV::Object(mqtt_object(cfg, connected));
            &&& json::text_field(o, "pass"@) == Some(
                if cfg.pass.len() == 0 {
                    ""@
                } else {
                    "***"@
                },
            )
            &&& json::text_field(o, "broker"@) == Some(cfg.broker)
            &&& json::text_field(o, "user"@) == Some(cfg.user)
            &&& json::text_field(o, "prefix"@) == Some(cfg.prefix)
            &&& json::bool_field(o, "connected"@) == Some(connected)
        }),
{
    reveal_strlit("broker");
    reveal_strlit("user");
    reveal_strlit("pass");
    reveal_strlit("prefix");
    reveal_strlit("connected");
    assert("broker"@.len() == 6 && "broker"@[0] == 'b' && "prefix"@.len() == 6 && "prefix"@[0]
        == 'p');
    assert("user"@.len() == 4 && "user"@[0] == 'u' && "pass"@.len() == 4 && "pass"@[0] == 'p');
    assert("connected"@.len() == 9);
}

/// A request that sends the mask back keeps the password; any other password replaces it, an empty
/// one too. White space around the other settings does not count, and topics have a prefix always.
pub proof fn law_mask_keeps_the_password(existing: MqttConfigV, req: MqttSettingsRequest)
    ensures
        req.pass@ == "***"@ ==> requested_mqtt(existing, req).pass == existing.pass,
        req.pass@ != "***"@ ==> requested_mqtt(existing, req).pass == req.pass@,
        requested_mqtt(existing, req).broker == text::trimmed(req.broker@),
        requested_mqtt(existing, req).user == text::trimmed(req.user@),
        requested_mqtt(existing, req).prefix.len() > 0,
        text::trimmed(req.prefix@).len() > 0 ==> requested_mqtt(existing, req).prefix
            == text::trimmed(req.prefix@),
{
    reveal_strlit("capi");
}

/// A query without a wait does not wait, and the wait of one is the time that it writes.
pub proof fn law_waits_are_read_as_times(q: DevicesQuery)
    ensures
        q.wait is None ==> asked_wait(q) == Ok::<nat, Seq<char>>(0),
        q.wait matches Some(w) ==> asked_wait(q) == wait_of(w@),
{
}

/// The active source, the frames and the log lines are told one for one, in their order.
pub proof fn law_lists_are_told_in_order(
    n: i32,
    ring: Seq<(u64, FrameV)>,
    lines: Seq<LogMessageV>,
    i: int,
)
    ensures
        json::int_field(source_object(n as int), "active_source"@) == Some(n as int),
        frame_objects(ring).len() == ring.len(),
        0 <= i < ring.len() ==> frame_objects(ring)[i] == frame_object(ring[i].0, ring[i].1),
        log_objects(lines).len() == lines.len(),
        0 <= i < lines.len() ==> log_objects(lines)[i] == log_object(lines[i]),
{
}

} // verus!
