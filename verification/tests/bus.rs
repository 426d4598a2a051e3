//! The cached bus state, its topology, the steward, and the dispatch of events.

use capi::busstate::BusState;
use capi::cec::replies::{get_device_info, DeviceReplies};
use capi::cec::types::{CecEvent, Command, DeviceInfo, LogicalAddress, Opcode};
use capi::dispatch::{
    apply_persisted_strategy_overrides, bump_events_published, dispatch_cec_event,
    dispatch_mqtt_command, MqttRequest,
};
use capi::events::{EventHub, LogRing, Metrics};
use capi::mqtt::MqttCommand;
use capi::steward::{
    abandon_job, begin_job, finish_job, give_probes, poll_targets, JobKind, JobStart, JobStep, Scan,
    Steward, StewardWait,
};
use capi::strategies::{Action, Registry};
use capi::time::{Duration, Timestamp};
use capi::topology::{build_from_snapshot, port_of};
use capi::types::{BusConfig, Config, StrategyOverride};
use serde_json::Value;

fn at(secs: i64) -> Timestamp {
    Timestamp::new(1_700_000_000 + secs, 0).unwrap()
}

fn object(fields: Vec<(&str, Value)>) -> Value {
    let mut m = serde_json::Map::new();
    for (k, v) in fields {
        m.insert(k.to_string(), v);
    }
    Value::Object(m)
}

fn frame(initiator: u8, opcode: u8, parameters: Vec<u8>) -> Command {
    Command {
        initiator: LogicalAddress(initiator),
        destination: LogicalAddress(15),
        opcode: Opcode(opcode),
        opcode_set: true,
        parameters,
        ack: true,
        eom: true,
    }
}

#[test]
fn port_of_parses_direct_children_and_deeper_nodes() {
    assert_eq!(port_of("1.0.0.0"), Some(1));
    assert_eq!(port_of("5.0.0.0"), Some(5));
    assert_eq!(port_of("2.1.0.0"), Some(2));
    assert_eq!(port_of("garbage"), None);
    assert_eq!(port_of("1.0.0"), None);
}

#[test]
fn topology_guarantees_minimum_four_ports() {
    let mut bus = BusState::new();
    bus.replace_snapshot(
        vec![object(vec![
            ("logical_address", Value::from(4)),
            ("osd_name", Value::from("Box")),
            ("physical_address", Value::from("2.0.0.0")),
            ("is_own", Value::from(false)),
        ])],
        vec![4],
        -1,
        true,
        false,
        None,
        180,
        0,
    );
    let topo = build_from_snapshot(&bus, at(0));
    assert!(topo.known_port_count >= 4);
    assert_eq!(topo.ports.len() as i64, topo.known_port_count);
    let port2 = topo.ports.iter().find(|p| p.port == 2).unwrap();
    assert_eq!(port2.devices, vec!["Box".to_string()]);
    assert!(topo.own_addresses.is_empty());
}

#[test]
fn frame_ring_is_bounded_and_numbered() {
    let mut bus = BusState::new();
    for i in 0..5u8 {
        bus.append_frame(&frame(4, 0x90, vec![i]), 3, at(i as i64));
    }
    assert_eq!(bus.recent_frames().len(), 3);
    assert_eq!(bus.ring_high_water(), 5);
    assert_eq!(bus.frames_captured(), 5);
    let numbered = bus.numbered_frames();
    assert_eq!(numbered.iter().map(|e| e.0).collect::<Vec<_>>(), vec![3, 4, 5]);
    assert_eq!(numbered[2].1.opcode, "0x90");
    assert_eq!(numbered[2].1.params_hex, vec!["04".to_string()]);
    let mark = bus.ring_high_water();
    bus.append_frame(&frame(4, 0x36, vec![]), 3, at(9));
    let newer = bus.frames_after(mark);
    assert_eq!(newer.len(), 1);
    assert_eq!(newer[0].opcode, "0x36");
    let mark = bus.ring_high_water();
    assert!(bus.frames_after(mark).is_empty());
    for op in [0x9A, 0x9B, 0x9C, 0x9D, 0x9E] {
        bus.append_frame(&frame(4, op, vec![]), 3, at(10));
    }
    let last: Vec<String> = bus.frames_after(mark).into_iter().map(|f| f.opcode).collect();
    assert_eq!(last, vec!["0x9c", "0x9d", "0x9e"]);
}

#[test]
fn frames_are_learned_from() {
    let mut bus = BusState::new();
    bus.apply_observed_command(&frame(4, Opcode::SET_OSD_NAME, b"Box\0".to_vec()), at(0));
    bus.apply_observed_command(&frame(4, Opcode::REPORT_POWER_STATUS, vec![1]), at(1));
    bus.apply_observed_command(
        &frame(4, Opcode::DEVICE_VENDOR_ID, vec![0x00, 0x00, 0xF0]),
        at(2),
    );
    assert_eq!(bus.observed_addresses(), vec![4]);
    let (first, last) = bus.seen_timestamps(4).unwrap();
    assert_eq!(first, at(0));
    assert_eq!(last, at(2));
    assert!(bus.seen_timestamps(5).is_none());
    let mut devices = vec![object(vec![("logical_address", Value::from(4))])];
    bus.merge_observed_into_devices(&mut devices);
    assert_eq!(devices[0]["observed_osd_name_fragment"], Value::from("Box"));
    assert_eq!(devices[0]["observed_power_status"], Value::from("standby"));
    assert_eq!(devices[0]["observed_vendor_id"], Value::from("0x0000f0"));
    assert_eq!(devices[0]["logical_address"], Value::from(4));
    bus.apply_observed_command(&frame(5, Opcode::REPORT_POWER_STATUS, vec![0]), at(3));
    assert_eq!(bus.observed_text(4, "power_status"), Some("standby"));
    assert_eq!(bus.observed_text(5, "power_status"), Some("on"));
    assert_eq!(bus.observed_text(5, "vendor_id"), None);
    assert_eq!(bus.observed_text(6, "power_status"), None);
    bus.prune_stale_observed(Duration::zero(), at(100));
    assert_eq!(bus.observed_addresses().len(), 2);
    bus.prune_stale_observed(Duration::from_secs(10), at(100));
    assert!(bus.observed_addresses().is_empty());
}

#[test]
fn snapshot_grows_stale() {
    let mut bus = BusState::new();
    bus.replace_snapshot(vec![], vec![], 0, true, false, Some(at(0)), 180, 8);
    assert!(!bus.copy_snapshot(at(180)).stale);
    assert!(bus.copy_snapshot(at(181)).stale);
    assert_eq!(bus.copy_snapshot(at(0)).active_source, 0);
}

#[test]
fn steward_queue_is_bounded_and_ordered() {
    let mut s = Steward::new();
    assert!(s.enqueue(JobKind::Light));
    assert!(s.enqueue(JobKind::Deep));
    assert_eq!(s.next_job(), Some(JobKind::Light));
    s.job_done();
    assert_eq!(s.next_job(), Some(JobKind::Deep));
    s.job_done();
    assert_eq!(s.next_job(), None);
    for _ in 0..32 {
        assert!(s.enqueue(JobKind::Full));
    }
    assert!(!s.enqueue(JobKind::Full));
    assert_eq!(Steward::wait_outcome(false, false), Err(StewardWait::QueueFull));
    assert_eq!(Steward::wait_outcome(true, false), Err(StewardWait::Timeout));
    assert_eq!(Steward::wait_outcome(true, true), Ok(()));
    assert_eq!(JobKind::Deep.as_str(), "deep");
}

#[test]
fn steward_hints_are_coalesced() {
    let mut s = Steward::new();
    s.hint(false, &vec![true, false]);
    assert_eq!(s.next_job(), Some(JobKind::Full));
    assert_eq!(s.next_job(), None);
    s.hint(false, &vec![]);
    assert_eq!(s.next_job(), Some(JobKind::Light));
}

fn device(a: LogicalAddress) -> DeviceInfo {
    get_device_info(
        a,
        DeviceReplies {
            is_active: true,
            is_active_source: true,
            physical_address: Some(0x1000),
            vendor_id: None,
            cec_version: None,
            power_status: None,
            osd_name: Some("Box".into()),
            menu_language: None,
        },
    )
    .unwrap()
}

#[test]
fn queries_end_with_their_budget() {
    let scan = Scan::start(0b11, false, &vec![false; 15]);
    assert_eq!(scan.next_query(Duration::from_secs(25)), Some(LogicalAddress(0)));
    assert_eq!(scan.next_query(Duration { secs: 25, nanos: 1 }), None);
}

#[test]
fn a_job_rebuilds_the_snapshot() {
    let cfg = BusConfig::default();
    let mut bus = BusState::new();
    assert!(matches!(
        begin_job(&mut bus, JobKind::Full, false, &cfg),
        JobStart::NotConnected
    ));
    assert!(matches!(
        begin_job(&mut bus, JobKind::Full, true, &cfg),
        JobStart::Scan { poll: true, rescan: Some(_) }
    ));
    assert!(matches!(
        begin_job(&mut bus, JobKind::Light, true, &cfg),
        JobStart::Scan { poll: false, rescan: None }
    ));
    bus.note_seen(8, at(0));
    // libcec lists 4 alone; 5 and 6 answer a poll, and only 5 answers queries.
    let mut answers = vec![false; 15];
    let targets = poll_targets(1 << 4, true);
    assert_eq!(targets.len(), 14);
    assert!(!targets.contains(&LogicalAddress(4)));
    assert!(poll_targets(1 << 4, false).is_empty());
    answers[5] = true;
    answers[6] = true;
    let mut scan = Scan::start(1 << 4, true, &answers);
    while let Some(a) = scan.next_query(Duration::from_secs(25)) {
        let info = (a.0 < 6).then(|| device(a));
        scan.record(info.as_ref(), at(1));
    }
    assert_eq!(scan.next, 3);
    let plans = give_probes(&scan.entries, &cfg, None);
    assert_eq!(plans.len(), 2);
    assert_eq!(plans[0].commands[0].initiator, LogicalAddress(LogicalAddress::FREE_USE));
    let ev = finish_job(
        &mut bus,
        JobKind::Full,
        scan,
        Some(LogicalAddress(4)),
        &cfg,
        false,
        at(1),
    );
    assert_eq!(ev.kind, "devices_changed");
    assert_eq!(ev.data["reason"], Value::from("bus_topology"));
    let snap = bus.copy_snapshot(at(1));
    let found: Vec<&str> = snap
        .devices
        .iter()
        .map(|d| d["discovery"].as_str().unwrap())
        .collect();
    assert_eq!(found, vec!["active", "polled", "polled", "observed"]);
    assert_eq!(snap.devices[2]["address_name"], Value::from("Tuner 2"));
    assert_eq!(snap.active_source, 4);
    assert_eq!(snap.logical_addresses, vec![4, 5, 6, 8]);
    assert!(!snap.scan_in_progress);
    abandon_job(&mut bus);
    assert!(!bus.copy_snapshot(at(1)).scan_in_progress);
}

#[test]
fn events_are_dispatched() {
    let mut bus = BusState::new();
    bus.set_frame_ring_capacity(16);
    let mut logs = LogRing::new(4);
    let e = dispatch_cec_event(
        &mut bus,
        &mut logs,
        CecEvent::SourceActivated { address: 4, activated: true },
        "capi",
        at(0),
    );
    assert_eq!(e.publish.unwrap().kind, "source_activated");
    let e = dispatch_cec_event(
        &mut bus,
        &mut logs,
        CecEvent::Command(frame(4, Opcode::ACTIVE_SOURCE, vec![0x10, 0x00])),
        "capi",
        at(1),
    );
    assert_eq!(e.publish.unwrap().kind, "command");
    assert_eq!(e.hint, Some(true));
    assert_eq!(bus.recent_frames().len(), 1);
    let e = dispatch_cec_event(
        &mut bus,
        &mut logs,
        CecEvent::Log {
            level: capi::cec::types::LogLevel(1),
            time: 0,
            message: "lost".into(),
        },
        "capi",
        at(2),
    );
    assert!(e.hint.is_none());
    let lines = logs.recent();
    assert_eq!(lines.last().unwrap().message, "lost");
}

#[test]
fn power_changes_are_told_once() {
    let mut bus = BusState::new();
    let mut logs = LogRing::new(4);
    let mut report = |status: u8| {
        let ev = CecEvent::Command(frame(0, Opcode::REPORT_POWER_STATUS, vec![status]));
        dispatch_cec_event(&mut bus, &mut logs, ev, "capi", at(0)).power_change
    };
    let first = report(0).unwrap();
    assert_eq!(first.kind, "power_change");
    assert_eq!(first.data["address"], Value::from(0));
    assert_eq!(first.data["status"], Value::from("on"));
    assert!(report(0).is_none());
    assert_eq!(report(1).unwrap().data["status"], Value::from("standby"));
}

#[test]
fn mqtt_commands_are_dispatched() {
    let cmd = |action: &str, payload: &[u8]| MqttCommand {
        action: action.into(),
        payload: payload.to_vec(),
    };
    assert_eq!(dispatch_mqtt_command(false, &cmd("power/on", b"")), None);
    assert_eq!(
        dispatch_mqtt_command(true, &cmd("power/on", b"")),
        Some(MqttRequest::PowerOn { addr: 0 })
    );
    assert_eq!(
        dispatch_mqtt_command(true, &cmd("power/off", b"4")),
        Some(MqttRequest::PowerOff { addr: 4 })
    );
    assert_eq!(
        dispatch_mqtt_command(true, &cmd("volume/up", b"")),
        Some(MqttRequest::Volume { action: Action::VolumeUp })
    );
    assert_eq!(
        dispatch_mqtt_command(true, &cmd("hdmi", b"2")),
        Some(MqttRequest::Hdmi { port: 2 })
    );
    assert_eq!(dispatch_mqtt_command(true, &cmd("key", b"{}")), Some(MqttRequest::Key));
    assert_eq!(dispatch_mqtt_command(true, &cmd("fly", b"")), Some(MqttRequest::Unknown));
}

#[test]
fn persisted_overrides_are_applied() {
    let mut registry = Registry::new();
    let name = registry.strategies_for("", Action::Mute).last().unwrap().name.clone();
    let list = vec![
        StrategyOverride {
            vendor: "0x0000F0".into(),
            action: "mute".into(),
            strategy: name.clone(),
        },
        StrategyOverride {
            vendor: "0x0000F0".into(),
            action: "no such action".into(),
            strategy: name.clone(),
        },
    ];
    apply_persisted_strategy_overrides(&list, &mut registry);
    let chain = registry.strategies_for("0x0000f0", Action::Mute);
    assert_eq!(chain.len(), 1);
    assert_eq!(chain[0].name, name);
}

#[test]
fn counters_and_log_ring() {
    let mut m = Metrics::default();
    bump_events_published(&mut m);
    assert_eq!(m.events_published, 1);
    let mut hub = EventHub::new();
    hub.publish(Some(3));
    hub.publish(None);
    assert_eq!(hub.stats(), (1, 3));
    let mut logs = LogRing::new(2);
    for i in 0..3 {
        logs.push("INFO", format!("line {i}"), at(i));
    }
    let lines = logs.recent();
    assert_eq!(lines.len(), 2);
    assert_eq!(lines[0].message, "line 1");
    assert_eq!(lines[0].timestamp, "2023-11-14T22:13:21+00:00");
}

#[test]
fn defaults_of_the_bus() {
    let cfg = Config::default();
    assert_eq!(cfg.mqtt.prefix, "capi");
    assert_eq!(cfg.bus.frame_ring_size(), BusConfig::default().frame_ring_size());
}

fn steps_of(kind: JobKind, listed: bool) -> Vec<JobStep> {
    let mut steps = vec![kind.first_step()];
    while let Some(next) = kind.next_step(steps[steps.len() - 1], listed) {
        steps.push(next);
    }
    steps
}

#[test]
fn jobs_go_through_their_steps() {
    let light = vec![
        JobStep::ForgetStale,
        JobStep::List,
        JobStep::ActiveSource,
        JobStep::Query,
        JobStep::Finish,
    ];
    assert_eq!(steps_of(JobKind::Light, true), light);
    let deep = vec![
        JobStep::Rescan,
        JobStep::ForgetStale,
        JobStep::List,
        JobStep::Poll,
        JobStep::ActiveSource,
        JobStep::Query,
        JobStep::Probe,
        JobStep::Finish,
    ];
    assert_eq!(steps_of(JobKind::Deep, true), deep);
    let full: Vec<JobStep> = deep.into_iter().filter(|s| *s != JobStep::Probe).collect();
    assert_eq!(steps_of(JobKind::Full, true), full);
    assert_eq!(
        steps_of(JobKind::Light, false),
        vec![JobStep::ForgetStale, JobStep::List, JobStep::Abandon]
    );
    assert!(JobKind::Deep.sends_probes());
    assert!(!JobKind::Full.sends_probes() && !JobKind::Light.sends_probes());
}
