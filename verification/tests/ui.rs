//! What the pages show and what the form actions answer.

use capi::busstate::BusState;
use capi::cec::session::{CecCall, Connection};
use capi::cec::types::Configuration;
use capi::events::{EventHub, LogRing};
use capi::exec::{ExecError, KeyPlan};
use capi::time::Timestamp;
use capi::types::{AppEvent, BusFrameEntry, MqttConfig};
use capi::ui::{
    act_deep_scan, act_mqtt_save, act_nav_key, act_power_off, act_power_on, action_result,
    askama_escape, bus_banner_data, dashboard, dev_page, device_rows_from_snapshot,
    devices_panel_data, event_feed_entry, hdmi_result, health_data, login_page, login_submit,
    logs_data, mqtt_panel_data, nav_target, remote_data, set_source_result, settings_page,
    source_panel_data, summarize, trace_data, ActionOrReply, ActionReply, AddrForm, HdmiForm,
    LoginForm, LoginOutcome, MqttSaveForm, NavKeyForm, SetSourceForm,
};
use serde_json::Value;

fn at(secs: i64) -> Timestamp {
    Timestamp::new(1_700_000_000 + secs, 0).unwrap()
}

fn object(fields: Vec<(&str, Value)>) -> Value {
    let mut m = serde_json::Map::new();
    for (k, v) in fields {
        m.insert(k.to_string(), v);
    }
    Value::Object(m)
}

fn bus() -> BusState {
    let mut bus = BusState::new();
    bus.replace_snapshot(
        vec![
            object(vec![
                ("logical_address", Value::from(0)),
                ("device_type", Value::from("tv")),
                ("power_status", Value::from("Unknown")),
                ("observed_power_status", Value::from("standby")),
            ]),
            object(vec![
                ("logical_address", Value::from(4)),
                ("osd_name", Value::from("Box")),
                ("is_own", Value::from(true)),
                ("physical_address", Value::from("5.0.0.0")),
                ("discovery", Value::from("observed")),
            ]),
            object(vec![("osd_name", Value::from("nobody"))]),
        ],
        vec![0, 4],
        4,
        true,
        false,
        Some(at(0)),
        180,
        8,
    );
    bus
}

fn live() -> Connection {
    let mut c = Connection::opened_session(1, &Configuration::default(), true).unwrap();
    c.adapter_opened(1).unwrap();
    c
}

#[test]
fn rows_of_devices() {
    let rows = device_rows_from_snapshot(&bus().copy_snapshot(at(0)));
    assert_eq!(rows.len(), 2);
    assert_eq!(rows[0].display_name, "Tv");
    assert_eq!(rows[0].power_status, "Standby");
    assert!(!rows[0].is_active_source);
    assert_eq!(rows[1].display_name, "Box");
    assert!(rows[1].is_active_source && rows[1].is_own && rows[1].is_ghost);
    assert_eq!(devices_panel_data(&bus(), at(0)).message, "Live snapshot (2 devices)");
}

#[test]
fn remote_control() {
    let r = remote_data(&bus(), true, Some((120, true, 0)), Some("12:00:00"), at(0));
    assert_eq!(r.hdmi_ports.len(), 5);
    assert_eq!(r.nav_targets.len(), 1);
    assert_eq!(r.nav_targets[0].label, "Tv");
    assert_eq!((r.audio_display_volume, r.audio_muted), (100, true));
    assert_eq!(r.banner.last_full_scan, "12:00:00");
    assert_eq!(r.banner.device_count, 3);
    assert!(r.banner.cec_ready && !r.banner.stale);
    let down = bus_banner_data(&bus(), false, None, at(0));
    assert!(!down.cec_ready && down.stale);
    assert_eq!(down.last_full_scan, "never");
    assert_eq!(source_panel_data(&bus(), false, None, None, at(0)).audio_display_volume, 0);
    assert_eq!(dashboard(r, "v2").version, "v2");
}

#[test]
fn events_are_told_in_a_line() {
    let ev = |kind: &str, fields| AppEvent::new(kind, object(fields), at(0));
    assert_eq!(
        summarize(&ev("key_press", vec![("keycode", Value::from(65)), ("duration", Value::from(0))])),
        "key 65 (0)"
    );
    assert_eq!(
        summarize(&ev("adapter_state", vec![("state", Value::from("connected"))])),
        "adapter \"connected\""
    );
    assert_eq!(summarize(&ev("power_change", vec![])), "device null \u{2192} null");
    assert_eq!(
        summarize(&ev("source_activated", vec![("address", Value::from(true))])),
        "active source \u{2192} LA true"
    );
    assert_eq!(
        summarize(&ev(
            "command",
            vec![
                ("initiator", Value::from(0)),
                ("destination", Value::from(-4)),
                ("opcode", Value::from("0x90")),
            ]
        )),
        "0 \u{2192} -4 op \"0x90\""
    );
    assert_eq!(summarize(&ev("configuration_changed", vec![])), "libcec configuration changed");
    assert_eq!(summarize(&ev("other", vec![])), "other");
    let line = event_feed_entry(&ev("devices_changed", vec![]), "10:00:00");
    assert_eq!((line.time.as_str(), line.summary.as_str()), ("10:00:00", "devices changed (null)"));
}

#[test]
fn panels() {
    let h = health_data("v2", at(0), at(3 * 3600 + 5 * 60 + 59), true, None, 2, &EventHub::new(), 1);
    assert_eq!(h.uptime, "3h 05m");
    let m = mqtt_panel_data(
        &MqttConfig { broker: "b".into(), user: "u".into(), pass: "p".into(), prefix: "x".into() },
        true,
    );
    assert!(m.pass_set && m.connected);
    let mut logs = LogRing::new(2);
    logs.push("APP", "hi".into(), at(0));
    assert_eq!(logs_data(&logs).lines[0].message, "hi");
    let frame = |op: &str| BusFrameEntry {
        timestamp: at(0),
        initiator: 0,
        destination: 4,
        opcode: op.into(),
        ack: true,
        eom: true,
        opcode_set: true,
        params_hex: vec!["01".into(), "02".into()],
    };
    let frames: Vec<BusFrameEntry> = (0..150).map(|i| frame(&format!("{i}"))).collect();
    let times: Vec<String> = (0..150).map(|i| format!("t{i}")).collect();
    let trace = trace_data(&frames, &times);
    assert_eq!(trace.frames.len(), 100);
    assert_eq!(trace.frames[0].opcode, "149");
    assert_eq!(trace.frames[0].time, "t149");
    assert_eq!(trace.frames[99].params, "01 02");
    let page = settings_page(m, h, true, "", "v2");
    assert!(!page.token_set && page.monitor_only);
    let dev = dev_page(false, true, "v2");
    assert_eq!((dev.actions.len(), dev.keys.len()), (30, 59));
    assert_eq!(login_page().error, "");
}

#[test]
fn actions_answer_with_notes() {
    assert_eq!(askama_escape("<a & b>"), "&lt;a &amp; b&gt;");
    match action_result("Key", &Ok("1 < 2".into())) {
        ActionReply::Note { html, toast } => {
            assert_eq!(html, "<div class=\"action-note ok\">Key: 1 &lt; 2</div>");
            assert_eq!(toast, "ok: 1 < 2");
        }
        other => panic!("{other:?}"),
    }
    match action_result("Key", &Err(ExecError::InvalidKey)) {
        ActionReply::Failed { reply, toast } => {
            assert_eq!(reply.status, 400);
            assert_eq!(toast, "err: invalid key");
        }
        other => panic!("{other:?}"),
    }
    match hdmi_result(&HdmiForm { port: 2 }, Err(ExecError::AdapterUnavailable)) {
        ActionReply::Failed { reply, .. } => assert_eq!(reply.status, 503),
        other => panic!("{other:?}"),
    }
    match set_source_result(&SetSourceForm { addr: 4 }, Ok(())) {
        ActionReply::Note { toast, .. } => assert_eq!(toast, "ok: switched to 4"),
        other => panic!("{other:?}"),
    }
    assert!(matches!(
        act_power_on(Some(&live()), &AddrForm { addr: None }),
        Ok(CecCall::PowerOn { address: 0 })
    ));
    assert!(matches!(
        act_power_off(None, &AddrForm { addr: Some(4) }),
        Err(ExecError::AdapterUnavailable)
    ));
    assert_eq!(act_deep_scan(true).body.message, "deep scan queued");
    assert_eq!(act_deep_scan(false).status, 503);
    let saved = act_mqtt_save(
        &MqttConfig { broker: "b".into(), user: "u".into(), pass: "p".into(), prefix: "x".into() },
        MqttSaveForm {
            broker: "c".into(),
            user: String::new(),
            pass: "***".into(),
            prefix: String::new(),
        },
    );
    assert_eq!((saved.pass.as_str(), saved.prefix.as_str()), ("p", "capi"));
}

#[test]
fn keys_go_to_the_active_source() {
    let form = |addr| NavKeyForm { key: "f1_blue".into(), addr };
    assert_eq!(nav_target(&form(None), &bus(), at(0)), 4);
    assert_eq!(nav_target(&form(Some(5)), &bus(), at(0)), 5);
    assert_eq!(nav_target(&form(Some(-1)), &bus(), at(0)), 0);
    assert!(matches!(
        act_nav_key(Some(&live()), &form(None), &bus(), at(0)),
        Ok(KeyPlan::Press { call: CecCall::SendKeypress { address: 4, key: 0x71, .. } })
    ));
    assert!(matches!(
        act_nav_key(None, &form(None), &bus(), at(0)),
        Err(ActionOrReply::Plain(_))
    ));
    let bad = NavKeyForm { key: "zz".into(), addr: None };
    assert!(matches!(
        act_nav_key(Some(&live()), &bad, &bus(), at(0)),
        Err(ActionOrReply::Action(_))
    ));
}

#[test]
fn login_sets_the_cookie() {
    let form = |t: &str| LoginForm { token: t.into() };
    match login_submit(&form("s3cr3t"), "s3cr3t", "") {
        LoginOutcome::Cookie(c) => {
            assert_eq!(c, "capi_token=s3cr3t; Path=/; HttpOnly; SameSite=Lax");
        }
        other => panic!("{other:?}"),
    }
    assert!(matches!(login_submit(&form("x"), "s3cr3t", "x"), LoginOutcome::Cookie(_)));
    assert!(matches!(login_submit(&form(""), "", ""), LoginOutcome::Page(_)));
}
