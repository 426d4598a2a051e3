//! The HTTP surface: authentication, the JSON API, the dev API, metrics and the WebSocket stream.

use capi::busstate::BusState;
use capi::cec::session::{CecCall, Connection};
use capi::cec::types::{
    CecError, Command, Configuration, LogicalAddress, Opcode, PowerStatus,
};
use capi::events::{EventHub, LogRing, Metrics};
use capi::exec::{
    action_summary, after_port_switch, hdmi_port_fallback, key_to_action, run_action, send_key as exec_send_key,
    switch_to_physical, validate_key_args, volume_action, volume_target, ExecError, KeyPlan,
};
use capi::server::api::{
    active_source_handler, audio_status_handler, bus_frames_handler, bus_scan_handler,
    bus_state_handler, device_handler, device_reply, devices_handler, devices_reply,
    event_type_names, hdmi_port_handler, hdmi_port_reply, health_handler, logs_handler,
    mqtt_settings_get, mqtt_settings_post, mqtt_settings_reply, power_off_handler, power_on_handler,
    power_on_reply, power_status_handler, power_status_reply, raw_command_handler,
    raw_command_reply, send_key_handler, set_source_handler, summary_reply, topology_handler,
    update_handler, volume, DevicesQuery, Health, KeyRequest, MqttSettingsRequest,
    RawCommandRequest, VolumeQuery,
};
use capi::server::auth::{
    decide, form_urlencoded, guard, host_allowed, host_of, percent_decode, Credentials, HostParse, Verdict,
};
use capi::server::dev_api::{
    actions, begin_strategies, get_mode, keys, mode_reply, opcodes, parse_hex_bytes, post_mode,
    probe, put_override, run_strategies, run_strategies_reply, save_strategy,
    save_strategy_reply, send_key, send_key_reply, send_opcode, send_opcode_reply, BurstRun,
    ModeBody, ModeChange, ProbeRequest, RunStrategiesRequest, SaveStrategyRequest, SendKeyRequest, SendOpcodeRequest,
};
use capi::server::metrics::{metrics_handler, Readings};
use capi::server::ws::{origin_allowed, render_oob, Coalescer};
use capi::server::{api_map_exec, is_streaming, request_id, truthy, Reply};
use capi::steward::{JobKind, StewardWait};
use capi::strategies::{Action, Registry, RunOptions, StratStatus};
use capi::strategy_run::StrategyRun;
use capi::time::{Duration, Timestamp};
use capi::types::{BusFrameEntry, MqttConfig, StrategyOverride};
use serde_json::Value;

fn at(secs: i64) -> Timestamp {
    Timestamp::new(1_700_000_000 + secs, 0).unwrap()
}

fn data(r: &Reply) -> &Value {
    r.body.data.as_ref().expect("data")
}

fn live() -> Connection {
    let mut c = Connection::opened_session(1, &Configuration::default(), true).unwrap();
    c.adapter_opened(1).unwrap();
    c
}

fn listening() -> Connection {
    let config = Configuration { monitor_only: true, ..Configuration::default() };
    let mut c = Connection::opened_session(1, &config, true).unwrap();
    c.adapter_opened(1).unwrap();
    c
}

fn request(method: &str, path: &str) -> Credentials {
    Credentials {
        method: method.into(),
        path: path.into(),
        query: None,
        host: Some("pi:8080".into()),
        origin: None,
        authorization: None,
        auth_token: None,
        cookie: None,
        fetch_site: None,
    }
}

fn status_of(v: &Verdict) -> u16 {
    match v {
        Verdict::Pass => 200,
        Verdict::Refused(r) | Verdict::Login(r) => r.status,
    }
}

// ---- authentication ---------------------------------------------------------

#[test]
fn hosts_are_compared_without_scheme_and_case() {
    assert_eq!(HostParse::parse("https://Pi:8080/x").unwrap().0, "pi:8080");
    assert_eq!(HostParse::parse("pi").unwrap().0, "pi");
    assert!(HostParse::parse("https://").is_none());
    assert_eq!(host_of("PI:8080//"), "pi:8080");
}

#[test]
fn queries_are_decoded() {
    assert_eq!(percent_decode("a%20b+c"), "a b c");
    assert_eq!(percent_decode("%C3%A9"), "\u{e9}");
    assert_eq!(percent_decode("%zz1%4"), "1%4");
    assert_eq!(percent_decode("%+5"), "\u{5}");
    assert_eq!(percent_decode("%ff"), "\u{fffd}");
    assert_eq!(
        form_urlencoded("a=1&b&k%65y=s%3Dt"),
        vec![("a".to_string(), "1".to_string()), ("key".to_string(), "s=t".to_string())]
    );
}

#[test]
fn open_mode_refuses_cross_origin_posts() {
    let mut r = request("POST", "/api/power/on");
    assert!(matches!(decide("", &r), Verdict::Pass));
    r.origin = Some("http://pi:8080".into());
    assert!(matches!(decide("", &r), Verdict::Pass));
    r.origin = Some("http://evil".into());
    assert_eq!(status_of(&decide("", &r)), 403);
    r.method = "GET".into();
    assert!(matches!(decide("", &r), Verdict::Pass));
}

#[test]
fn the_token_is_required() {
    let r = request("GET", "/api/devices");
    assert_eq!(status_of(&decide("s3cr3t", &r)), 401);
    assert!(matches!(decide("s3cr3t", &r), Verdict::Refused(_)));
    assert!(matches!(decide("s3cr3t", &request("GET", "/")), Verdict::Login(_)));
    for path in ["/api/health", "/metrics", "/login", "/ui/static/app.js"] {
        assert!(matches!(decide("s3cr3t", &request("GET", path)), Verdict::Pass), "{path}");
    }
    let mut bearer = request("POST", "/api/power/on");
    bearer.authorization = Some("Bearer s3cr3t".into());
    bearer.origin = Some("http://evil".into());
    assert!(matches!(decide("s3cr3t", &bearer), Verdict::Pass));
    bearer.authorization = Some("Bearer nope".into());
    assert_eq!(status_of(&decide("s3cr3t", &bearer)), 401);
    let mut header = request("POST", "/api/power/on");
    header.auth_token = Some("s3cr3t".into());
    assert!(matches!(decide("s3cr3t", &header), Verdict::Pass));
    let mut query = request("GET", "/api/events");
    query.query = Some("x=1&key=s3cr3t".into());
    assert!(matches!(decide("s3cr3t", &query), Verdict::Pass));
}

#[test]
fn cookies_need_same_origin_evidence_for_mutations() {
    let mut r = request("GET", "/");
    r.cookie = Some("a=b; capi_token=s3cr3t".into());
    assert!(matches!(decide("s3cr3t", &r), Verdict::Pass));
    r.method = "POST".into();
    assert_eq!(status_of(&decide("s3cr3t", &r)), 403);
    r.origin = Some("http://PI:8080".into());
    assert!(matches!(decide("s3cr3t", &r), Verdict::Pass));
    r.origin = Some("http://evil".into());
    assert_eq!(status_of(&decide("s3cr3t", &r)), 401);
    r.origin = None;
    r.fetch_site = Some("same-origin".into());
    assert!(matches!(decide("s3cr3t", &r), Verdict::Pass));
    r.fetch_site = Some("cross-site".into());
    assert_eq!(status_of(&decide("s3cr3t", &r)), 403);
}

#[test]
fn foreign_hosts_are_refused() {
    assert!(host_allowed("PI:8080", "pi:8080", "10.0.0.2"));
    assert!(host_allowed("localhost:8080", ":8080", "10.0.0.2"));
    assert!(host_allowed("10.0.0.2", ":8080", "10.0.0.2"));
    assert!(host_allowed("[::1]:8080", ":8080", "::1"));
    assert!(!host_allowed("evil.example:8080", ":8080", "10.0.0.2"));
    assert!(!host_allowed("10.0.0.3", ":8080", "10.0.0.2"));
    assert!(!host_allowed("", ":8080", "10.0.0.2"));
    let mut r = request("GET", "/api/devices");
    r.auth_token = Some("s3cr3t".into());
    assert_eq!(status_of(&guard("s3cr3t", &r, ":8080", "10.0.0.2")), 403);
    r.auth_token = None;
    for bind in [":8080", "pi:8080"] {
        r.path = "/api/devices".into();
        assert!(matches!(guard("s3cr3t", &r, bind, "10.0.0.2"), Verdict::Refused(_)));
        assert_eq!(status_of(&guard("s3cr3t", &r, bind, "10.0.0.2")), 401);
        r.path = "/devices".into();
        assert!(matches!(guard("s3cr3t", &r, bind, "10.0.0.2"), Verdict::Login(_)));
        assert_eq!(status_of(&guard("s3cr3t", &r, bind, "10.0.0.2")), 401);
    }
    r.path = "/api/devices".into();
    r.auth_token = Some("s3cr3t".into());
    assert!(matches!(guard("s3cr3t", &r, "pi:8080", "10.0.0.2"), Verdict::Pass));
    assert!(matches!(guard("", &r, ":8080", "10.0.0.2"), Verdict::Pass));
    r.path = "/api/health".into();
    assert!(matches!(guard("s3cr3t", &r, ":8080", "10.0.0.2"), Verdict::Pass));
}

#[test]
fn the_login_cookie_opens() {
    let form = capi::ui::LoginForm { token: "s3cr3t".into() };
    let cookie = match capi::ui::login_submit(&form, "s3cr3t", "") {
        capi::ui::LoginOutcome::Cookie(c) => c,
        other => panic!("{other:?}"),
    };
    let mut r = request("GET", "/");
    r.cookie = Some(cookie.split(';').next().unwrap().to_string());
    assert!(matches!(decide("s3cr3t", &r), Verdict::Pass));
}

#[test]
fn small_server_helpers() {
    assert!(truthy(" Yes ") && truthy("1") && truthy("ON"));
    assert!(!truthy("0") && !truthy(""));
    assert!(is_streaming("/api/events") && is_streaming("/ui/static/x"));
    assert!(!is_streaming("/api/devices"));
    assert_eq!(request_id(Some("00Ff"), 1, 2), "00Ff");
    assert_eq!(request_id(Some("x\n"), 0x1234, 2), "000012340002");
    assert_eq!(request_id(None, 1, 0x12345), "0000000112345");
    assert_eq!(request_id(Some(&"a".repeat(33)), 0, 0), "000000000000");
}

#[test]
fn errors_map_to_status_codes() {
    assert_eq!(api_map_exec(&ExecError::AdapterUnavailable).status, 503);
    assert_eq!(api_map_exec(&ExecError::InvalidKey).status, 400);
    assert_eq!(api_map_exec(&ExecError::InvalidLogicalAddress).status, 400);
    assert_eq!(api_map_exec(&ExecError::InvalidHdmiPort).status, 400);
    assert_eq!(api_map_exec(&ExecError::MissingKey).status, 400);
    assert_eq!(api_map_exec(&ExecError::Cec(CecError::Closed)).status, 500);
    let other = api_map_exec(&ExecError::Other("why".into()));
    assert_eq!((other.status, other.body.message.as_str()), (500, "why"));
}

// ---- JSON API -----------------------------------------------------------------

#[test]
fn device_lists_wait_as_asked() {
    let q = |live: Option<&str>, wait: Option<&str>| DevicesQuery {
        live: live.map(str::to_owned),
        rescan: None,
        wait: wait.map(str::to_owned),
    };
    assert_eq!(devices_handler(false, &q(None, None)).unwrap_err().status, 503);
    let plan = devices_handler(true, &q(None, None)).unwrap();
    assert!(plan.wait.is_zero() && !plan.live && plan.kind == JobKind::Light);
    let plan = devices_handler(true, &q(Some("1"), None)).unwrap();
    assert_eq!((plan.wait, plan.kind), (Duration::from_secs(5), JobKind::Full));
    let plan = devices_handler(true, &q(None, Some("99"))).unwrap();
    assert_eq!(plan.wait, Duration::from_secs(10));
    let bad = devices_handler(true, &q(None, Some("soon"))).unwrap_err();
    assert_eq!(bad.status, 400);
    assert_eq!(bad.body.message, "invalid wait: invalid duration \"soon\"");
    let bus = BusState::new();
    assert_eq!(devices_reply(&bus, true, Ok(()), at(0)).body.message, "Devices retrieved (live)");
    assert_eq!(devices_reply(&bus, false, Err(StewardWait::QueueFull), at(0)).status, 503);
    assert_eq!(devices_reply(&bus, false, Err(StewardWait::Timeout), at(0)).status, 504);
}

#[test]
fn addresses_in_paths_are_checked() {
    let c = live();
    assert_eq!(device_handler(Some(&c), "4").unwrap(), LogicalAddress(4));
    assert_eq!(device_handler(Some(&c), "15").unwrap_err().status, 400);
    assert_eq!(device_handler(None, "4").unwrap_err().status, 503);
    assert_eq!(device_handler(None, "x").unwrap_err().status, 400);
    let (addr, call) = power_on_handler(Some(&c), None).unwrap();
    assert_eq!(addr, 0);
    assert!(matches!(call, CecCall::PowerOn { address: 0 }));
    assert_eq!(power_on_handler(Some(&c), Some("abc")).unwrap_err().status, 400);
    assert_eq!(power_on_handler(Some(&c), Some("20")).unwrap_err().status, 400);
    assert_eq!(power_off_handler(None, Some("4")).unwrap_err().status, 503);
    assert!(matches!(
        power_status_handler(Some(&c), Some("5")).unwrap().1,
        CecCall::PowerStatus { address: 5 }
    ));
    assert!(matches!(
        set_source_handler(Some(&c), "4").unwrap().1,
        CecCall::PhysicalAddress { address: 4 }
    ));
    assert!(matches!(
        hdmi_port_handler(Some(&c), "2").unwrap().1,
        CecCall::SetHdmiPort { base_device: 0, port: 2 }
    ));
    assert_eq!(hdmi_port_handler(Some(&c), "16").unwrap_err().body.message, "invalid HDMI port");
    assert_eq!(power_on_reply(4, &Ok(())).body.message, "Power on command sent to device 4");
    assert_eq!(hdmi_port_reply(2, &Ok(())).body.message, "Switched to HDMI port 2");
    assert_eq!(power_on_reply(4, &Err(CecError::Closed)).status, 500);
    let status = power_status_reply(0, &Ok(PowerStatus(0)));
    assert_eq!(data(&status)["status"], Value::from("On"));
    assert_eq!(device_reply(&Err(CecError::Closed)).status, 500);
}

#[test]
fn volume_goes_to_the_named_device() {
    let c = live();
    let q = |s: Option<&str>| VolumeQuery { address: s.map(str::to_owned) };
    assert_eq!(volume(Some(&c), None, &q(None)).unwrap(), None);
    assert_eq!(volume(Some(&c), None, &q(Some(" "))).unwrap(), None);
    assert_eq!(volume(Some(&c), None, &q(Some("5"))).unwrap(), Some(LogicalAddress(5)));
    assert_eq!(volume(Some(&c), Some("0"), &q(Some("5"))).unwrap(), Some(LogicalAddress(0)));
    assert_eq!(volume(Some(&c), None, &q(Some("15"))).unwrap_err().status, 400);
    assert_eq!(volume(None, None, &q(None)).unwrap_err().status, 503);
    assert_eq!(summary_reply(&Ok("done".into())).body.message, "done");
    assert_eq!(volume_target(Some(15)).unwrap_err().to_string(), "invalid logical address");
}

#[test]
fn bus_answers() {
    let mut bus = BusState::new();
    bus.append_frame(
        &Command {
            initiator: LogicalAddress(0),
            destination: LogicalAddress(4),
            opcode: Opcode(0x90),
            opcode_set: true,
            parameters: vec![0],
            ack: true,
            eom: true,
        },
        4,
        at(0),
    );
    let frames = bus_frames_handler(&bus);
    assert_eq!(data(&frames)[0]["seq"], Value::from(1));
    assert_eq!(data(&frames)[0]["timestamp"], Value::from("2023-11-14T22:13:20Z"));
    assert_eq!(data(&frames)[0]["params_hex"][0], Value::from("00"));
    let state = bus_state_handler(&bus, at(0));
    assert_eq!(data(&state)["last_full_scan_at"], Value::Null);
    assert_eq!(data(&state)["cec_ready"], Value::from(false));
    let topo = topology_handler(&bus, at(0));
    assert_eq!(data(&topo)["known_port_count"], Value::from(4));
    assert_eq!(data(&topo)["ports"][3]["port"], Value::from(4));
    let scan = bus_scan_handler(true);
    assert_eq!((scan.status, &data(&scan)["accepted"]), (202, &Value::from(true)));
    assert_eq!(bus_scan_handler(false).status, 503);
    assert_eq!(
        data(&active_source_handler(&Some(Err(CecError::NoActiveSource))))["active_source"],
        Value::from(-1)
    );
    assert_eq!(active_source_handler(&None).status, 503);
    let audio = audio_status_handler(Some((20, true, 148)));
    assert_eq!(data(&audio)["volume"], Value::from(20));
    assert_eq!(data(&audio)["raw"], Value::from(148));
}

#[test]
fn keys_and_raw_commands_are_checked() {
    let c = live();
    let key = |address, key: &str, keycode| KeyRequest { address, key: key.into(), keycode };
    assert_eq!(send_key_handler(Some(&c), None).unwrap_err().status, 400);
    assert_eq!(send_key_handler(None, Some(&key(4, "nope", 0))).unwrap_err().status, 400);
    assert_eq!(send_key_handler(None, Some(&key(4, "up", 0))).unwrap_err().status, 503);
    assert_eq!(send_key_handler(Some(&c), Some(&key(4, "", 0))).unwrap_err().status, 400);
    assert!(matches!(
        send_key_handler(Some(&c), Some(&key(4, "", 0x41))).unwrap(),
        KeyPlan::Press { call: CecCall::SendKeypress { address: 4, key: 0x41, wait: true } }
    ));
    assert!(matches!(
        exec_send_key(Some(&c), 4, "volume-up", 0).unwrap(),
        KeyPlan::Run { action: Action::VolumeUp, .. }
    ));
    assert!(validate_key_args(4, "select", 0).is_ok());
    assert_eq!(key_to_action("mute"), Some(Action::Mute));

    let raw = |initiator, destination, opcode, n: usize| RawCommandRequest {
        initiator,
        destination,
        opcode,
        parameters: vec![0; n],
    };
    assert_eq!(raw_command_handler(Some(&c), None).unwrap_err().status, 400);
    for bad in [raw(16, 0, 0, 0), raw(0, -1, 0, 0), raw(0, 0, 256, 0), raw(0, 0, 0, 15)] {
        assert_eq!(raw_command_handler(Some(&c), Some(bad)).unwrap_err().status, 400);
    }
    assert_eq!(raw_command_handler(None, Some(raw(1, 0, 140, 0))).unwrap_err().status, 503);
    match raw_command_handler(Some(&c), Some(raw(1, 0, 140, 14))).unwrap() {
        CecCall::Transmit { command } => assert_eq!(command.opcode, Opcode(140)),
        other => panic!("{other:?}"),
    }
    let m = listening();
    assert_eq!(raw_command_handler(Some(&m), Some(raw(1, 0, 140, 0))).unwrap_err().status, 500);
    assert_eq!(raw_command_reply(&Err(CecError::AdapterNotOpen)).status, 503);
    assert_eq!(raw_command_reply(&Ok(())).body.message, "Raw command sent");
}

#[test]
fn logs_health_and_update() {
    let mut logs = LogRing::new(8);
    logs.push("APP", "hello".into(), at(0));
    assert_eq!(data(&logs_handler(&logs))[0]["message"], Value::from("hello"));
    let h = health_handler(&Health {
        version: "v2".into(),
        libcec: "7.1.1".into(),
        started: at(0),
        now: at(61),
        cec_ready: true,
        subscribers: 2,
        hub: EventHub { dropped: 1, delivered: 9 },
        frames_captured: 3,
    });
    assert_eq!(data(&h)["uptime_seconds"], Value::from(61));
    assert_eq!(data(&h)["events_delivered"], Value::from(9));
    assert_eq!(data(&h)["libcec"], Value::from("7.1.1"));
    let up = update_handler(&Ok(Some("v3".into())), "v2");
    assert_eq!(up.body.message, "Updated to v3, restarting...");
    assert_eq!(data(&update_handler(&Ok(None), "v2"))["version"], Value::from("v2"));
    assert_eq!(update_handler(&Err("x".into()), "v2").status, 502);
    assert_eq!(event_type_names()[7], "adapter_state");
}

#[test]
fn mqtt_settings_keep_the_password_behind_the_mask() {
    let cfg = MqttConfig {
        broker: "tcp://b:1".into(),
        user: "u".into(),
        pass: "p".into(),
        prefix: "tv".into(),
    };
    let told = mqtt_settings_get(&cfg, true);
    let d = data(&told);
    assert_eq!(d["pass"], Value::from("***"));
    let field = |k: &str| d[k].as_str().unwrap().to_string();
    let back = MqttSettingsRequest {
        broker: field("broker"),
        user: field("user"),
        pass: field("pass"),
        prefix: field("prefix"),
    };
    let saved = mqtt_settings_post(&cfg, Some(&back)).unwrap();
    assert_eq!((saved.pass.as_str(), saved.prefix.as_str()), ("p", "tv"));
    let blank = MqttSettingsRequest {
        broker: " b ".into(),
        user: String::new(),
        pass: String::new(),
        prefix: " ".into(),
    };
    let saved = mqtt_settings_post(&cfg, Some(&blank)).unwrap();
    assert_eq!((saved.broker.as_str(), saved.prefix.as_str()), ("b", "capi"));
    assert_eq!(saved.pass, "");
    assert_eq!(mqtt_settings_post(&cfg, None).unwrap_err().status, 400);
    assert_eq!(mqtt_settings_reply(&Err("disk".into())).body.message, "save config: disk");
}

// ---- dev API ---------------------------------------------------------------------

#[test]
fn modes() {
    assert_eq!(data(&get_mode(true, false))["mode"], Value::from("monitor_only"));
    let body = |mode: Option<&str>, monitor_only, reconnect| ModeBody {
        mode: mode.map(str::to_owned),
        monitor_only,
        reconnect,
    };
    assert_eq!(post_mode(Some(&body(None, None, true))).unwrap(), ModeChange::Reconnect);
    assert_eq!(
        post_mode(Some(&body(Some("passive"), None, false))).unwrap(),
        ModeChange::Monitor(false)
    );
    assert_eq!(
        post_mode(Some(&body(None, Some(true), false))).unwrap(),
        ModeChange::Monitor(true)
    );
    assert_eq!(post_mode(Some(&body(Some("loud"), None, false))).unwrap_err().status, 400);
    assert_eq!(post_mode(Some(&body(None, None, false))).unwrap_err().status, 400);
    assert_eq!(post_mode(None).unwrap_err().status, 400);
    assert_eq!(mode_reply(ModeChange::Monitor(true), &Err("x".into())).status, 500);
    assert_eq!(
        mode_reply(ModeChange::Monitor(false), &Ok(())).body.message,
        "mode set to passive \u{2014} reconnecting"
    );
}

fn seen(op: &str) -> BusFrameEntry {
    BusFrameEntry {
        timestamp: at(0),
        initiator: 0,
        destination: 4,
        opcode: op.into(),
        ack: true,
        eom: true,
        opcode_set: true,
        params_hex: vec!["00".into()],
    }
}

#[test]
fn probes() {
    let c = live();
    let ask = |address, kind: &str, observe_ms| ProbeRequest { address, kind: kind.into(), observe_ms };
    assert_eq!(probe(Some(&c), None).unwrap_err().status, 400);
    assert_eq!(probe(Some(&c), Some(&ask(15, "", None))).unwrap_err().status, 400);
    assert_eq!(probe(None, Some(&ask(0, "", None))).unwrap_err().status, 503);
    assert_eq!(probe(Some(&listening()), Some(&ask(0, "", None))).unwrap_err().status, 409);
    assert_eq!(
        probe(Some(&c), Some(&ask(0, "zzz", None))).unwrap_err().body.message,
        "unknown probe kind \"zzz\""
    );
    assert_eq!(probe(Some(&c), Some(&ask(0, "", None))).unwrap().wanted.len(), 8);
    let mut run = probe(Some(&c), Some(&ask(4, "P", Some(9_000)))).unwrap();
    assert_eq!(run.observe_ms, 5000);
    assert_eq!(run.wanted.len(), 2);
    let cmd = run.next_command(None).unwrap();
    assert_eq!(cmd.opcode, Opcode(Opcode::GIVE_DEVICE_POWER_STATUS));
    run.record(None, 12, &vec![seen("0x90")]);
    let cmd = run.next_command(Some(LogicalAddress(4))).unwrap();
    assert_eq!(cmd.opcode, Opcode(Opcode::GIVE_PHYSICAL_ADDRESS));
    run.record(Some(&CecError::Closed), 3, &vec![]);
    assert!(run.next_command(None).is_none());
    let r = run.finish();
    assert_eq!(data(&r)["total_replies"], Value::from(1));
    assert_eq!(data(&r)["steps"][0]["result"], Value::from("ok"));
    assert_eq!(data(&r)["steps"][0]["replies"][0]["opcode"], Value::from("0x90"));
    assert_eq!(data(&r)["steps"][1]["result"], Value::from("error"));
    let menu = probe(Some(&c), Some(&ask(0, "menu", None))).unwrap().next_command(None).unwrap();
    assert_eq!(menu.parameters, vec![2]);
}

#[test]
fn blind_sends() {
    let c = live();
    let key = SendKeyRequest {
        address: 4,
        key: "up".into(),
        keycode: None,
        hold_ms: Some(9_999),
        repeat: Some(99),
    };
    let burst = send_key(Some(&c), Some(&key)).unwrap();
    assert_eq!((burst.hold_ms, burst.repeat, burst.keycode), (2000, 32, 0));
    assert_eq!(send_key(None, Some(&key)).unwrap_err().status, 503);
    assert_eq!(send_key(Some(&c), None).unwrap_err().status, 400);
    let two = vec!["key sent".to_string(), "key sent".to_string()];
    assert_eq!(send_key_reply(&two, None).body.message, "key sent; key sent");
    assert_eq!(send_key_reply(&two, Some(&ExecError::InvalidKey)).status, 400);
    let mut run = BurstRun::start(burst);
    let (repeat, hold) = (run.burst.repeat, run.burst.hold_ms as u64);
    let mut sends = 0;
    while run.more() {
        assert_eq!(run.record(Ok("key sent".into())), hold);
        sends += 1;
    }
    assert_eq!(sends, repeat);
    assert_eq!(run.reply().status, 200);
    let mut run = BurstRun::start(send_key(Some(&c), Some(&key)).unwrap());
    assert_eq!(run.record(Err(ExecError::InvalidKey)), 0);
    assert!(!run.more());
    assert_eq!(run.reply().status, 400);

    assert_eq!(parse_hex_bytes(" 0x0a FF ").unwrap(), vec![0x0a, 0xff]);
    assert_eq!(parse_hex_bytes("").unwrap(), Vec::<u8>::new());
    assert_eq!(parse_hex_bytes("abc").unwrap_err(), "odd hex length");
    assert_eq!(parse_hex_bytes("zz").unwrap_err(), "invalid digit found in string");
    assert_eq!(parse_hex_bytes("\u{e9}").unwrap_err(), "invalid digit found in string");

    let op = |destination, opcode, hex: &str| SendOpcodeRequest {
        destination,
        opcode,
        params_hex: hex.into(),
        observe_ms: Some(1),
    };
    assert_eq!(send_opcode(Some(&c), Some(&op(16, 0, ""))).unwrap_err().status, 400);
    assert_eq!(send_opcode(Some(&c), Some(&op(0, 256, ""))).unwrap_err().status, 400);
    assert_eq!(
        send_opcode(Some(&c), Some(&op(0, 0, "f"))).unwrap_err().body.message,
        "invalid params_hex: odd hex length"
    );
    assert_eq!(send_opcode(Some(&c), Some(&op(0, 0, &"00".repeat(15)))).unwrap_err().status, 400);
    assert_eq!(send_opcode(Some(&listening()), Some(&op(0, 0, ""))).unwrap_err().status, 409);
    let send = send_opcode(Some(&c), Some(&op(15, 0x36, "0102"))).unwrap();
    assert_eq!(send.observe_ms, 100);
    let cmd = send.command(None);
    assert_eq!(cmd.parameters, vec![1, 2]);
    assert_eq!(cmd.initiator, LogicalAddress(LogicalAddress::FREE_USE));
    let r = send_opcode_reply(None, &vec![seen("0x90")]);
    assert_eq!(data(&r)["transmit_error"], Value::Null);
    assert_eq!(data(&r)["new_frames"][0]["opcode"], Value::from("0x90"));
}

#[test]
fn strategy_bench() {
    let c = live();
    let bus = BusState::new();
    let ask = |action: &str, target| RunStrategiesRequest {
        action: action.into(),
        target,
        observe_ms: None,
        all_strategies: None,
    };
    assert_eq!(run_strategies(Some(&c), &bus, None, at(0)).unwrap_err().status, 400);
    assert_eq!(
        run_strategies(Some(&c), &bus, Some(&ask("fly", None)), at(0)).unwrap_err().body.message,
        "unknown action \"fly\""
    );
    assert_eq!(
        run_strategies(Some(&c), &bus, Some(&ask("mute", Some(15))), at(0))
            .unwrap_err()
            .body
            .message,
        "invalid target 15"
    );
    assert_eq!(
        run_strategies(Some(&listening()), &bus, Some(&ask("mute", None)), at(0))
            .unwrap_err()
            .status,
        409
    );
    let (action, opts) = run_strategies(Some(&c), &bus, Some(&ask("mute", Some(-1))), at(0)).unwrap();
    assert_eq!(action, Action::Mute);
    assert!(opts.all_strategies && opts.target.is_none());
    let chain = begin_strategies(&Registry::new(), false, action, &opts).unwrap();
    assert_eq!((chain.limit_secs, chain.chain.len()), (30, 3));

    let mut registry = Registry::new();
    let name = registry.strategies_for("", Action::Mute).last().unwrap().name.clone();
    let save = |strategy: &str| SaveStrategyRequest {
        vendor: "0x0000f0".into(),
        action: "mute".into(),
        strategy: strategy.into(),
    };
    assert_eq!(save_strategy(&mut registry, Some(&save("nope"))).unwrap_err().status, 404);
    let o = save_strategy(&mut registry, Some(&save(&name))).unwrap();
    assert_eq!(registry.strategies_for("0x0000F0", Action::Mute).len(), 1);
    let mut list: Vec<StrategyOverride> = vec![];
    put_override(&mut list, o);
    let mut restarted = Registry::new();
    capi::dispatch::apply_persisted_strategy_overrides(&list, &mut restarted);
    let chain = restarted.strategies_for("0x0000F0", Action::Mute);
    assert_eq!(chain.len(), 1);
    assert_eq!(chain[0].name, name);
    put_override(
        &mut list,
        StrategyOverride {
            vendor: "0x0000f0".into(),
            action: "mute".into(),
            strategy: "other".into(),
        },
    );
    assert_eq!(list.len(), 1);
    assert_eq!(list[0].strategy, "other");
    assert_eq!(save_strategy_reply(&Ok(())).body.message, "override saved and applied");

    let run = StrategyRun::start(
        registry.strategies_for("", Action::Mute).remove(0),
        &RunOptions::default(),
    );
    let r = run_strategies_reply(Action::Mute, &vec![run.result]);
    assert_eq!(data(&r)["action"], Value::from("mute"));
    assert_eq!(data(&actions(&registry)).as_array().unwrap().len(), 30);
    assert_eq!(data(&keys()).as_array().unwrap().len(), 59);
    assert_eq!(data(&keys())[0][0], Value::from("select"));
    assert_eq!(data(&opcodes())[0], Value::from(vec![Value::from("FEATURE_ABORT"), Value::from(0)]));
}

#[test]
fn actions_are_summarised() {
    let registry = Registry::new();
    let bus = BusState::new();
    let mut chain = run_action(false, &bus, &registry, Action::Mute, None, at(0)).unwrap();
    let mut run = chain.next_run(Duration::zero()).unwrap();
    let name = run.strategy.name.clone();
    assert_eq!(chain.limit_secs, 5);
    run.result.status = StratStatus::Confirmed;
    chain.record(run.result);
    let text = action_summary(Action::Mute, &chain.results).unwrap();
    assert!(text.contains(&name), "{text}");
    assert!(action_summary(Action::Mute, &vec![]).is_err());
    assert!(matches!(
        volume_action(false, &bus, &registry, Action::VolumeUp, Some(15), at(0)),
        Err(ExecError::InvalidLogicalAddress)
    ));
    let begun = volume_action(false, &bus, &registry, Action::VolumeUp, Some(5), at(0)).unwrap();
    assert_eq!(begun.unwrap().chain.len(), 4);
    let forced = volume_action(false, &bus, &registry, Action::VolumeUp, Some(4), at(0));
    let forced = forced.unwrap().unwrap();
    for s in &forced.chain[..3] {
        assert_eq!(s.steps[0].target, LogicalAddress(4));
    }
    assert_eq!(forced.chain[0].name, "uc_volume_up_audio");
    let plain = volume_action(false, &bus, &registry, Action::VolumeUp, None, at(0));
    assert_eq!(plain.unwrap().unwrap().chain[0].steps[0].target, LogicalAddress(5));
    let c = live();
    match hdmi_port_fallback(&c, 2, Some(LogicalAddress(4))).unwrap() {
        CecCall::Transmit { command } => assert_eq!(command.parameters, vec![0x20, 0x00]),
        other => panic!("{other:?}"),
    }
    assert!(switch_to_physical(&listening(), 0x1000, None).is_err());
    assert!(matches!(after_port_switch(&c, 2, None, Ok(())), Ok(None)));
    let failed = || Err(CecError::LibcecCall("set hdmi port 2".into()));
    assert!(matches!(
        after_port_switch(&c, 2, None, failed()),
        Ok(Some(CecCall::Transmit { .. }))
    ));
    assert!(matches!(
        after_port_switch(&listening(), 2, None, failed()),
        Err(CecError::MonitorOnly)
    ));
}

// ---- metrics and WebSocket -------------------------------------------------------

#[test]
fn metrics_text() {
    let body = metrics_handler(&Readings {
        metrics: Metrics { requests_total: 7, ..Metrics::default() },
        hub: EventHub { dropped: 1, delivered: 2 },
        jobs_queued: 3,
        jobs_dropped: 4,
        frames_captured: 5,
        subscribers: 6,
        adapter_ready: true,
    });
    assert!(body.starts_with(
        "# HELP capi_requests_total Total HTTP requests.\n\
         # TYPE capi_requests_total counter\n\
         capi_requests_total 7\n\
         # HELP capi_errors_total Total non-2xx responses.\n"
    ));
    assert!(body.ends_with(
        "# TYPE capi_adapter_ready gauge\n\
         capi_adapter_ready 1\n"
    ));
    assert_eq!(body.lines().count(), 33);
}

#[test]
fn socket_origins() {
    assert!(origin_allowed(None, Some("pi")));
    assert!(origin_allowed(Some("http://PI:8080/x"), Some("pi:8080")));
    assert!(!origin_allowed(Some("http://pi:9"), Some("pi:8080")));
    assert!(!origin_allowed(Some("http://evil"), None));
}

#[test]
fn panels_are_coalesced() {
    let mut c = Coalescer::new();
    assert!(c.on_event("source_activated"));
    assert!(!c.on_event("key_press"));
    let p = c.on_flush();
    assert!(p.source && p.topology && !p.devices);
    assert!(c.on_event("power_change"));
    assert!(c.on_flush().devices);
    assert_eq!(
        render_oob(true, Some("<p>"), None, Some("s")),
        "<div id=\"devices-panel\" hx-swap-oob=\"innerHTML\"><p></div>\
         <div id=\"source-card\" hx-swap-oob=\"innerHTML\">s</div>"
    );
    assert_eq!(render_oob(false, Some("x"), None, None), "");
}
