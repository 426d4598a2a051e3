//! Settings, flags, updates, the supervisor, the MQTT link, and small helpers.

use capi::adapter::{AdapterHandle, WaitReason};
use capi::assets;
use capi::cec::types::{Adapter, CecError};
use capi::mqtt::{
    command_action, event_topic, split_broker, start, status_message, LinkEvent, MqttHandle,
};
use capi::settings::{parse_flags, CliOverrides, ConfigFile, Settings};
use capi::supervisor::{
    clamp_addrs, next_backoff, pick_adapter, publish_state, Supervisor, SupervisorAction,
    SupervisorEvent,
};
use capi::time::{Duration, Timestamp};
use capi::types::{Config, MqttConfig};
use capi::update::{
    abi_suffix, asset_name_for, expected_hash, is_wanted, next_swap_step, parse_tag, plan_update,
    release_url, verify_checksum, verify_download, Asset, ReleaseInfo, SwapStep,
};
use capi::util::{parse_wait, title_case};

fn fresh_settings() -> Settings {
    Settings::load("/tmp/config.json", ConfigFile::Missing).unwrap()
}

#[test]
fn missing_file_yields_defaults() {
    let s = fresh_settings();
    assert_eq!(s.get().mqtt.prefix, "capi");
}

#[test]
fn corrupt_config_is_an_error_not_silent_defaults() {
    let file = ConfigFile::Text {
        raw: "{ not json".into(),
        parsed: Err("key must be a string at line 1 column 3".into()),
    };
    assert!(Settings::load("/tmp/config.json", file).is_err());
    let blank = ConfigFile::Text { raw: "  ".into(), parsed: Err("eof".into()) };
    assert!(Settings::load("/tmp/config.json", blank).is_ok());
    assert!(Settings::load("/tmp/c", ConfigFile::Unreadable("denied".into())).is_err());
}

#[test]
fn update_failure_leaves_memory_untouched() {
    let mut s = fresh_settings();
    let next = Config { auth_token: "x".into(), ..Config::default() };
    assert!(s.update(next, Err("no such directory".into())).is_err());
    assert_eq!(s.get().auth_token, "");
    let next = Config { auth_token: "x".into(), ..Config::default() };
    assert!(s.update(next, Ok(())).is_ok());
    assert_eq!(s.get().auth_token, "x");
}

#[test]
fn apply_overrides_semantics() {
    let mut s = fresh_settings();
    s.apply_overrides(&CliOverrides {
        mqtt_broker: Some("tcp://b:1".into()),
        mqtt_user: None,
        mqtt_pass: None,
        mqtt_prefix_explicit: false,
        mqtt_prefix: "capi".into(),
        token: Some("t".into()),
    });
    let cfg = s.get();
    assert_eq!(cfg.mqtt.broker, "tcp://b:1");
    assert_eq!(cfg.mqtt.prefix, "capi");
    assert_eq!(cfg.auth_token, "t");
    s.apply_overrides(&CliOverrides {
        mqtt_broker: None,
        mqtt_user: None,
        mqtt_pass: None,
        mqtt_prefix_explicit: false,
        mqtt_prefix: String::new(),
        token: None,
    });
    assert_eq!(s.get().mqtt.broker, "tcp://b:1");
}

#[test]
fn an_empty_prefix_stays_unless_one_is_passed() {
    let mut s = fresh_settings();
    let mut next = Config::default();
    next.mqtt.prefix = String::new();
    s.update(next, Ok(())).unwrap();
    let mut o = CliOverrides {
        mqtt_broker: None,
        mqtt_user: None,
        mqtt_pass: None,
        mqtt_prefix_explicit: false,
        mqtt_prefix: "capi".into(),
        token: None,
    };
    s.apply_overrides(&o);
    assert_eq!(s.get().mqtt.prefix, "");
    o.mqtt_prefix_explicit = true;
    s.apply_overrides(&o);
    assert_eq!(s.get().mqtt.prefix, "capi");
}

#[test]
fn a_load_gives_back_what_was_saved() {
    let mut s = fresh_settings();
    let next = Config { auth_token: "tok".into(), ..Config::default() };
    s.update(next.clone(), Ok(())).unwrap();
    let file = ConfigFile::Text { raw: "{\"auth_token\":\"tok\"}".into(), parsed: Ok(next) };
    let again = Settings::load(s.path(), file).unwrap();
    assert_eq!(again.get().auth_token, s.get().auth_token);
    assert_eq!(again.path(), s.path());
}

#[test]
fn flag_parsing_styles() {
    let f = parse_flags(&vec![
        "-bind".into(),
        ":9".into(),
        "-token=xyz".into(),
        "-cec-monitor".into(),
    ])
    .unwrap();
    assert_eq!(f.bind, ":9");
    assert_eq!(f.token, "xyz");
    assert!(f.cec_monitor);
    assert!(parse_flags(&vec!["-nope".into()]).is_err());
    assert!(parse_flags(&vec!["-bind".into()]).is_err());
}

#[test]
fn semver_compare() {
    assert_eq!(parse_tag("v1.2.3"), Some((1, 2, 3)));
    assert_eq!(parse_tag("1.2.3"), None);
    assert_eq!(parse_tag("v1.2"), None);
    assert!(parse_tag("dev").is_none());
    assert_eq!(parse_tag("v1.2.3.4"), None);
    assert_eq!(parse_tag("v1.2.3-rc1"), None);
    assert_eq!(parse_tag("v+1.2.3"), None);
}

#[test]
fn sums_parsing() {
    let sums = "abc123  capi-linux-arm64-libcec6\ndef456 *capi-linux-armv6-libcec6\n";
    assert_eq!(expected_hash(sums, "capi-linux-arm64-libcec6").unwrap(), "abc123");
    assert_eq!(expected_hash(sums, "capi-linux-armv6-libcec6").unwrap(), "def456");
    assert_eq!(expected_hash(sums, "missing"), None);
}

#[test]
fn asset_naming_rejects_x86() {
    assert!(asset_name_for("x86_64", 6).is_err());
    assert_eq!(asset_name_for("aarch64", 6).unwrap(), "capi-linux-arm64-libcec6");
    assert_eq!(asset_name_for("arm", 7).unwrap(), "capi-linux-armv6-libcec7");
    assert!(abi_suffix(4).is_err());
}

fn release(tag: &str, names: &[&str]) -> ReleaseInfo {
    ReleaseInfo {
        tag_name: tag.into(),
        assets: names
            .iter()
            .map(|n| Asset {
                name: n.to_string(),
                browser_download_url: format!("http://h/{n}"),
            })
            .collect(),
    }
}

#[test]
fn update_flow_skips_older_or_equal() {
    let rel = release("v1.0.0", &[]);
    assert!(plan_update("v1.0.0", &rel, Ok("bin".into())).unwrap().is_none());
    assert!(plan_update("v1.0.1", &rel, Ok("bin".into())).unwrap().is_none());
    assert!(is_wanted("dev", "v1.0.0"));
    assert!(!is_wanted("v2.0.0", "v1.9.9"));
}

#[test]
fn update_flow_refuses_when_sums_missing() {
    let rel = release("v99.0.0", &["capi-linux-arm64-libcec6"]);
    let err = plan_update("v1.0.0", &rel, Ok("capi-linux-arm64-libcec6".into())).unwrap_err();
    assert!(err.contains("SHA256SUMS"), "{err}");
    let none = release("v99.0.0", &["SHA256SUMS"]);
    assert!(plan_update("v1.0.0", &none, Ok("capi-linux-arm64-libcec6".into())).is_err());
}

#[test]
fn update_flow_rejects_bad_checksum() {
    let sums = "0000  capi-linux-arm64-libcec6\n";
    let err = verify_download(&[1u8, 2, 3], sums, "capi-linux-arm64-libcec6").unwrap_err();
    assert!(err.contains("checksum mismatch"), "{err}");
}

#[test]
fn update_flow_downloads_verifies_and_swaps() {
    let rel = release("v99.0.0", &["capi-linux-arm64-libcec6", "SHA256SUMS"]);
    let plan = plan_update("v1.0.0", &rel, Ok("capi-linux-arm64-libcec6".into()))
        .unwrap()
        .unwrap();
    assert_eq!(plan.tag, "v99.0.0");
    assert_eq!(plan.sums_url, "http://h/SHA256SUMS");
    let sums = "ba7816bf8f01cfea414140de5dae2223b00361a396177a9cb410ff61f20015ad  \
                capi-linux-arm64-libcec6\n";
    assert!(verify_download(b"abc", sums, &plan.asset_name).is_ok());
    assert!(verify_checksum(sums, "other", "x").is_err());
    let mut step = SwapStep::Backup;
    step = next_swap_step(step, true);
    assert_eq!(step, SwapStep::Install);
    assert_eq!(next_swap_step(step, true), SwapStep::Installed);
    step = next_swap_step(step, false);
    assert_eq!(step, SwapStep::Restore);
    assert_eq!(next_swap_step(step, true), SwapStep::RolledBack);
    assert_eq!(
        release_url("https://api.github.com", "o/r"),
        "https://api.github.com/repos/o/r/releases/latest"
    );
}

#[test]
fn wait_parsing() {
    assert_eq!(parse_wait("5").unwrap(), Duration::from_secs(5));
    assert_eq!(parse_wait("5s").unwrap(), Duration::from_secs(5));
    assert_eq!(parse_wait("500ms").unwrap(), Duration::from_millis(500));
    assert_eq!(parse_wait("").unwrap(), Duration::zero());
    assert!(parse_wait("abc").is_err());
    assert!(parse_wait("-3").is_err());
}

#[test]
fn wait_parsing_of_fractions_and_sums() {
    assert_eq!(parse_wait("1.5s").unwrap(), Duration::from_millis(1500));
    assert_eq!(parse_wait(" 1m30s ").unwrap(), Duration::from_secs(90));
    assert_eq!(parse_wait(".5m").unwrap(), Duration::from_secs(30));
    assert_eq!(parse_wait("1.9ms").unwrap(), Duration::from_millis(1));
    assert_eq!(parse_wait("0.0000000015").unwrap(), Duration { secs: 0, nanos: 2 });
    assert_eq!(
        parse_wait("99999999999999999999ms").unwrap(),
        Duration::from_millis(u64::MAX)
    );
    assert_eq!(parse_wait("5h").unwrap_err(), "unknown duration unit \"h\"");
    assert_eq!(parse_wait("1.2.3s").unwrap_err(), "invalid duration 1.2.3s");
    assert_eq!(parse_wait("5s3").unwrap_err(), "invalid duration \"5s3\"");
    assert_eq!(parse_wait("x5").unwrap_err(), "invalid duration \"x5\"");
    assert!(parse_wait("99999999999999999999s").is_err());
}

#[test]
fn title() {
    assert_eq!(title_case("standby"), "Standby");
    assert_eq!(title_case("on"), "On");
    assert_eq!(title_case("in_transition to-on"), "In_Transition To-On");
    assert_eq!(title_case("straße \u{df}a"), "Straße SSa");
}

#[test]
fn backoff_doubles_up_to_a_minute() {
    let mut b = 3;
    let mut seen = vec![b];
    for _ in 0..6 {
        b = next_backoff(b);
        seen.push(b);
    }
    assert_eq!(seen, vec![3, 6, 12, 24, 48, 60, 60]);
    assert_eq!(next_backoff(0), 0);
    assert_eq!(next_backoff(29), 58);
    assert_eq!(next_backoff(u64::MAX), 60);
    assert_eq!(clamp_addrs(&vec![0, 14, 15, -1, 300]), vec![0, 14]);
}

#[test]
fn adapter_choice() {
    let found = vec![
        Adapter { path: "p1".into(), comm: "c1".into() },
        Adapter { path: "p2".into(), comm: "/dev/cec0".into() },
    ];
    assert_eq!(pick_adapter("", &Ok(found)).unwrap(), "p1");
    let device = vec![Adapter { path: "p2".into(), comm: "/dev/cec0".into() }];
    assert_eq!(pick_adapter("", &Ok(device)).unwrap(), "/dev/cec0");
    assert!(pick_adapter("", &Ok(vec![])).is_err());
    assert_eq!(pick_adapter("x", &Ok(vec![])).unwrap(), "x");
    assert!(pick_adapter("", &Err(CecError::Closed)).is_err());
}

#[test]
fn supervisor_opens_and_backs_off() {
    let cfg = Config::default();
    let mut s = Supervisor::new("capi", "/dev/ttyACM0", false);
    assert!(matches!(
        s.step(SupervisorEvent::Top { shutdown: false }, &cfg),
        SupervisorAction::OpenSession { .. }
    ));
    assert!(matches!(
        s.step(SupervisorEvent::SessionOpened { ok: false }, &cfg),
        SupervisorAction::CloseAndSleep { secs: 3 }
    ));
    assert!(matches!(
        s.step(SupervisorEvent::Slept { shutdown: false }, &cfg),
        SupervisorAction::OpenSession { .. }
    ));
    assert!(matches!(
        s.step(SupervisorEvent::SessionOpened { ok: true }, &cfg),
        SupervisorAction::OpenAdapter { .. }
    ));
    assert!(matches!(
        s.step(SupervisorEvent::AdapterOpened { ok: true }, &cfg),
        SupervisorAction::GoLive { monitor: false, .. }
    ));
    let mut idle = Supervisor::new("capi", "/dev/ttyACM0", false);
    idle.state = s.state;
    assert!(matches!(
        idle.step(SupervisorEvent::Signal { reason: WaitReason::Timeout }, &cfg),
        SupervisorAction::LookForShutdown
    ));
    assert!(matches!(
        idle.step(SupervisorEvent::Top { shutdown: true }, &cfg),
        SupervisorAction::Stop
    ));
    assert!(matches!(
        s.step(SupervisorEvent::Signal { reason: WaitReason::Shutdown }, &cfg),
        SupervisorAction::TearDownAndStop
    ));
    let now = Timestamp::new(0, 0).unwrap();
    let ev = publish_state("connected", now);
    assert_eq!(ev.kind, "adapter_state");
    assert_eq!(ev.data["state"], serde_json::Value::from("connected"));
}

#[test]
fn adapter_handle_signals() {
    let mut h = AdapterHandle::new();
    assert!(!h.ready());
    h.set(Some(7));
    assert_eq!(h.get(), Some(7));
    assert_eq!(h.wait_for(false, false), None);
    h.signal_reconnect();
    h.signal_reconnect();
    assert_eq!(h.wait_for(false, true), Some(WaitReason::Reconnect));
    assert_eq!(h.wait_for(false, true), Some(WaitReason::Timeout));
    assert_eq!(h.wait_for(true, true), Some(WaitReason::Shutdown));
}

#[test]
fn mqtt_link() {
    assert_eq!(split_broker("tcp://h:1884"), ("h".to_string(), 1884));
    assert_eq!(split_broker("h"), ("h".to_string(), 1883));
    assert_eq!(event_topic("capi", "alert"), "capi/event/alert");
    assert_eq!(command_action("capi", "capi/command/power/on").unwrap(), "power/on");
    assert!(command_action("capi", "other/command/x").is_none());
    assert!(start(&MqttConfig::default()).is_none());
    let plan = start(&MqttConfig {
        broker: "tcp://h:1884".into(),
        user: "u".into(),
        pass: "p".into(),
        prefix: "tv".into(),
    })
    .unwrap();
    assert_eq!(plan.will.topic, "tv/status");
    assert_eq!(plan.will.payload, b"offline".to_vec());
    assert!(plan.will.retain);
    assert_eq!(status_message("tv", true).payload, b"online".to_vec());
    assert_eq!(plan.command_filter, "tv/command/#");
    assert_eq!(plan.credentials, Some(("u".to_string(), "p".to_string())));
    let mut link = MqttHandle::new();
    let ev = publish_state("connected", Timestamp::new(0, 0).unwrap());
    assert!(link.event_message("tv", &ev).is_none());
    assert!(link.on_event(LinkEvent::Connected).announce);
    let m = link.event_message("tv", &ev).unwrap();
    assert_eq!(m.topic, "tv/event/adapter_state");
    assert_eq!(m.payload, b"{\"state\":\"connected\"}".to_vec());
    assert!(m.retain);
    link.on_event(LinkEvent::Subscribed);
    assert!(link.on_event(LinkEvent::Message { command: true }).deliver);
    let a = link.on_event(LinkEvent::Failed);
    assert!(a.pause && !a.announce);
    assert!(!link.is_connected());
}

#[test]
fn assets_by_name() {
    assert_eq!(assets::get("style.css"), Some((0, "text/css")));
    assert_eq!(assets::get("htmx.min.js"), Some((2, "application/javascript")));
    assert_eq!(assets::get("../secret"), None);
}

#[test]
fn times_are_written_as_rfc3339() {
    let t = Timestamp::new(1_700_000_000, 500_000_000).unwrap();
    assert_eq!(t.to_rfc3339(), "2023-11-14T22:13:20.500+00:00");
    assert_eq!(t.to_rfc3339_utc(), "2023-11-14T22:13:20.500Z");
    let later = Timestamp::new(1_700_000_010, 0).unwrap();
    assert_eq!(later.seconds_since(t), 9);
    assert_eq!(t.seconds_since(later), -9);
    assert!(Timestamp::new(0, 1_000_000_000).is_none());
    assert!(Timestamp::new(i64::MAX, 0).is_none());
}
