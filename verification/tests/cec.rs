//! CEC types, tables, sessions and replies.

use capi::cec::callbacks::{bridge_command, bridge_key, bridge_log, bridge_menu, bridge_source, enter, RawFrame};
use capi::cec::ffi::CEC_MAX_DATA_PACKET_SIZE;
use capi::cec::replies::{
    active_source, cec_version, complete, current_configuration, device_name, found_adapters, get_device_info, linked_libcec_major,
    logical_addresses_with_poll, mask_to_addresses, menu_language, osd_name, physical_address,
    power_status, vendor_id, DeviceReplies,
};
use capi::cec::session::{CecCall, CloseStep, Connection, DrainStep, Sessions};
use capi::cec::tables::{keycode_names, opcode_table};
use capi::cec::types::{
    device_type_for_address, expected_device_type, get_vendor_name, is_known_vendor,
    keycode_from_name, logical_address_name, lookup_vendor, opcode_name, parse_physical_address,
    physical_address_to_string, power_status_str, sanitize_device_name, validate_transmit, Alert,
    CECVersion, CecError, CecEvent, Command, Configuration, DeviceInfo, DeviceInfoErrors,
    DeviceType, Keycode, LogLevel, LogicalAddress, Opcode, PowerStatus, KEY_NAMES,
};

#[test]
fn logical_address_display_strings_match_go() {
    assert_eq!(LogicalAddress(LogicalAddress::TV).to_string(), "TV");
    assert_eq!(
        LogicalAddress(LogicalAddress::RECORDING_DEVICE_1).to_string(),
        "Recording Device 1"
    );
    assert_eq!(LogicalAddress(LogicalAddress::TUNER_1).to_string(), "Tuner 1");
    assert_eq!(
        LogicalAddress(LogicalAddress::PLAYBACK_DEVICE_1).to_string(),
        "Playback Device 1"
    );
    assert_eq!(LogicalAddress(LogicalAddress::AUDIO_SYSTEM).to_string(), "Audio System");
    assert_eq!(
        LogicalAddress(LogicalAddress::PLAYBACK_DEVICE_3).to_string(),
        "Playback Device 3"
    );
    assert_eq!(LogicalAddress(LogicalAddress::FREE_USE).to_string(), "Free Use");
    assert_eq!(LogicalAddress(LogicalAddress::BROADCAST).to_string(), "Broadcast");
    assert_eq!(LogicalAddress(LogicalAddress::UNKNOWN).to_string(), "Unknown");
    assert_eq!(logical_address_name(0x05), "Audio System");

    assert!(LogicalAddress(0).is_valid());
    assert!(LogicalAddress(14).is_valid());
    assert!(!LogicalAddress(15).is_valid());
    assert!(!LogicalAddress(0xFF).is_valid());
    assert!(LogicalAddress(15).is_broadcast());
    assert!(LogicalAddress(0xFF).is_unknown());
}

#[test]
fn keycode_names_round_trip() {
    for (name, code) in KEY_NAMES {
        let resolved = keycode_from_name(name);
        assert_eq!(resolved, Some(Keycode(code)), "name {name:?} must resolve to its code");
        if let Some(canonical) = Keycode(code).canonical_name() {
            assert_eq!(
                keycode_from_name(canonical),
                Some(Keycode(code)),
                "canonical name {canonical:?} must round-trip to {code:?}"
            );
        } else {
            panic!("keycode {code:?} from table has no canonical name");
        }
    }
    assert_eq!(keycode_from_name("home"), Some(Keycode(Keycode::ROOT_MENU)));
    assert_eq!(keycode_from_name("back"), Some(Keycode(Keycode::EXIT)));
    assert_eq!(keycode_from_name("menu"), Some(Keycode(Keycode::SETUP_MENU)));
    assert_eq!(keycode_from_name("does_not_exist"), None);
    assert_eq!(Keycode::SELECT, 0x00);
    assert_eq!(Keycode::K9, 0x29);
    assert_eq!(Keycode::POWER, 0x40);
    assert_eq!(Keycode::F4_YELLOW, 0x74);
}

#[test]
fn opcode_naming_matches_go_table_and_hex_fallback() {
    assert_eq!(opcode_name(Opcode(Opcode::REPORT_POWER_STATUS)), "REPORT_POWER_STATUS");
    assert_eq!(opcode_name(Opcode(Opcode::FEATURE_ABORT)), "FEATURE_ABORT");
    assert_eq!(opcode_name(Opcode(Opcode::USER_CONTROL_RELEASED)), "USER_CONTROL_RELEASED");
    assert_eq!(opcode_name(Opcode(Opcode::STANDBY)), "STANDBY");
    assert_eq!(opcode_name(Opcode(Opcode::GIVE_PHYSICAL_ADDRESS)), "0x83");
    assert_eq!(opcode_name(Opcode(0xAB)), "0xAB");
    assert_eq!(Opcode(Opcode::IMAGE_VIEW_ON).name(), "IMAGE_VIEW_ON");
}

#[test]
fn physical_address_format_parse_round_trip() {
    assert_eq!(physical_address_to_string(0x2100), "2.1.0.0");
    assert_eq!(physical_address_to_string(0x0000), "0.0.0.0");
    assert_eq!(physical_address_to_string(0xFFFF), "15.15.15.15");
    for packed in [0u16, 0x1000, 0x2100, 0x3210, 0xFFFF] {
        let dotted = physical_address_to_string(packed);
        assert_eq!(parse_physical_address(&dotted).unwrap(), packed);
    }
    assert!(parse_physical_address("2.1").is_err());
    assert!(parse_physical_address("2.1.0.0.0").is_err());
    assert!(parse_physical_address("16.0.0.0").is_err());
    assert!(parse_physical_address("a.b.c.d").is_err());
    assert_eq!(parse_physical_address("1.0.0.0").unwrap(), 0x1000);
}

#[test]
fn vendor_lookup_known_and_unknown() {
    assert_eq!(get_vendor_name(0x0000F0), "Samsung");
    assert_eq!(get_vendor_name(0x08001F), "Sony");
    assert_eq!(get_vendor_name(0x001582), "Pulse Eight");
    assert!(is_known_vendor(0x008045));
    assert!(!is_known_vendor(0x123456));
    assert_eq!(get_vendor_name(0xABCDEF), "Unknown (0xABCDEF)");
    assert_eq!(lookup_vendor(0xABCDEF), None);
}

#[test]
fn device_name_truncated_to_thirteen_bytes() {
    assert_eq!(sanitize_device_name("capi"), "capi");
    assert_eq!(sanitize_device_name(""), "");
    assert_eq!(sanitize_device_name("abcdefghijklm"), "abcdefghijklm");
    assert_eq!(sanitize_device_name("abcdefghijklmnop"), "abcdefghijklm");
    assert!(!sanitize_device_name("ab\0cd").contains('\0'));
    assert_eq!(sanitize_device_name("ab\0cd"), "abcd");
    assert_eq!(sanitize_device_name("\0abcdefghijkl\0mn"), "abcdefghijklm");
    let truncated = sanitize_device_name("éééééééé");
    assert!(truncated.len() <= 13);
}

fn base_command() -> Command {
    Command {
        initiator: LogicalAddress(0),
        destination: LogicalAddress(4),
        opcode: Opcode(0x64),
        opcode_set: true,
        parameters: vec![1, 2, 3],
        ack: false,
        eom: true,
    }
}

#[test]
fn transmit_validation_bounds_checks() {
    let base = base_command();
    assert!(validate_transmit(&base).is_ok());

    let too_long = Command {
        parameters: vec![0u8; CEC_MAX_DATA_PACKET_SIZE + 1],
        ..base.clone()
    };
    assert!(matches!(validate_transmit(&too_long), Err(CecError::InvalidParams(_))));
    let full = Command {
        parameters: vec![0u8; CEC_MAX_DATA_PACKET_SIZE],
        ..base.clone()
    };
    assert!(validate_transmit(&full).is_ok());

    let bad_initiator = Command {
        initiator: LogicalAddress(0xFF),
        ..base.clone()
    };
    assert!(matches!(validate_transmit(&bad_initiator), Err(CecError::InvalidParams(_))));
    let bad_destination = Command {
        destination: LogicalAddress(0xFF),
        ..base
    };
    assert!(matches!(validate_transmit(&bad_destination), Err(CecError::InvalidParams(_))));
}

fn tv_info() -> DeviceInfo {
    DeviceInfo {
        logical_address: LogicalAddress(0),
        address_name: "TV".into(),
        physical_address: 0x2100,
        osd_name: "TV".into(),
        menu_language: "eng".into(),
        vendor_id: 0xF0,
        vendor_name: "Samsung".into(),
        vendor_known: true,
        cec_version: CECVersion(CECVersion::V1_4),
        power_status: PowerStatus(PowerStatus::ON),
        hdmi_port: 2,
        is_active: true,
        is_active_source: false,
        errors: DeviceInfoErrors::default(),
    }
}

#[test]
fn device_info_helpers_match_go_derivation() {
    assert_eq!(DeviceInfo::derive_hdmi_port(0x2100), 2);
    assert_eq!(DeviceInfo::derive_hdmi_port(0x0000), 0);
    assert_eq!(DeviceInfo::derive_hdmi_port(0xFFFF), 0);

    assert_eq!(power_status_str(0x00), "on");
    assert_eq!(power_status_str(0x01), "standby");
    assert_eq!(power_status_str(0x02), "transitioning_to_on");
    assert_eq!(power_status_str(0x03), "transitioning_to_standby");
    assert_eq!(power_status_str(0x99), "unknown");
    assert_eq!(power_status_str(0xFF), "unknown");

    assert_eq!(device_type_for_address(4), "PlaybackDevice1");
    assert_eq!(device_type_for_address(0), "TV");
    assert_eq!(device_type_for_address(5), "AudioSystem");
    assert_eq!(device_type_for_address(0xFF), "Unknown");
    assert_eq!(expected_device_type(1), DeviceType(DeviceType::RECORDING));

    let m = tv_info().to_map();
    assert_eq!(m["logical_address"], serde_json::Value::from(0));
    assert_eq!(m["address_name"], serde_json::Value::from("TV"));
    assert_eq!(m["physical_address"], serde_json::Value::from("2.1.0.0"));
    assert_eq!(m["vendor_id"], serde_json::Value::from("0x0000f0"));
    assert_eq!(m["vendor_name"], serde_json::Value::from("Samsung"));
    assert_eq!(m["vendor_known"], serde_json::Value::from(true));
    assert_eq!(m["cec_version"], serde_json::Value::from("1.4"));
    assert_eq!(m["power_status"], serde_json::Value::from("On"));
    assert_eq!(m["hdmi_port"], serde_json::Value::from(2));
}

#[test]
fn linked_libcec_major_reports_seven() {
    assert_eq!(linked_libcec_major(0x0007_0101), 7);
}

#[test]
fn keycode_and_opcode_tables_sorted_and_resolvable() {
    let keys = keycode_names();
    assert!(!keys.is_empty());
    assert!(keys.windows(2).all(|w| (w[0].1, &w[0].0) <= (w[1].1, &w[1].0)));
    for (name, code) in &keys {
        assert_eq!(
            keycode_from_name(name).map(|k| k.0),
            Some(*code),
            "every listed name must resolve via keycode_from_name"
        );
    }

    let ops = opcode_table();
    assert!(!ops.is_empty());
    assert!(ops.windows(2).all(|w| w[0].1 <= w[1].1));
    for (name, op) in &ops {
        assert_eq!(&opcode_name(Opcode(*op)), name);
    }
}

#[test]
fn logical_address_names_cover_full_byte_range() {
    for b in 0u8..=255 {
        let name = logical_address_name(b);
        assert!(!name.is_empty(), "{b}");
    }
    assert_eq!(logical_address_name(0), "TV");
    assert_eq!(logical_address_name(14), "Free Use");
    assert_eq!(logical_address_name(15), "Broadcast");
}

#[test]
fn device_type_roles_cover_all_addresses() {
    for b in 0u8..=15 {
        assert!(!device_type_for_address(b).is_empty(), "{b}");
    }
}

#[test]
fn power_status_str_covers_common_bytes() {
    for b in [0x00, 0x01, 0x02, 0x03, 0x99, 0xFF] {
        assert!(!power_status_str(b).is_empty(), "{b:#x}");
    }
}

#[test]
fn opcode_table_round_trips_through_opcode_name() {
    let table = opcode_table();
    assert!(!table.is_empty());
    for (name, code) in &table {
        let got = opcode_name(Opcode(*code));
        assert_eq!(&got, name, "opcode {code:#x}");
    }
}

#[test]
fn keycode_table_round_trips_through_keycode_from_name() {
    let table = keycode_names();
    assert!(table.len() >= 50);
    for (idx, (name, code)) in table.iter().enumerate() {
        if idx > 0 {
            let (_, prev_code) = &table[idx - 1];
            assert!(prev_code <= code, "table sorted by code");
        }
        assert_eq!(keycode_from_name(name).unwrap().0, *code, "{name}");
    }
    for n in [
        "select",
        "up",
        "down",
        "left",
        "right",
        "exit",
        "root_menu",
        "setup_menu",
        "volume_up",
        "volume_down",
        "mute",
        "play",
        "pause",
        "stop",
        "fast_forward",
        "rewind",
        "record",
        "channel_up",
        "channel_down",
        "power",
        "f1_blue",
    ] {
        assert!(keycode_from_name(n).is_some(), "{n}");
    }
    assert!(keycode_from_name("not-a-key").is_none());
}

#[test]
fn display_impls_match_free_functions() {
    for b in 0u8..=255 {
        assert_eq!(LogicalAddress(b).to_string(), logical_address_name(b));
    }
    assert_eq!(
        PowerStatus(PowerStatus::ON).to_string().to_lowercase(),
        power_status_str(0x00).to_lowercase()
    );
    assert_eq!(DeviceType(DeviceType::TV).to_string(), "TV");
    assert_eq!(CECVersion(CECVersion::V1_4).to_string(), "1.4");
}

#[test]
fn device_type_display_covers_all_variants() {
    for b in 0u8..=255 {
        let s = DeviceType(b).to_string();
        assert!(!s.is_empty(), "{b}");
    }
    assert_eq!(DeviceType(DeviceType::TV).to_string(), "TV");
    assert_eq!(DeviceType(DeviceType::RECORDING).to_string(), "Recording Device");
    assert_eq!(DeviceType(DeviceType::PLAYBACK).to_string(), "Playback Device");
}

#[test]
fn power_status_display_covers_all_variants() {
    for b in [0x00u8, 0x01, 0x02, 0x03, 0x7F, 0xFF] {
        assert!(!PowerStatus(b).to_string().is_empty(), "{b:#x}");
    }
    assert_eq!(PowerStatus(PowerStatus::ON).to_string(), "On");
    assert_eq!(PowerStatus(PowerStatus::STANDBY).to_string(), "Standby");
}

#[test]
fn cec_version_display_covers_known() {
    for b in [0x00u8, 0x01, 0x02, 0x03, 0x04, 0x05, 0x06] {
        assert!(!CECVersion(b).to_string().is_empty(), "{b}");
    }
}

#[test]
fn expected_device_type_maps_all_roles() {
    assert_eq!(expected_device_type(0), DeviceType(DeviceType::TV));
    assert_eq!(expected_device_type(1), DeviceType(DeviceType::RECORDING));
    assert_eq!(expected_device_type(3), DeviceType(DeviceType::TUNER));
    assert_eq!(expected_device_type(4), DeviceType(DeviceType::PLAYBACK));
    assert_eq!(expected_device_type(5), DeviceType(DeviceType::AUDIO_SYSTEM));
    assert_eq!(expected_device_type(12), DeviceType(DeviceType::RESERVED));
    assert_eq!(expected_device_type(255), DeviceType(DeviceType::RESERVED));
}

fn open_session(sessions: &mut Sessions) -> Connection {
    let id = sessions.register();
    Connection::opened_session(id, &Configuration::default(), true).expect("open")
}

#[test]
fn close_is_ok_and_actually_tears_down() {
    let mut sessions = Sessions::new();
    let mut c = open_session(&mut sessions);
    assert!(!c.is_closed());
    assert_eq!(c.close(), CloseStep::CloseAndDrain);
    assert!(c.is_closed());
    assert_eq!(c.close(), CloseStep::Done);
    assert!(matches!(
        c.get_device_power_status(LogicalAddress(LogicalAddress::TV)),
        Err(CecError::Closed)
    ));
}

#[test]
fn close_leaves_session_registry_drained() {
    let mut sessions = Sessions::new();
    let mut c = open_session(&mut sessions);
    assert!(sessions.contains(c.session_id()));
    assert_eq!(c.close(), CloseStep::CloseAndDrain);
    sessions.remove(c.session_id());
    assert!(!sessions.contains(c.session_id()));
}

#[test]
fn session_needs_an_opened_adapter() {
    let mut sessions = Sessions::new();
    let mut c = open_session(&mut sessions);
    assert_eq!(c.session_id(), 1);
    assert!(matches!(c.power_on(LogicalAddress(0)), Err(CecError::AdapterNotOpen)));
    assert!(matches!(c.open_adapter("/dev/ttyACM0"), Ok(CecCall::OpenAdapter { .. })));
    assert!(c.open_adapter("a\0b").is_err());
    assert!(c.adapter_opened(0).is_err());
    assert!(c.adapter_opened(1).is_ok());
    assert!(matches!(c.power_on(LogicalAddress(0)), Ok(CecCall::PowerOn { address: 0 })));
    assert!(matches!(
        c.power_on(LogicalAddress(15)),
        Err(CecError::InvalidLogicalAddress)
    ));
    assert!(Connection::opened_session(9, &Configuration::default(), false).is_err());
}

#[test]
fn monitor_only_session_refuses_sends() {
    let config = Configuration { monitor_only: true, ..Configuration::default() };
    let mut c = Connection::opened_session(1, &config, true).unwrap();
    assert!(c.adapter_opened(1).is_ok());
    assert!(matches!(c.transmit(&base_command()), Err(CecError::MonitorOnly)));
    assert!(matches!(
        c.send_keypress(LogicalAddress(0), Keycode(0), true),
        Err(CecError::MonitorOnly)
    ));
    assert!(c.get_device_power_status(LogicalAddress(0)).is_ok());
}

#[test]
fn callbacks_are_counted_and_drained() {
    let mut sessions = Sessions::new();
    let mut c = open_session(&mut sessions);
    assert!(enter(&sessions, c.session_id(), &mut c));
    let id = c.session_id();
    assert!(!enter(&sessions, id + 1, &mut c));
    c.close();
    assert!(!enter(&sessions, id, &mut c));
    assert_eq!(c.drain(0), DrainStep::Wait);
    assert_eq!(c.drain(5000), DrainStep::Destroy);
    c.end_callback();
    assert_eq!(c.drain(0), DrainStep::Destroy);
}

#[test]
fn callbacks_become_events() {
    assert!(matches!(
        bridge_log(4, 17, Some(&b"caf\xc3\xa9 \xff"[..])),
        CecEvent::Log { level: LogLevel(4), time: 17, message } if message == "caf\u{e9} \u{fffd}"
    ));
    assert!(matches!(
        bridge_log(1, 0, None),
        CecEvent::Log { message, .. } if message.is_empty()
    ));
    assert!(matches!(bridge_key(0x141, 250), CecEvent::KeyPress { key: 0x41, duration: 250 }));
    assert!(matches!(bridge_key(-1, 0), CecEvent::KeyPress { key: 0xFF, .. }));
    assert!(matches!(
        bridge_source(4, 1),
        CecEvent::SourceActivated { address: 4, activated: true }
    ));
    let frame = RawFrame {
        initiator: 0,
        destination: 15,
        ack: 1,
        eom: 0,
        opcode: 0x36,
        opcode_set: 1,
        parameters: vec![],
    };
    match bridge_command(frame) {
        CecEvent::Command(c) => {
            assert!(c.ack && !c.eom && c.opcode_set);
            assert_eq!(c.opcode, Opcode(0x36));
        }
        _ => panic!("not a command"),
    }
    assert_eq!(bridge_menu(false, Some(false)), 1);
    assert_eq!(bridge_menu(true, Some(false)), 0);
    assert_eq!(bridge_menu(true, None), 1);
}

#[test]
fn replies_are_decoded() {
    let tv = LogicalAddress(0);
    assert_eq!(power_status(tv, 0).unwrap(), PowerStatus(0));
    assert!(power_status(tv, 0x99).is_err());
    assert_eq!(active_source(4).unwrap(), LogicalAddress(4));
    assert!(matches!(active_source(-1), Err(CecError::NoActiveSource)));
    assert_eq!(vendor_id(tv, 0xF0).unwrap(), 0xF0);
    assert!(vendor_id(tv, 0).is_err());
    assert_eq!(physical_address(tv, 0x1000).unwrap(), 0x1000);
    assert!(physical_address(tv, 0xFFFF).is_err());
    assert_eq!(cec_version(tv, 5).unwrap(), CECVersion(5));
    assert!(cec_version(tv, 0).is_err());
    assert_eq!(osd_name(tv, 1, b"Box\0\0").unwrap(), "Box");
    assert!(osd_name(tv, 0, b"Box\0").is_err());
    assert_eq!(menu_language(tv, 1, b"eng\0").unwrap(), "eng");
    assert_eq!(
        mask_to_addresses(0b10_0001),
        vec![LogicalAddress(0), LogicalAddress(5)]
    );
    assert!(complete(&CecCall::Standby { address: 0 }, 1).is_ok());
    assert!(complete(&CecCall::Standby { address: 0 }, 0).is_err());
}

#[test]
fn polling_adds_devices_that_answer() {
    let active = vec![LogicalAddress(0)];
    let mut answers = vec![false; 15];
    answers[4] = true;
    let all = logical_addresses_with_poll(active.clone(), false, &answers);
    assert_eq!(all, vec![LogicalAddress(0), LogicalAddress(4)]);
    let only = logical_addresses_with_poll(active, true, &answers);
    assert_eq!(only, vec![LogicalAddress(0)]);
}

#[test]
fn device_info_is_assembled_from_replies() {
    let tv = LogicalAddress(0);
    let info = get_device_info(
        tv,
        DeviceReplies {
            physical_address: Some(0x0000),
            vendor_id: Some(0xF0),
            cec_version: None,
            power_status: Some(PowerStatus(PowerStatus::ON)),
            osd_name: Some("Screen".into()),
            menu_language: None,
            is_active: true,
            is_active_source: false,
        },
    )
    .unwrap();
    assert_eq!(info.vendor_name, "Samsung");
    assert_eq!(info.osd_name, "Screen");
    assert!(info.errors.cec_version && info.errors.menu_language && !info.errors.power_status);
    let silent = get_device_info(
        tv,
        DeviceReplies {
            physical_address: None,
            vendor_id: None,
            cec_version: None,
            power_status: None,
            osd_name: None,
            menu_language: None,
            is_active: false,
            is_active_source: false,
        },
    );
    assert!(silent.is_err());
}

#[test]
fn adapters_are_read_from_their_buffers() {
    let size = capi::cec::ffi::CEC_ADAPTER_STR_SIZE;
    let mut paths = vec![0u8; size * 10];
    let mut comms = vec![0u8; size * 10];
    paths[..4].copy_from_slice(b"usb1");
    comms[..4].copy_from_slice(b"tty0");
    let found = found_adapters(1, &paths, &comms).unwrap();
    assert_eq!(found.len(), 1);
    assert_eq!(found[0].path, "usb1");
    assert_eq!(found[0].comm, "tty0");
    assert!(found_adapters(-1, &paths, &comms).is_err());
}

#[test]
fn alert_and_level_texts() {
    assert_eq!(Alert(Alert::CONNECTION_LOST).to_string(), "ConnectionLost");
    assert_eq!(Alert(99).to_string(), "Unknown");
    assert_eq!(LogLevel(8).to_string(), "TRAFFIC");
}

#[test]
fn requests_of_an_opened_session() {
    let mut sessions = Sessions::new();
    let mut c = open_session(&mut sessions);
    c.adapter_opened(1).unwrap();
    assert!(matches!(c.set_inactive_view(), Ok(CecCall::SetInactiveView)));
    assert!(matches!(c.audio_mute(), Ok(CecCall::AudioMute)));
    assert!(matches!(c.audio_unmute(), Ok(CecCall::AudioUnmute)));
    assert!(matches!(c.ping_tv(), Ok(CecCall::PowerStatus { address: 0 })));
    assert!(matches!(c.poll_device(LogicalAddress(4)), Some(CecCall::PollDevice { address: 4 })));
    assert!(c.poll_device(LogicalAddress(0xFF)).is_none());
    assert!(matches!(
        c.set_hdmi_port(LogicalAddress(0), 16),
        Err(CecError::InvalidHdmiPort)
    ));
    let config = Configuration { monitor_only: true, ..Configuration::default() };
    assert!(matches!(c.set_configuration(&config), Ok(CecCall::SetConfiguration { .. })));
    assert!(c.configuration_set(&config, 0).is_err());
    assert!(!c.is_monitor_only());
    assert!(c.configuration_set(&config, 1).is_ok());
    assert!(c.is_monitor_only());
    assert_eq!(Keycode::from_name("home"), Some(Keycode(Keycode::ROOT_MENU)));
}

#[test]
fn configuration_of_a_session() {
    let c = current_configuration(1, b"Bridge\0\0", 1, 0x1000, 0, 2, true).unwrap();
    assert_eq!((c.hdmi_port, c.monitor_only), (2, true));
    assert_eq!(device_name(Ok(c)), "Bridge");
    assert_eq!(device_name(current_configuration(0, b"x", 1, 0, 0, 1, false)), "");
}
