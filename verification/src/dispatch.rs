//! What CEC events and MQTT commands do to the app.

use crate::busstate::{frame_of, BusState, BusV};
use crate::cec::types::{
    power_status_str, power_status_text, CecEvent, Command, CommandV, Opcode,
};
use crate::events::{log_after, LogMessageV, LogRing};
use crate::events::Metrics;
use crate::json;
use crate::json::JsonV;
use crate::mqtt::MqttCommand;
use crate::strategies::{
    action_form, action_named, default_chain_of, hex_byte_value, law_hexadecimal_bytes_read_back,
    strategy_views, vendor_form, Action, Registry,
    Strategy, StrategyV,
};
use crate::text;
use crate::time::Timestamp;
use crate::types::{
    override_views, AppEvent, AppEventV, StrategyOverride, StrategyOverrideV, ALERT, COMMAND,
    CONFIGURATION_CHANGED, KEY_PRESS, POWER_CHANGE, SOURCE_ACTIVATED,
};
use vstd::prelude::*;

verus! {

// ---------------------------------------------------------------------------
// CEC events
// ---------------------------------------------------------------------------

/// What a CEC event leads to besides the changes of bus state and log: an event to publish, the
/// event of a power change that it tells of, and a topology hint for the steward (`Some(true)` for
/// a heavy one).
#[derive(Debug)]
pub struct Effects {
    pub publish: Option<AppEvent>,
    pub power_change: Option<AppEvent>,
    pub hint: Option<bool>,
}

/// The power status that a frame reports of its sender, where it is not the one on record.
pub open spec fn power_change(bus: BusV, cmd: CommandV) -> Option<Seq<char>> {
    if cmd.opcode == Opcode::REPORT_POWER_STATUS && cmd.parameters.len() > 0
        && bus.observed_text(cmd.initiator as i32, "power_status"@) != Some(
        power_status_text(cmd.parameters[0]),
    ) {
        Some(power_status_text(cmd.parameters[0]))
    } else {
        None
    }
}

/// The event of a power change.
pub open spec fn power_event(addr: int, status: Seq<char>, now: Timestamp) -> AppEventV {
    AppEventV {
        kind: POWER_CHANGE@,
        timestamp: now,
        data: JsonV::Object(
            json::no_fields().insert("address"@, JsonV::Int(addr)).insert(
                "status"@,
                JsonV::Text(status),
            ),
        ),
    }
}

/// `r` is the event of the power change that a frame tells of, if it tells of one.
pub open spec fn power_told(
    bus: BusV,
    cmd: CommandV,
    now: Timestamp,
    r: Option<AppEvent>,
) -> bool {
    match power_change(bus, cmd) {
        Some(status) => r matches Some(e) && e@ == power_event(cmd.initiator as int, status, now),
        None => r is None,
    }
}

fn changed_power(bus: &BusState, cmd: &Command, now: Timestamp) -> (r: Option<AppEvent>)
    requires
        bus.wf(),
    ensures
        power_told(bus@, cmd@, now, r),
{
    if cmd.opcode.0 != Opcode::REPORT_POWER_STATUS || cmd.parameters.len() == 0 {
        return None;
    }
    let status = power_status_str(cmd.parameters[0]);
    if let Some(known) = bus.observed_text(cmd.initiator.0 as i32, "power_status") {
        if text::str_eq(known, status.as_str()) {
            return None;
        }
    }
    let mut data = json::new_object();
    json::insert(&mut data, "address", json::integer(cmd.initiator.0 as i64));
    json::insert(&mut data, "status", json::text(status.as_str()));
    Some(AppEvent::new(POWER_CHANGE, json::object_value(data), now))
}

/// A frame that may have changed the topology.
pub open spec fn heavy_opcode(op: u8) -> bool {
    op == Opcode::REPORT_PHYSICAL_ADDRESS || op == Opcode::DEVICE_VENDOR_ID || op
        == Opcode::SET_OSD_NAME || op == Opcode::ACTIVE_SOURCE || op == Opcode::ROUTING_CHANGE || op
        == Opcode::ROUTING_INFORMATION || op == Opcode::SET_STREAM_PATH || op
        == Opcode::INACTIVE_SOURCE || op == Opcode::REQUEST_ACTIVE_SOURCE
}

/// A frame that may have changed the state of a device.
pub open spec fn light_opcode(op: u8) -> bool {
    op == Opcode::REPORT_POWER_STATUS || op == Opcode::REPORT_AUDIO_STATUS
}

/// The data of the event for an event from the bus; log lines and menu states have none.
/// `device_name` is the name that libcec reports.
pub open spec fn published(ev: CecEvent, device_name: Seq<char>) -> Option<(Seq<char>, JsonV)> {
    match ev {
        CecEvent::Log { .. } => None,
        CecEvent::KeyPress { key, duration } => Some(
            (
                KEY_PRESS@,
                JsonV::Object(
                    json::no_fields().insert("keycode"@, JsonV::Int(key as int)).insert(
                        "duration"@,
                        JsonV::Int(duration as int),
                    ),
                ),
            ),
        ),
        CecEvent::Command(cmd) => Some(
            (
                COMMAND@,
                JsonV::Object(
                    json::no_fields().insert("initiator"@, JsonV::Int(cmd@.initiator as int)).insert(
                        "destination"@,
                        JsonV::Int(cmd@.destination as int),
                    ).insert("opcode"@, JsonV::Text(text::hex_byte(cmd@.opcode))),
                ),
            ),
        ),
        CecEvent::ConfigurationChanged(_) => Some(
            (
                CONFIGURATION_CHANGED@,
                JsonV::Object(json::no_fields().insert("device_name"@, JsonV::Text(device_name))),
            ),
        ),
        CecEvent::Alert { alert, param_type, param_value } => Some(
            (
                ALERT@,
                JsonV::Object(
                    json::no_fields().insert("alert"@, JsonV::Int(alert as int)).insert(
                        "param_type"@,
                        JsonV::Int(param_type as int),
                    ).insert("param"@, JsonV::Int(param_value as int)),
                ),
            ),
        ),
        CecEvent::MenuState { .. } => None,
        CecEvent::SourceActivated { address, activated } => Some(
            (
                SOURCE_ACTIVATED@,
                JsonV::Object(
                    json::no_fields().insert("address"@, JsonV::Int(address as int)).insert(
                        "activated"@,
                        JsonV::Bool(activated),
                    ),
                ),
            ),
        ),
    }
}

/// The bus after an event.
pub open spec fn bus_after(bus: BusV, ev: CecEvent, now: Timestamp) -> BusV {
    match ev {
        CecEvent::Command(cmd) => {
            let seen = if cmd@.initiator <= 14 {
                bus.seen(cmd@.initiator as i32, now)
            } else {
                bus
            };
            let known = seen.with_command(cmd@, now);
            known.with_frame(cmd@, known.ring_cap, now)
        },
        CecEvent::SourceActivated { address, activated } => if activated {
            BusV { active_source: address as int, cec_ready: true, ..bus }
        } else {
            bus
        },
        _ => bus,
    }
}

fn command_hint(op: u8) -> (r: Option<bool>)
    ensures
        r == (if heavy_opcode(op) {
            Some(true)
        } else if light_opcode(op) {
            Some(false)
        } else {
            None
        }),
{
    let heavy = op == Opcode::REPORT_PHYSICAL_ADDRESS || op == Opcode::DEVICE_VENDOR_ID || op
        == Opcode::SET_OSD_NAME || op == Opcode::ACTIVE_SOURCE || op == Opcode::ROUTING_CHANGE || op
        == Opcode::ROUTING_INFORMATION || op == Opcode::SET_STREAM_PATH || op
        == Opcode::INACTIVE_SOURCE || op == Opcode::REQUEST_ACTIVE_SOURCE;
    let light = op == Opcode::REPORT_POWER_STATUS || op == Opcode::REPORT_AUDIO_STATUS;
    if heavy {
        Some(true)
    } else if light {
        Some(false)
    } else {
        None
    }
}

fn dispatch_command(bus: &mut BusState, cmd: &Command, now: Timestamp) -> (r: Effects)
    requires
        old(bus).wf(),
        old(bus)@.next_seq < u64::MAX,
    ensures
        final(bus).wf(),
        final(bus)@ == bus_after(old(bus)@, CecEvent::Command(*cmd), now),
        r.hint == (if heavy_opcode(cmd@.opcode) {
            Some(true)
        } else if light_opcode(cmd@.opcode) {
            Some(false)
        } else {
            None
        }),
        r.publish matches Some(e) && e@.timestamp == now && published(
            CecEvent::Command(*cmd),
            Seq::empty(),
        ) == Some((e@.kind, e@.data)),
        power_told(old(bus)@, cmd@, now, r.power_change),
{
    let power_change = changed_power(bus, cmd, now);
    let mut data = json::new_object();
    json::insert(&mut data, "initiator", json::integer(cmd.initiator.0 as i64));
    json::insert(&mut data, "destination", json::integer(cmd.destination.0 as i64));
    let op = text::hex_byte_string(cmd.opcode.0);
    json::insert(&mut data, "opcode", json::text(op.as_str()));
    let event = AppEvent::new(COMMAND, json::object_value(data), now);
    if cmd.initiator.0 <= 14 {
        bus.note_seen(cmd.initiator.0 as i32, now);
    }
    bus.apply_observed_command(cmd, now);
    let cap: usize = bus.frame_ring_capacity();
    if cap > 0 {
        bus.append_frame(cmd, cap, now);
    }
    Effects { publish: Some(event), power_change, hint: command_hint(cmd.opcode.0) }
}

/// Takes in an event from the bus: bus state and log are changed in place, the rest is for the
/// caller. `device_name` is the name that libcec reports for the session.
pub fn dispatch_cec_event(
    bus: &mut BusState,
    logs: &mut LogRing,
    ev: CecEvent,
    device_name: &str,
    now: Timestamp,
) -> (r: Effects)
    requires
        old(bus).wf(),
        old(bus)@.next_seq < u64::MAX,
        old(logs).wf(),
    ensures
        final(bus).wf(),
        final(logs).wf(),
        final(bus)@ == bus_after(old(bus)@, ev, now),
        final(logs).capacity() == old(logs).capacity(),
        final(logs)@ == (match ev {
            CecEvent::Log { message, .. } => log_after(
                old(logs)@,
                old(logs).capacity(),
                LogMessageV { timestamp: now.text(), level: "CEC"@, message: message@ },
            ),
            _ => old(logs)@,
        }),
        match r.publish {
            Some(e) => e@.timestamp == now && published(ev, device_name@) == Some(
                (e@.kind, e@.data),
            ),
            None => published(ev, device_name@) is None,
        },
        match ev {
            CecEvent::Command(cmd) => power_told(old(bus)@, cmd@, now, r.power_change),
            _ => r.power_change is None,
        },
        r.hint == (match ev {
            CecEvent::Command(cmd) => if heavy_opcode(cmd@.opcode) {
                Some(true)
            } else if light_opcode(cmd@.opcode) {
                Some(false)
            } else {
                None
            },
            _ => None,
        }),
{
    match ev {
        CecEvent::Log { level: _, time: _, message } => {
            logs.push("CEC", message, now);
            Effects { publish: None, power_change: None, hint: None }
        },
        CecEvent::KeyPress { key, duration } => {
            let mut data = json::new_object();
            json::insert(&mut data, "keycode", json::integer(key as i64));
            json::insert(&mut data, "duration", json::integer(duration as i64));
            let e = AppEvent::new(KEY_PRESS, json::object_value(data), now);
            Effects { publish: Some(e), power_change: None, hint: None }
        },
        CecEvent::Command(cmd) => dispatch_command(bus, &cmd, now),
        CecEvent::ConfigurationChanged(_) => {
            let mut data = json::new_object();
            json::insert(&mut data, "device_name", json::text(device_name));
            let e = AppEvent::new(CONFIGURATION_CHANGED, json::object_value(data), now);
            Effects { publish: Some(e), power_change: None, hint: None }
        },
        CecEvent::Alert { alert, param_type, param_value } => {
            let mut data = json::new_object();
            json::insert(&mut data, "alert", json::integer(alert as i64));
            json::insert(&mut data, "param_type", json::integer(param_type as i64));
            json::insert(&mut data, "param", json::integer(param_value));
            let e = AppEvent::new(ALERT, json::object_value(data), now);
            Effects { publish: Some(e), power_change: None, hint: None }
        },
        CecEvent::MenuState { state: _ } => Effects { publish: None, power_change: None, hint: None },
        CecEvent::SourceActivated { address, activated } => {
            let mut data = json::new_object();
            json::insert(&mut data, "address", json::integer(address as i64));
            json::insert(&mut data, "activated", json::boolean(activated));
            let e = AppEvent::new(SOURCE_ACTIVATED, json::object_value(data), now);
            if activated {
                bus.update_active_source_quick(address as i32, true);
            }
            Effects { publish: Some(e), power_change: None, hint: None }
        },
    }
}

/// Whatever comes from the bus, the frame ring stays within the room that it was given.
pub proof fn law_dispatch_keeps_ring_bounded(bus: BusV, ev: CecEvent, now: Timestamp)
    requires
        bus.ring.len() <= bus.ring_cap,
    ensures
        bus_after(bus, ev, now).ring.len() <= bus.ring_cap,
        bus_after(bus, ev, now).ring_cap == bus.ring_cap,
{
}

/// A power report is told once: the same report again tells of no change.
pub proof fn law_repeated_power_report_is_no_change(bus: BusV, cmd: CommandV, now: Timestamp)
    ensures
        power_change(bus.with_command(cmd, now), cmd) is None,
{
}

// ---------------------------------------------------------------------------
// MQTT commands
// ---------------------------------------------------------------------------

/// What an MQTT command asks for.
#[derive(Debug, Clone, Copy, PartialEq, Eq, Structural)]
pub enum MqttRequest {
    PowerOn { addr: i32 },
    PowerOff { addr: i32 },
    Volume { action: Action },
    Source { addr: i32 },
    Hdmi { port: i32 },
    /// The payload is a JSON object with address, key and keycode.
    Key,
    /// The topic is not known.
    Unknown,
}

/// The number in a payload; `dflt` where it is none.
pub open spec fn payload_number(payload: Seq<u8>, dflt: int) -> int {
    if vstd::utf8::valid_utf8(payload) {
        match text::parse_int(
            text::trimmed(vstd::utf8::decode_utf8(payload)),
            i32::MIN as int,
            i32::MAX as int,
        ) {
            Some(n) => n,
            None => dflt,
        }
    } else {
        dflt
    }
}

/// What an MQTT command asks for.
pub open spec fn mqtt_request(action: Seq<char>, payload: Seq<u8>) -> MqttRequest {
    if action == "power/on"@ {
        MqttRequest::PowerOn { addr: payload_number(payload, 0) as i32 }
    } else if action == "power/off"@ {
        MqttRequest::PowerOff { addr: payload_number(payload, 0) as i32 }
    } else if action == "volume/up"@ {
        MqttRequest::Volume { action: Action::VolumeUp }
    } else if action == "volume/down"@ {
        MqttRequest::Volume { action: Action::VolumeDown }
    } else if action == "volume/mute"@ {
        MqttRequest::Volume { action: Action::Mute }
    } else if action == "source"@ {
        MqttRequest::Source { addr: payload_number(payload, -1) as i32 }
    } else if action == "hdmi"@ {
        MqttRequest::Hdmi { port: payload_number(payload, -1) as i32 }
    } else if action == "key"@ {
        MqttRequest::Key
    } else {
        MqttRequest::Unknown
    }
}

fn parse_number(payload: &Vec<u8>, dflt: i32) -> (r: i32)
    ensures
        r == payload_number(payload@, dflt as int),
{
    match text::from_utf8(payload.as_slice()) {
        Some(s) => match text::parse_i64(text::trim(s), i32::MIN as i64, i32::MAX as i64) {
            Some(n) => n as i32,
            None => dflt,
        },
        None => dflt,
    }
}

/// What an MQTT command asks for; nothing while no adapter is available.
pub fn dispatch_mqtt_command(adapter_ready: bool, cmd: &MqttCommand) -> (r: Option<MqttRequest>)
    ensures
        r == (if adapter_ready {
            Some(mqtt_request(cmd.action@, cmd.payload@))
        } else {
            None
        }),
{
    if !adapter_ready {
        return None;
    }
    let a = cmd.action.as_str();
    let p = &cmd.payload;
    Some(
        if text::str_eq(a, "power/on") {
            MqttRequest::PowerOn { addr: parse_number(p, 0) }
        } else if text::str_eq(a, "power/off") {
            MqttRequest::PowerOff { addr: parse_number(p, 0) }
        } else if text::str_eq(a, "volume/up") {
            MqttRequest::Volume { action: Action::VolumeUp }
        } else if text::str_eq(a, "volume/down") {
            MqttRequest::Volume { action: Action::VolumeDown }
        } else if text::str_eq(a, "volume/mute") {
            MqttRequest::Volume { action: Action::Mute }
        } else if text::str_eq(a, "source") {
            MqttRequest::Source { addr: parse_number(p, -1) }
        } else if text::str_eq(a, "hdmi") {
            MqttRequest::Hdmi { port: parse_number(p, -1) }
        } else if text::str_eq(a, "key") {
            MqttRequest::Key
        } else {
            MqttRequest::Unknown
        },
    )
}

/// Counts a published event.
pub fn bump_events_published(m: &mut Metrics)
    ensures
        *final(m) == (Metrics {
            events_published: old(m).events_published.wrapping_add(1),
            ..*old(m)
        }),
{
    m.events_published = m.events_published.wrapping_add(1);
}

// ---------------------------------------------------------------------------
// Persisted strategy overrides
// ---------------------------------------------------------------------------

/// The position of a strategy in a chain, by name.
pub open spec fn strategy_at(chain: Seq<StrategyV>, name: Seq<char>, i: int) -> Option<int>
    decreases chain.len() - i,
{
    if i < 0 || i >= chain.len() {
        None
    } else if chain[i].name == name {
        Some(i)
    } else {
        strategy_at(chain, name, i + 1)
    }
}

/// The strategy that a persisted override picks: the default strategy of the action with the
/// name. An unknown action or strategy picks none.
pub open spec fn picked(o: StrategyOverrideV) -> Option<(Action, StrategyV)> {
    match action_named(action_form(o.action)) {
        Some(a) => match strategy_at(default_chain_of(a), o.strategy, 0) {
            Some(i) => Some((a, default_chain_of(a)[i])),
            None => None,
        },
        None => None,
    }
}

/// What the overrides make of the chain for a vendor key and an action: the last one that picks a
/// strategy counts.
pub open spec fn override_result(
    list: Seq<StrategyOverrideV>,
    vendor: Seq<char>,
    action: Action,
    base: Option<Seq<StrategyV>>,
) -> Option<Seq<StrategyV>>
    decreases list.len(),
{
    if list.len() == 0 {
        base
    } else {
        let o = list.last();
        match picked(o) {
            Some((a, s)) => if a == action && vendor_form(o.vendor) == vendor && vendor.len() > 0 {
                Some(seq![s])
            } else {
                override_result(list.drop_last(), vendor, action, base)
            },
            None => override_result(list.drop_last(), vendor, action, base),
        }
    }
}

/// The list of the first strategy with a name alone.
pub fn find_strategy(chain: Vec<Strategy>, name: &str) -> (r: Option<Vec<Strategy>>)
    ensures
        match r {
            Some(v) => strategy_at(strategy_views(chain@), name@, 0) matches Some(i)
                && strategy_views(v@) == seq![strategy_views(chain@)[i]],
            None => strategy_at(strategy_views(chain@), name@, 0) is None,
        },
{
    let ghost cv = strategy_views(chain@);
    let mut i: usize = 0;
    while i < chain.len()
        invariant
            i <= chain@.len(),
            cv == strategy_views(chain@),
            strategy_at(cv, name@, 0) == strategy_at(cv, name@, i as int),
        decreases chain@.len() - i,
    {
        assert(cv[i as int] == chain@[i as int]@);
        if text::str_eq(chain[i].name.as_str(), name) {
            let mut v: Vec<Strategy> = Vec::new();
            v.push(chain[i].clone());
            assert(strategy_views(v@) =~= seq![cv[i as int]]);
            return Some(v);
        }
        i += 1;
    }
    None
}

/// Applies the persisted per-vendor strategy overrides.
pub fn apply_persisted_strategy_overrides(
    overrides: &Vec<StrategyOverride>,
    registry: &mut Registry,
)
    requires
        old(registry).wf(),
    ensures
        final(registry).wf(),
        forall|v: Seq<char>, a: Action| #[trigger]
            final(registry).lookup(v, a) == override_result(
                override_views(overrides@),
                v,
                a,
                old(registry).lookup(v, a),
            ),
{
    let ghost ov = override_views(overrides@);
    let mut i: usize = 0;
    assert(ov.take(0) =~= Seq::empty());
    while i < overrides.len()
        invariant
            i <= overrides@.len(),
            ov == override_views(overrides@),
            registry.wf(),
            forall|v: Seq<char>, a: Action| #[trigger]
                registry.lookup(v, a) == override_result(
                    ov.take(i as int),
                    v,
                    a,
                    old(registry).lookup(v, a),
                ),
        decreases overrides@.len() - i,
    {
        let o = &overrides[i];
        let ghost before = *registry;
        proof {
            assert(ov[i as int] == o@);
            assert(ov.take(i as int + 1).drop_last() =~= ov.take(i as int));
            assert(ov.take(i as int + 1).last() == o@);
        }
        if let Some(action) = Action::parse(o.action.as_str()) {
            let chain = crate::strategies::default_strategies(action);
            if let Some(v) = find_strategy(chain, o.strategy.as_str()) {
                registry.set_vendor_override(o.vendor.as_str(), action, v);
                proof {
                    assert(strategy_views(v@).len() == 1);
                    assert(v@.len() == 1);
                    assert forall|vk: Seq<char>, a: Action| #[trigger]
                        registry.lookup(vk, a) == override_result(
                            ov.take(i as int + 1),
                            vk,
                            a,
                            old(registry).lookup(vk, a),
                        ) by {
                        assert(before.lookup(vk, a) == override_result(
                            ov.take(i as int),
                            vk,
                            a,
                            old(registry).lookup(vk, a),
                        ));
                    }
                }
            }
        }
        i += 1;
    }
    assert(ov.take(i as int) =~= ov);
}

// ---------------------------------------------------------------------------
// Laws
// ---------------------------------------------------------------------------

/// Each MQTT topic asks for one thing and each thing has one topic, whatever the payload: power on
/// is never power off, and a topic that is none of them asks for nothing.
pub proof fn law_topics_ask_for_what_they_say(topic: Seq<char>, payload: Seq<u8>)
    ensures
        (mqtt_request(topic, payload) is PowerOn) == (topic == "power/on"@),
        (mqtt_request(topic, payload) is PowerOff) == (topic == "power/off"@),
        (mqtt_request(topic, payload) is Source) == (topic == "source"@),
        (mqtt_request(topic, payload) is Hdmi) == (topic == "hdmi"@),
        (mqtt_request(topic, payload) is Key) == (topic == "key"@),
        (mqtt_request(topic, payload) == MqttRequest::Volume { action: Action::VolumeUp }) == (topic
            == "volume/up"@),
        (mqtt_request(topic, payload) == MqttRequest::Volume { action: Action::VolumeDown }) == (
        topic == "volume/down"@),
        (mqtt_request(topic, payload) == MqttRequest::Volume { action: Action::Mute }) == (topic
            == "volume/mute"@),
        mqtt_request(topic, payload) matches MqttRequest::Volume { action } ==> action
            == Action::VolumeUp || action == Action::VolumeDown || action == Action::Mute,
{
    reveal_strlit("power/on");
    reveal_strlit("power/off");
    reveal_strlit("volume/up");
    reveal_strlit("volume/down");
    reveal_strlit("volume/mute");
    reveal_strlit("source");
    reveal_strlit("hdmi");
    reveal_strlit("key");
    assert("power/on"@.len() == 8);
    assert("power/off"@.len() == 9 && "power/off"@[0] == 'p');
    assert("volume/up"@.len() == 9 && "volume/up"@[0] == 'v');
    assert("volume/down"@.len() == 11 && "volume/down"@[7] == 'd');
    assert("volume/mute"@.len() == 11 && "volume/mute"@[7] == 'm');
    assert("source"@.len() == 6);
    assert("hdmi"@.len() == 4);
    assert("key"@.len() == 3);
}

proof fn lemma_number_trims(n: int)
    ensures
        text::trimmed(text::dec_int(n)) == text::dec_int(n),
{
    let t = text::dec_int(n);
    if n < 0 {
        text::lemma_dec_round_trip((-n) as nat);
        assert(text::is_digit(text::dec((-n) as nat)[text::dec((-n) as nat).len() - 1]));
        assert(t.last() == text::dec((-n) as nat).last());
    } else {
        text::lemma_dec_round_trip(n as nat);
        assert(text::is_digit(t[0]));
        assert(text::is_digit(t[t.len() - 1]));
    }
}

/// The number in a payload is the address or port that is asked for. Power without a number goes to
/// the display; a source or port without one is none that exists.
pub proof fn law_payload_numbers_are_addressed(n: i32, payload: Seq<u8>)
    ensures
        ({
            let told = vstd::utf8::encode_utf8(text::dec_int(n as int));
            &&& mqtt_request("power/on"@, told) == (MqttRequest::PowerOn { addr: n })
            &&& mqtt_request("power/off"@, told) == (MqttRequest::PowerOff { addr: n })
            &&& mqtt_request("source"@, told) == (MqttRequest::Source { addr: n })
            &&& mqtt_request("hdmi"@, told) == (MqttRequest::Hdmi { port: n })
        }),
        !vstd::utf8::valid_utf8(payload) || text::trimmed(vstd::utf8::decode_utf8(payload)).len()
            == 0 ==> {
            &&& mqtt_request("power/on"@, payload) == (MqttRequest::PowerOn { addr: 0 })
            &&& mqtt_request("power/off"@, payload) == (MqttRequest::PowerOff { addr: 0 })
            &&& mqtt_request("source"@, payload) == (MqttRequest::Source { addr: -1i32 })
            &&& mqtt_request("hdmi"@, payload) == (MqttRequest::Hdmi { port: -1i32 })
        },
{
    let told = vstd::utf8::encode_utf8(text::dec_int(n as int));
    vstd::utf8::encode_utf8_valid_utf8(text::dec_int(n as int));
    vstd::utf8::encode_utf8_decode_utf8(text::dec_int(n as int));
    lemma_number_trims(n as int);
    text::law_numbers_read_back(n as int, i32::MIN as int, i32::MAX as int);
    law_topics_ask_for_what_they_say("power/on"@, told);
    law_topics_ask_for_what_they_say("power/off"@, told);
    law_topics_ask_for_what_they_say("source"@, told);
    law_topics_ask_for_what_they_say("hdmi"@, told);
    law_topics_ask_for_what_they_say("power/off"@, payload);
    law_topics_ask_for_what_they_say("source"@, payload);
    law_topics_ask_for_what_they_say("hdmi"@, payload);
}

/// An event that is published tells what came from the bus: who sent a command, to whom, and with
/// which opcode; which key was pressed and for how long; which source was activated.
pub proof fn law_published_events_tell_what_came(ev: CecEvent, name: Seq<char>)
    ensures
        match (ev, published(ev, name)) {
            (CecEvent::Command(cmd), Some((kind, data))) => {
                &&& kind == COMMAND@
                &&& json::int_field(data, "initiator"@) == Some(cmd@.initiator as int)
                &&& json::int_field(data, "destination"@) == Some(cmd@.destination as int)
                &&& json::text_field(data, "opcode"@) matches Some(t) && hex_byte_value(t)
                    == cmd@.opcode
            },
            (CecEvent::KeyPress { key, duration }, Some((kind, data))) => {
                &&& kind == KEY_PRESS@
                &&& json::int_field(data, "keycode"@) == Some(key as int)
                &&& json::int_field(data, "duration"@) == Some(duration as int)
            },
            (CecEvent::SourceActivated { address, activated }, Some((kind, data))) => {
                &&& kind == SOURCE_ACTIVATED@
                &&& json::int_field(data, "address"@) == Some(address as int)
                &&& json::bool_field(data, "activated"@) == Some(activated)
            },
            (CecEvent::Alert { alert, param_type, param_value }, Some((kind, data))) => {
                &&& kind == ALERT@
                &&& json::int_field(data, "alert"@) == Some(alert as int)
                &&& json::int_field(data, "param_type"@) == Some(param_type as int)
                &&& json::int_field(data, "param"@) == Some(param_value as int)
            },
            (CecEvent::ConfigurationChanged(_), Some((kind, data))) => {
                &&& kind == CONFIGURATION_CHANGED@
                &&& json::text_field(data, "device_name"@) == Some(name)
            },
            (CecEvent::Log { .. }, None) => true,
            (CecEvent::MenuState { .. }, None) => true,
            _ => false,
        },
{
    reveal_strlit("initiator");
    reveal_strlit("destination");
    reveal_strlit("opcode");
    reveal_strlit("keycode");
    reveal_strlit("duration");
    reveal_strlit("address");
    reveal_strlit("activated");
    reveal_strlit("alert");
    reveal_strlit("param_type");
    reveal_strlit("param");
    assert("initiator"@.len() == 9 && "destination"@.len() == 11 && "opcode"@.len() == 6);
    assert("keycode"@.len() == 7 && "duration"@.len() == 8);
    assert("address"@.len() == 7 && "activated"@.len() == 9);
    assert("alert"@.len() == 5 && "alert"@[0] == 'a' && "param_type"@.len() == 10);
    assert("param"@.len() == 5 && "param"@[0] == 'p');
    if let CecEvent::Command(cmd) = ev {
        law_hexadecimal_bytes_read_back(cmd@.opcode, true);
    }
}

/// The active source changes exactly when a source is activated; no other event moves it, and only
/// commands change what is known of the devices.
pub proof fn law_only_activation_moves_the_source(bus: BusV, ev: CecEvent, now: Timestamp)
    ensures
        match ev {
            CecEvent::SourceActivated { address, activated: true } => bus_after(
                bus,
                ev,
                now,
            ).active_source == address && bus_after(bus, ev, now).cec_ready,
            _ => bus_after(bus, ev, now).active_source == bus.active_source,
        },
        !(ev is Command) ==> bus_after(bus, ev, now).observed == bus.observed && bus_after(
            bus,
            ev,
            now,
        ).ring == bus.ring,
        bus_after(bus, ev, now).devices == bus.devices,
        ev matches CecEvent::SourceActivated { activated: false, .. } ==> bus_after(bus, ev, now)
            == bus,
{
}

/// A command is on record after it was taken in: its sender was seen now, and the frame is the last
/// one in the ring, where there is room for one.
pub proof fn law_commands_are_on_record(bus: BusV, cmd: crate::cec::types::Command, now: Timestamp)
    ensures
        ({
            let after = bus_after(bus, CecEvent::Command(cmd), now);
            &&& cmd@.initiator <= 14 ==> after.observed.contains_key(cmd@.initiator as i32)
                && after.observed[cmd@.initiator as i32].last_seen == now
            &&& bus.ring_cap > 0 ==> after.ring.len() > 0 && after.ring.last().1 == frame_of(
                cmd@,
                now,
            )
            &&& bus.ring_cap == 0 ==> after.ring == bus.ring
        }),
{
}

/// A frame that tells of the place or the name of a device, or of the active source, asks for a
/// thorough look at the bus; a frame that tells of the state of a device for a light one; no frame
/// for both, and none of the others for any.
pub proof fn law_hints_follow_from_opcodes(op: u8)
    ensures
        !(heavy_opcode(op) && light_opcode(op)),
        light_opcode(op) <==> op == 0x90 || op == 0x7a,
        heavy_opcode(op) <==> op == 0x84 || op == 0x87 || op == 0x47 || op == 0x82 || op == 0x80
            || op == 0x81 || op == 0x86 || op == 0x9d || op == 0x85,
{
}

proof fn lemma_strategy_at(chain: Seq<StrategyV>, name: Seq<char>, i: int)
    requires
        0 <= i,
    ensures
        match strategy_at(chain, name, i) {
            Some(k) => i <= k < chain.len() && chain[k].name == name,
            None => forall|j: int| i <= j < chain.len() ==> (#[trigger] chain[j]).name != name,
        },
    decreases chain.len() - i,
{
    if i < chain.len() && chain[i].name != name {
        lemma_strategy_at(chain, name, i + 1);
    }
}

/// A persisted override picks a default strategy of the action it names, the one with the name that
/// it gives; where the action has no such strategy it picks none.
pub proof fn law_overrides_pick_a_default_strategy(o: StrategyOverrideV)
    ensures
        match picked(o) {
            Some((a, s)) => action_named(action_form(o.action)) == Some(a) && s.name == o.strategy
                && default_chain_of(a).contains(s),
            None => action_named(action_form(o.action)) matches Some(a) ==> forall|j: int|
                0 <= j < default_chain_of(a).len() ==> (#[trigger] default_chain_of(a)[j]).name
                    != o.strategy,
        },
{
    if let Some(a) = action_named(action_form(o.action)) {
        lemma_strategy_at(default_chain_of(a), o.strategy, 0);
        if let Some(i) = strategy_at(default_chain_of(a), o.strategy, 0) {
            assert(default_chain_of(a)[i].name == o.strategy);
        }
    }
}

/// Of several persisted overrides for a vendor and an action the last one counts; one for another
/// vendor or another action, or one that picks nothing, changes nothing.
pub proof fn law_last_override_counts(
    list: Seq<StrategyOverrideV>,
    o: StrategyOverrideV,
    vendor: Seq<char>,
    action: Action,
    base: Option<Seq<StrategyV>>,
)
    ensures
        override_result(Seq::empty(), vendor, action, base) == base,
        picked(o) matches Some(p) ==> (vendor.len() > 0 && vendor_form(o.vendor) == vendor && p.0
            == action ==> override_result(list.push(o), vendor, action, base) == Some(seq![p.1])),
        vendor.len() == 0 || vendor_form(o.vendor) != vendor || !(picked(o) matches Some(p) && p.0
            == action) ==> override_result(list.push(o), vendor, action, base) == override_result(
            list,
            vendor,
            action,
            base,
        ),
{
    assert(list.push(o).drop_last() =~= list);
}

/// A power report that changes what is on record is told as an event of the device with its new
/// status; one that does not, and any other frame, is told by none.
pub proof fn law_power_changes_are_told(bus: BusV, cmd: CommandV, now: Timestamp, r: Option<AppEvent>)
    requires
        power_told(bus, cmd, now, r),
    ensures
        r is Some <==> cmd.opcode == 0x90 && cmd.parameters.len() > 0 && bus.observed_text(
            cmd.initiator as i32,
            "power_status"@,
        ) != Some(power_status_text(cmd.parameters[0])),
        r matches Some(e) ==> e@.kind == "power_change"@ && e@.timestamp == now && json::int_field(
            e@.data,
            "address"@,
        ) == Some(cmd.initiator as int) && json::text_field(e@.data, "status"@) == Some(
            power_status_text(cmd.parameters[0]),
        ),
{
    reveal_strlit("address");
    reveal_strlit("status");
    assert("address"@.len() != "status"@.len());
}

/// A frame of a device without an address is no sighting: where it is not a report, what is on
/// record stays as it is.
pub proof fn law_unaddressed_frames_are_no_sightings(
    bus: BusV,
    cmd: crate::cec::types::Command,
    now: Timestamp,
)
    requires
        cmd@.initiator > 14,
        cmd@.parameters.len() == 0,
        cmd@.opcode != Opcode::SET_OSD_NAME,
    ensures
        bus_after(bus, CecEvent::Command(cmd), now).observed == bus.observed,
{
}

} // verus!
