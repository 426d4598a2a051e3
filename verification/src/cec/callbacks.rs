//! What the callbacks of libcec become: plain values copied out of C memory are turned into events,
//! and a callback of a session that is unknown or closing is dropped.

use crate::cec::session::{Connection, Sessions};
use crate::cec::types::{
    CecEvent, Command, Configuration, DeviceType, LogLevel, LogicalAddress, Opcode,
};
use crate::text;
use vstd::prelude::*;

verus! {

/// Whether a callback with an id runs: the id is registered and its session lets callbacks in.
pub open spec fn runs_on(ids: Set<u64>, id: u64, session: Connection) -> bool {
    ids.contains(id) && session.lets_in()
}

/// Begins a callback with an id; where it does not run, nothing changes. A callback that runs is
/// ended with [`Connection::end_callback`].
pub fn enter(sessions: &Sessions, id: u64, session: &mut Connection) -> (r: bool)
    requires
        sessions.wf(),
        old(session).inflight < u64::MAX,
    ensures
        r == runs_on(sessions@, id, *old(session)),
        *final(session) == (Connection {
            inflight: (old(session).inflight + if r { 1int } else { 0int }) as u64,
            ..*old(session)
        }),
{
    if !sessions.contains(id) {
        return false;
    }
    session.begin_callback()
}

/// The text of bytes that a callback may come with.
pub open spec fn message_of(bytes: Option<Seq<u8>>) -> Seq<char> {
    match bytes {
        Some(b) => text::lossy(b),
        None => Seq::empty(),
    }
}

/// What optional bytes hold.
pub open spec fn bytes_view(bytes: Option<&[u8]>) -> Option<Seq<u8>> {
    match bytes {
        Some(b) => Some(b@),
        None => None,
    }
}

fn message(bytes: Option<&[u8]>) -> (r: String)
    ensures
        r@ == message_of(bytes_view(bytes)),
{
    match bytes {
        Some(b) => text::from_utf8_lossy(b),
        None => String::new(),
    }
}

/// A log message. `bytes` are those before the NUL; `None` stands for a null pointer.
pub fn bridge_log(level: i32, time: i64, bytes: Option<&[u8]>) -> (r: CecEvent)
    ensures
        r matches CecEvent::Log { level: l, time: t, message: m } && l.0 == level && t == time && m@
            == message_of(bytes_view(bytes)),
{
    CecEvent::Log { level: LogLevel(level), time, message: message(bytes) }
}

/// The low byte of a number.
pub open spec fn low_byte(n: i32) -> u8 {
    (n as int % 256) as u8
}

fn byte_of(n: i32) -> (r: u8)
    ensures
        r == low_byte(n),
{
    if n >= 0 {
        (n % 256) as u8
    } else {
        let m: i64 = (n as i64) + 0x1_0000_0000;
        assert(m % 256 == n as int % 256);
        (m % 256) as u8
    }
}

/// A key press; of the code the low byte counts.
pub fn bridge_key(keycode: i32, duration: u32) -> (r: CecEvent)
    ensures
        r == (CecEvent::KeyPress { key: low_byte(keycode), duration }),
{
    CecEvent::KeyPress { key: byte_of(keycode), duration }
}

/// A frame as libcec hands it out; a flag is set where it is not 0.
#[derive(Debug)]
pub struct RawFrame {
    pub initiator: u8,
    pub destination: u8,
    pub ack: i8,
    pub eom: i8,
    pub opcode: u8,
    pub opcode_set: i8,
    pub parameters: Vec<u8>,
}

/// A frame on the bus.
pub fn bridge_command(f: RawFrame) -> (r: CecEvent)
    ensures
        r matches CecEvent::Command(c) && c == (Command {
            initiator: LogicalAddress(f.initiator),
            destination: LogicalAddress(f.destination),
            ack: f.ack != 0,
            eom: f.eom != 0,
            opcode: Opcode(f.opcode),
            opcode_set: f.opcode_set != 0,
            parameters: f.parameters,
        }),
{
    CecEvent::Command(
        Command {
            initiator: LogicalAddress(f.initiator),
            destination: LogicalAddress(f.destination),
            ack: f.ack != 0,
            eom: f.eom != 0,
            opcode: Opcode(f.opcode),
            opcode_set: f.opcode_set != 0,
            parameters: f.parameters,
        },
    )
}

/// The fields of a changed configuration. `device_name` is `None` for a null pointer.
pub fn config_snapshot_from_raw(
    device_name: Option<&[u8]>,
    device_type: i32,
    physical_address: u16,
    base_device: i32,
    hdmi_port: u8,
) -> (r: Configuration)
    ensures
        r.device_name@ == message_of(bytes_view(device_name)),
        r.device_type.0 == low_byte(device_type),
        r.physical_address == physical_address,
        r.base_device.0 == low_byte(base_device),
        r.hdmi_port == hdmi_port,
        !r.monitor_only,
        !r.activate_source,
        r.wake_devices@.len() == 0,
        r.power_off_devices@.len() == 0,
{
    Configuration {
        device_name: message(device_name),
        device_type: DeviceType(byte_of(device_type)),
        physical_address,
        base_device: LogicalAddress(byte_of(base_device)),
        hdmi_port,
        monitor_only: false,
        activate_source: false,
        wake_devices: Vec::new(),
        power_off_devices: Vec::new(),
    }
}

/// An alert.
pub fn bridge_alert(alert: i32, param_type: i32, param_value: i64) -> (r: CecEvent)
    ensures
        r == (CecEvent::Alert { alert, param_type, param_value }),
{
    CecEvent::Alert { alert, param_type, param_value }
}

/// What libcec is answered on a menu change: 1 adopts the new state. That is so where the callback
/// does not run and where there is no handler, and else up to the handler.
pub fn bridge_menu(runs: bool, handler: Option<bool>) -> (r: i32)
    ensures
        r == (if runs && handler == Some(false) {
            0i32
        } else {
            1i32
        }),
{
    match handler {
        Some(adopt) => if !runs || adopt {
            1
        } else {
            0
        },
        None => 1,
    }
}

/// A change of the active source; of the address the low byte counts.
pub fn bridge_source(address: i32, activated: i32) -> (r: CecEvent)
    ensures
        r == (CecEvent::SourceActivated { address: low_byte(address), activated: activated != 0 }),
{
    CecEvent::SourceActivated { address: byte_of(address), activated: activated != 0 }
}

/// No callback runs on a session that was forgotten or closed.
pub proof fn law_no_callback_after_close(ids: Set<u64>, id: u64, session: Connection)
    requires
        session.wf(),
    ensures
        !runs_on(ids.remove(id), id, session),
        !runs_on(ids, id, session.torn_down()),
{
}

/// Of a number the low byte counts: a byte stays as it is, and numbers that differ by 256 count the
/// same.
pub proof fn law_the_low_byte_counts(n: i32)
    ensures
        0 <= n <= 255 ==> low_byte(n) == n,
        n <= 0x7fff_ff00 - 1 ==> low_byte(n) == low_byte((n + 256) as i32),
        (n - low_byte(n)) % 256 == 0,
{
}

/// A callback runs exactly where its session is registered and neither closing nor closed.
pub proof fn law_callbacks_run_on_live_sessions(ids: Set<u64>, id: u64, session: Connection)
    ensures
        runs_on(ids, id, session) <==> ids.contains(id) && !session.closing && !session.closed,
{
}

} // verus!
