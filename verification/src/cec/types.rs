//! CEC domain types and the name tables that appear in the wire formats.

use crate::cec::ffi::{CEC_INVALID_PHYSICAL_ADDRESS, CEC_MAX_DATA_PACKET_SIZE};
use crate::json;
use crate::json::JsonV;
use crate::text;
use crate::strategies::{hex_byte_value, law_hexadecimal_bytes_read_back, underscored};
use crate::topology::{law_port_of_a_physical_address, port_at};
use vstd::prelude::*;
use vstd::utf8::{encode_scalar, encode_utf8};

verus! {

// ---------------------------------------------------------------------------
// LogicalAddress
// ---------------------------------------------------------------------------

/// A CEC logical address (0-15) or "unknown".
///
/// CEC uses 0xF for both broadcast and "no/unknown" depending on the field; libcec uses -1 (cast
/// to 0xFF) for the "no address" sentinel. They are kept distinct so callers can tell them apart.
#[derive(Debug, Default, Clone, Copy, PartialEq, Eq, Hash, PartialOrd, Ord, Structural)]
pub struct LogicalAddress(pub u8);

impl LogicalAddress {
    pub const TV: u8 = 0x00;
    pub const RECORDING_DEVICE_1: u8 = 0x01;
    pub const RECORDING_DEVICE_2: u8 = 0x02;
    pub const TUNER_1: u8 = 0x03;
    pub const PLAYBACK_DEVICE_1: u8 = 0x04;
    pub const AUDIO_SYSTEM: u8 = 0x05;
    pub const TUNER_2: u8 = 0x06;
    pub const TUNER_3: u8 = 0x07;
    pub const PLAYBACK_DEVICE_2: u8 = 0x08;
    pub const RECORDING_DEVICE_3: u8 = 0x09;
    pub const TUNER_4: u8 = 0x0A;
    pub const PLAYBACK_DEVICE_3: u8 = 0x0B;
    pub const RESERVED_1: u8 = 0x0C;
    pub const RESERVED_2: u8 = 0x0D;
    pub const FREE_USE: u8 = 0x0E;
    pub const BROADCAST: u8 = 0x0F;
    pub const UNKNOWN: u8 = 0xFF;

    /// A real CEC logical address (0-14). Broadcast (0xF) and Unknown (0xFF) are not valid device
    /// addresses.
    pub fn is_valid(self) -> (r: bool)
        ensures
            r == (self.0 <= 14),
    {
        self.0 <= Self::FREE_USE
    }

    pub fn is_broadcast(self) -> (r: bool)
        ensures
            r == (self.0 == 15),
    {
        self.0 == Self::BROADCAST
    }

    pub fn is_unknown(self) -> (r: bool)
        ensures
            r == (self.0 == 0xFF),
    {
        self.0 == Self::UNKNOWN
    }
}

/// The display text of a logical address.
pub open spec fn logical_address_text(addr: u8) -> Seq<char> {
    match addr {
        0x00 => "TV"@,
        0x01 => "Recording Device 1"@,
        0x02 => "Recording Device 2"@,
        0x03 => "Tuner 1"@,
        0x04 => "Playback Device 1"@,
        0x05 => "Audio System"@,
        0x06 => "Tuner 2"@,
        0x07 => "Tuner 3"@,
        0x08 => "Playback Device 2"@,
        0x09 => "Recording Device 3"@,
        0x0A => "Tuner 4"@,
        0x0B => "Playback Device 3"@,
        0x0C => "Reserved 1"@,
        0x0D => "Reserved 2"@,
        0x0E => "Free Use"@,
        0x0F => "Broadcast"@,
        _ => "Unknown"@,
    }
}

impl LogicalAddress {
    /// The display text.
    pub fn to_string(&self) -> (r: String)
        ensures
            r@ == logical_address_text(self.0),
    {
        let s = match self.0 {
            0x00 => "TV",
            0x01 => "Recording Device 1",
            0x02 => "Recording Device 2",
            0x03 => "Tuner 1",
            0x04 => "Playback Device 1",
            0x05 => "Audio System",
            0x06 => "Tuner 2",
            0x07 => "Tuner 3",
            0x08 => "Playback Device 2",
            0x09 => "Recording Device 3",
            0x0A => "Tuner 4",
            0x0B => "Playback Device 3",
            0x0C => "Reserved 1",
            0x0D => "Reserved 2",
            0x0E => "Free Use",
            0x0F => "Broadcast",
            _ => "Unknown",
        };
        s.to_owned()
    }
}

/// Display name for a raw logical address byte.
pub fn logical_address_name(addr: u8) -> (r: String)
    ensures
        r@ == logical_address_text(addr),
{
    LogicalAddress(addr).to_string()
}

// ---------------------------------------------------------------------------
// DeviceType
// ---------------------------------------------------------------------------

/// A CEC device type.
#[derive(Debug, Clone, Copy, PartialEq, Eq, Hash, Structural)]
pub struct DeviceType(pub u8);

impl DeviceType {
    pub const TV: u8 = 0;
    pub const RECORDING: u8 = 1;
    pub const RESERVED: u8 = 2;
    pub const TUNER: u8 = 3;
    pub const PLAYBACK: u8 = 4;
    pub const AUDIO_SYSTEM: u8 = 5;
}

/// The display text of a device type.
pub open spec fn device_type_text(t: u8) -> Seq<char> {
    match t {
        0 => "TV"@,
        1 => "Recording Device"@,
        3 => "Tuner"@,
        4 => "Playback Device"@,
        5 => "Audio System"@,
        _ => "Reserved"@,
    }
}

impl DeviceType {
    /// The display text.
    pub fn to_string(&self) -> (r: String)
        ensures
            r@ == device_type_text(self.0),
    {
        let s = match self.0 {
            0 => "TV",
            1 => "Recording Device",
            3 => "Tuner",
            4 => "Playback Device",
            5 => "Audio System",
            _ => "Reserved",
        };
        s.to_owned()
    }
}

/// The compact role text of a logical address.
pub open spec fn device_role_text(addr: u8) -> Seq<char> {
    match addr {
        0x00 => "TV"@,
        0x01 => "RecordingDevice1"@,
        0x02 => "RecordingDevice2"@,
        0x09 => "RecordingDevice3"@,
        0x03 => "Tuner1"@,
        0x06 => "Tuner2"@,
        0x07 => "Tuner3"@,
        0x0A => "Tuner4"@,
        0x04 => "PlaybackDevice1"@,
        0x08 => "PlaybackDevice2"@,
        0x0B => "PlaybackDevice3"@,
        0x05 => "AudioSystem"@,
        0x0E => "FreeUse"@,
        0x0F => "Broadcast"@,
        _ => "Unknown"@,
    }
}

/// Expected device type (as a compact role string) for a logical address.
pub fn device_type_for_address(addr: u8) -> (r: &'static str)
    ensures
        r@ == device_role_text(addr),
{
    match addr {
        0x00 => "TV",
        0x01 => "RecordingDevice1",
        0x02 => "RecordingDevice2",
        0x09 => "RecordingDevice3",
        0x03 => "Tuner1",
        0x06 => "Tuner2",
        0x07 => "Tuner3",
        0x0A => "Tuner4",
        0x04 => "PlaybackDevice1",
        0x08 => "PlaybackDevice2",
        0x0B => "PlaybackDevice3",
        0x05 => "AudioSystem",
        0x0E => "FreeUse",
        0x0F => "Broadcast",
        _ => "Unknown",
    }
}

/// Expected device type for a logical address.
pub fn expected_device_type(addr: u8) -> (r: DeviceType)
    ensures
        r.0 == (match addr {
            0x00 => DeviceType::TV,
            0x01 | 0x02 | 0x09 => DeviceType::RECORDING,
            0x03 | 0x06 | 0x07 | 0x0A => DeviceType::TUNER,
            0x04 | 0x08 | 0x0B => DeviceType::PLAYBACK,
            0x05 => DeviceType::AUDIO_SYSTEM,
            _ => DeviceType::RESERVED,
        }),
{
    let t: u8 = if addr == LogicalAddress::TV {
        DeviceType::TV
    } else if addr == LogicalAddress::RECORDING_DEVICE_1 || addr
        == LogicalAddress::RECORDING_DEVICE_2 || addr == LogicalAddress::RECORDING_DEVICE_3 {
        DeviceType::RECORDING
    } else if addr == LogicalAddress::TUNER_1 || addr == LogicalAddress::TUNER_2 || addr
        == LogicalAddress::TUNER_3 || addr == LogicalAddress::TUNER_4 {
        DeviceType::TUNER
    } else if addr == LogicalAddress::PLAYBACK_DEVICE_1 || addr == LogicalAddress::PLAYBACK_DEVICE_2
        || addr == LogicalAddress::PLAYBACK_DEVICE_3 {
        DeviceType::PLAYBACK
    } else if addr == LogicalAddress::AUDIO_SYSTEM {
        DeviceType::AUDIO_SYSTEM
    } else {
        DeviceType::RESERVED
    };
    DeviceType(t)
}

// ---------------------------------------------------------------------------
// PowerStatus
// ---------------------------------------------------------------------------

/// Device power status.
///
/// `UNKNOWN` (0xFF) is distinct from libcec's wire sentinel 0x99, which a power query reports as
/// an error.
#[derive(Debug, Clone, Copy, PartialEq, Eq, Hash, Structural)]
pub struct PowerStatus(pub u8);

impl PowerStatus {
    pub const ON: u8 = 0x00;
    pub const STANDBY: u8 = 0x01;
    pub const IN_TRANSITION_STANDBY_TO_ON: u8 = 0x02;
    pub const IN_TRANSITION_ON_TO_STANDBY: u8 = 0x03;
    pub const UNKNOWN: u8 = 0xFF;
}

/// The display text of a power status.
pub open spec fn power_status_display(s: u8) -> Seq<char> {
    match s {
        0x00 => "On"@,
        0x01 => "Standby"@,
        0x02 => "Transitioning to On"@,
        0x03 => "Transitioning to Standby"@,
        _ => "Unknown"@,
    }
}

impl PowerStatus {
    /// The display text.
    pub fn to_string(&self) -> (r: String)
        ensures
            r@ == power_status_display(self.0),
    {
        let s = match self.0 {
            0x00 => "On",
            0x01 => "Standby",
            0x02 => "Transitioning to On",
            0x03 => "Transitioning to Standby",
            _ => "Unknown",
        };
        s.to_owned()
    }
}

/// The wire text of a raw power status byte.
pub open spec fn power_status_text(raw: u8) -> Seq<char> {
    match raw {
        0x00 => "on"@,
        0x01 => "standby"@,
        0x02 => "transitioning_to_on"@,
        0x03 => "transitioning_to_standby"@,
        _ => "unknown"@,
    }
}

/// Maps a raw CEC power status byte to the wire string.
pub fn power_status_str(raw: u8) -> (r: String)
    ensures
        r@ == power_status_text(raw),
{
    let s = match raw {
        0x00 => "on",
        0x01 => "standby",
        0x02 => "transitioning_to_on",
        0x03 => "transitioning_to_standby",
        _ => "unknown",
    };
    s.to_owned()
}

// ---------------------------------------------------------------------------
// CECVersion
// ---------------------------------------------------------------------------

/// CEC version.
#[derive(Debug, Clone, Copy, PartialEq, Eq, Hash, Structural)]
pub struct CECVersion(pub u8);

impl CECVersion {
    pub const UNKNOWN: u8 = 0x00;
    pub const V1_2: u8 = 0x01;
    pub const V1_2A: u8 = 0x02;
    pub const V1_3: u8 = 0x03;
    pub const V1_3A: u8 = 0x04;
    pub const V1_4: u8 = 0x05;
}

/// The display text of a CEC version.
pub open spec fn cec_version_text(v: u8) -> Seq<char> {
    match v {
        0x01 => "1.2"@,
        0x02 => "1.2a"@,
        0x03 => "1.3"@,
        0x04 => "1.3a"@,
        0x05 => "1.4"@,
        _ => "Unknown"@,
    }
}

impl CECVersion {
    /// The display text.
    pub fn to_string(&self) -> (r: String)
        ensures
            r@ == cec_version_text(self.0),
    {
        let s = match self.0 {
            0x01 => "1.2",
            0x02 => "1.2a",
            0x03 => "1.3",
            0x04 => "1.3a",
            0x05 => "1.4",
            _ => "Unknown",
        };
        s.to_owned()
    }
}

// ---------------------------------------------------------------------------
// Opcode
// ---------------------------------------------------------------------------

/// A CEC opcode.
#[derive(Debug, Default, Clone, Copy, PartialEq, Eq, Hash, Structural)]
pub struct Opcode(pub u8);

impl Opcode {
    pub const ACTIVE_SOURCE: u8 = 0x82;
    pub const IMAGE_VIEW_ON: u8 = 0x04;
    pub const TEXT_VIEW_ON: u8 = 0x0D;
    pub const INACTIVE_SOURCE: u8 = 0x9D;
    pub const REQUEST_ACTIVE_SOURCE: u8 = 0x85;
    pub const ROUTING_CHANGE: u8 = 0x80;
    pub const ROUTING_INFORMATION: u8 = 0x81;
    pub const SET_STREAM_PATH: u8 = 0x86;
    pub const STANDBY: u8 = 0x36;
    pub const RECORD_OFF: u8 = 0x0B;
    pub const RECORD_ON: u8 = 0x09;
    pub const RECORD_STATUS: u8 = 0x0A;
    pub const RECORD_TV_SCREEN: u8 = 0x0F;
    pub const CLEAR_ANALOGUE_TIMER: u8 = 0x33;
    pub const CLEAR_DIGITAL_TIMER: u8 = 0x99;
    pub const CLEAR_EXTERNAL_TIMER: u8 = 0xA1;
    pub const SET_ANALOGUE_TIMER: u8 = 0x34;
    pub const SET_DIGITAL_TIMER: u8 = 0x97;
    pub const SET_EXTERNAL_TIMER: u8 = 0xA2;
    pub const SET_TIMER_PROGRAM_TITLE: u8 = 0x67;
    pub const TIMER_CLEARED_STATUS: u8 = 0x43;
    pub const TIMER_STATUS: u8 = 0x35;
    pub const CEC_VERSION: u8 = 0x9E;
    pub const GET_CEC_VERSION: u8 = 0x9F;
    pub const GIVE_PHYSICAL_ADDRESS: u8 = 0x83;
    pub const GET_MENU_LANGUAGE: u8 = 0x91;
    pub const REPORT_PHYSICAL_ADDRESS: u8 = 0x84;
    pub const SET_MENU_LANGUAGE: u8 = 0x32;
    pub const DECK_CONTROL: u8 = 0x42;
    pub const DECK_STATUS: u8 = 0x1B;
    pub const GIVE_DECK_STATUS: u8 = 0x1A;
    pub const PLAY: u8 = 0x41;
    pub const GIVE_TUNER_DEVICE_STATUS: u8 = 0x08;
    pub const SELECT_ANALOGUE_SERVICE: u8 = 0x92;
    pub const SELECT_DIGITAL_SERVICE: u8 = 0x93;
    pub const TUNER_DEVICE_STATUS: u8 = 0x07;
    pub const TUNER_STEP_DECREMENT: u8 = 0x06;
    pub const TUNER_STEP_INCREMENT: u8 = 0x05;
    pub const DEVICE_VENDOR_ID: u8 = 0x87;
    pub const GIVE_DEVICE_VENDOR_ID: u8 = 0x8C;
    pub const VENDOR_COMMAND: u8 = 0x89;
    pub const VENDOR_COMMAND_WITH_ID: u8 = 0xA0;
    pub const VENDOR_REMOTE_BUTTON_DOWN: u8 = 0x8A;
    pub const VENDOR_REMOTE_BUTTON_UP: u8 = 0x8B;
    pub const SET_OSD_STRING: u8 = 0x64;
    pub const GIVE_OSD_NAME: u8 = 0x46;
    pub const SET_OSD_NAME: u8 = 0x47;
    pub const MENU_REQUEST: u8 = 0x8D;
    pub const MENU_STATUS: u8 = 0x8E;
    pub const USER_CONTROL_PRESSED: u8 = 0x44;
    pub const USER_CONTROL_RELEASED: u8 = 0x45;
    pub const GIVE_DEVICE_POWER_STATUS: u8 = 0x8F;
    pub const REPORT_POWER_STATUS: u8 = 0x90;
    pub const FEATURE_ABORT: u8 = 0x00;
    pub const ABORT: u8 = 0xFF;
    pub const GIVE_AUDIO_STATUS: u8 = 0x71;
    pub const GIVE_SYSTEM_AUDIO_MODE_STATUS: u8 = 0x7D;
    pub const REPORT_AUDIO_STATUS: u8 = 0x7A;
    pub const SET_SYSTEM_AUDIO_MODE: u8 = 0x72;
    pub const SYSTEM_AUDIO_MODE_REQUEST: u8 = 0x70;
    pub const SYSTEM_AUDIO_MODE_STATUS: u8 = 0x7E;
    pub const SET_AUDIO_RATE: u8 = 0x9A;
}

/// Opcode names; an opcode that is not listed is shown in hexadecimal.
pub const OPCODE_NAMES: [(u8, &'static str); 18] = [
    (Opcode::REPORT_POWER_STATUS, "REPORT_POWER_STATUS"),
    (Opcode::REPORT_AUDIO_STATUS, "REPORT_AUDIO_STATUS"),
    (Opcode::REPORT_PHYSICAL_ADDRESS, "REPORT_PHYSICAL_ADDRESS"),
    (Opcode::DEVICE_VENDOR_ID, "DEVICE_VENDOR_ID"),
    (Opcode::SET_OSD_NAME, "SET_OSD_NAME"),
    (Opcode::CEC_VERSION, "CEC_VERSION"),
    (Opcode::FEATURE_ABORT, "FEATURE_ABORT"),
    (Opcode::ACTIVE_SOURCE, "ACTIVE_SOURCE"),
    (Opcode::ROUTING_CHANGE, "ROUTING_CHANGE"),
    (Opcode::ROUTING_INFORMATION, "ROUTING_INFORMATION"),
    (Opcode::SET_STREAM_PATH, "SET_STREAM_PATH"),
    (Opcode::MENU_STATUS, "MENU_STATUS"),
    (Opcode::SYSTEM_AUDIO_MODE_STATUS, "SYSTEM_AUDIO_MODE_STATUS"),
    (Opcode::STANDBY, "STANDBY"),
    (Opcode::IMAGE_VIEW_ON, "IMAGE_VIEW_ON"),
    (Opcode::TEXT_VIEW_ON, "TEXT_VIEW_ON"),
    (Opcode::USER_CONTROL_PRESSED, "USER_CONTROL_PRESSED"),
    (Opcode::USER_CONTROL_RELEASED, "USER_CONTROL_RELEASED"),
];

/// The name of an opcode, looked up from entry `i` of [`OPCODE_NAMES`] on.
pub open spec fn opcode_text_from(op: u8, i: int) -> Seq<char>
    decreases OPCODE_NAMES@.len() - i,
{
    if i < 0 || i >= OPCODE_NAMES@.len() {
        text::hex_byte(op)
    } else if OPCODE_NAMES@[i].0 == op {
        OPCODE_NAMES@[i].1@
    } else {
        opcode_text_from(op, i + 1)
    }
}

/// The name of an opcode: the first entry of [`OPCODE_NAMES`] for it, or `0xNN`.
pub open spec fn opcode_text(op: u8) -> Seq<char> {
    opcode_text_from(op, 0)
}

/// Human-readable opcode name; falls back to uppercase hexadecimal.
pub fn opcode_name(op: Opcode) -> (r: String)
    ensures
        r@ == opcode_text(op.0),
{
    let mut i: usize = 0;
    while i < 18
        invariant
            i <= 18 == OPCODE_NAMES@.len(),
            opcode_text(op.0) == opcode_text_from(op.0, i as int),
        decreases 18 - i,
    {
        let e = OPCODE_NAMES[i];
        if e.0 == op.0 {
            return e.1.to_owned();
        }
        i += 1;
    }
    text::hex_byte_string(op.0)
}

impl Opcode {
    pub fn name(self) -> (r: String)
        ensures
            r@ == opcode_text(self.0),
    {
        opcode_name(self)
    }
}

// ---------------------------------------------------------------------------
// Keycode
// ---------------------------------------------------------------------------

/// A CEC user control code.
#[derive(Debug, Clone, Copy, PartialEq, Eq, Hash, Structural)]
pub struct Keycode(pub u8);

impl Keycode {
    pub const SELECT: u8 = 0x00;
    pub const UP: u8 = 0x01;
    pub const DOWN: u8 = 0x02;
    pub const LEFT: u8 = 0x03;
    pub const RIGHT: u8 = 0x04;
    pub const RIGHT_UP: u8 = 0x05;
    pub const RIGHT_DOWN: u8 = 0x06;
    pub const LEFT_UP: u8 = 0x07;
    pub const LEFT_DOWN: u8 = 0x08;
    pub const ROOT_MENU: u8 = 0x09;
    pub const SETUP_MENU: u8 = 0x0A;
    pub const CONTENTS_MENU: u8 = 0x0B;
    pub const FAVORITE_MENU: u8 = 0x0C;
    pub const EXIT: u8 = 0x0D;
    pub const K0: u8 = 0x20;
    pub const K1: u8 = 0x21;
    pub const K2: u8 = 0x22;
    pub const K3: u8 = 0x23;
    pub const K4: u8 = 0x24;
    pub const K5: u8 = 0x25;
    pub const K6: u8 = 0x26;
    pub const K7: u8 = 0x27;
    pub const K8: u8 = 0x28;
    pub const K9: u8 = 0x29;
    pub const DOT: u8 = 0x2A;
    pub const ENTER: u8 = 0x2B;
    pub const CLEAR: u8 = 0x2C;
    pub const CHANNEL_UP: u8 = 0x30;
    pub const CHANNEL_DOWN: u8 = 0x31;
    pub const PREVIOUS_CHANNEL: u8 = 0x32;
    pub const SOUND_SELECT: u8 = 0x33;
    pub const INPUT_SELECT: u8 = 0x34;
    pub const DISPLAY_INFORMATION: u8 = 0x35;
    pub const HELP: u8 = 0x36;
    pub const PAGE_UP: u8 = 0x37;
    pub const PAGE_DOWN: u8 = 0x38;
    pub const POWER: u8 = 0x40;
    pub const VOLUME_UP: u8 = 0x41;
    pub const VOLUME_DOWN: u8 = 0x42;
    pub const MUTE: u8 = 0x43;
    pub const PLAY: u8 = 0x44;
    pub const STOP: u8 = 0x45;
    pub const PAUSE: u8 = 0x46;
    pub const RECORD: u8 = 0x47;
    pub const REWIND: u8 = 0x48;
    pub const FAST_FORWARD: u8 = 0x49;
    pub const EJECT: u8 = 0x4A;
    pub const FORWARD: u8 = 0x4B;
    pub const BACKWARD: u8 = 0x4C;
    pub const ANGLE: u8 = 0x50;
    pub const SUBPICTURE: u8 = 0x51;
    pub const F1_BLUE: u8 = 0x71;
    pub const F2_RED: u8 = 0x72;
    pub const F3_GREEN: u8 = 0x73;
    pub const F4_YELLOW: u8 = 0x74;
    pub const F5: u8 = 0x75;
}

/// Key names, with aliases (`home`, `back`, `menu`). Several names may stand for one keycode; the
/// first name for a code is its canonical name.
pub const KEY_NAMES: [(&'static str, u8); 59] = [
    ("select", Keycode::SELECT),
    ("up", Keycode::UP),
    ("down", Keycode::DOWN),
    ("left", Keycode::LEFT),
    ("right", Keycode::RIGHT),
    ("right_up", Keycode::RIGHT_UP),
    ("right_down", Keycode::RIGHT_DOWN),
    ("left_up", Keycode::LEFT_UP),
    ("left_down", Keycode::LEFT_DOWN),
    ("root_menu", Keycode::ROOT_MENU),
    ("home", Keycode::ROOT_MENU),
    ("setup_menu", Keycode::SETUP_MENU),
    ("menu", Keycode::SETUP_MENU),
    ("contents_menu", Keycode::CONTENTS_MENU),
    ("favorite_menu", Keycode::FAVORITE_MENU),
    ("exit", Keycode::EXIT),
    ("back", Keycode::EXIT),
    ("enter", Keycode::ENTER),
    ("clear", Keycode::CLEAR),
    ("0", Keycode::K0),
    ("1", Keycode::K1),
    ("2", Keycode::K2),
    ("3", Keycode::K3),
    ("4", Keycode::K4),
    ("5", Keycode::K5),
    ("6", Keycode::K6),
    ("7", Keycode::K7),
    ("8", Keycode::K8),
    ("9", Keycode::K9),
    ("dot", Keycode::DOT),
    ("channel_up", Keycode::CHANNEL_UP),
    ("channel_down", Keycode::CHANNEL_DOWN),
    ("previous_channel", Keycode::PREVIOUS_CHANNEL),
    ("sound_select", Keycode::SOUND_SELECT),
    ("input_select", Keycode::INPUT_SELECT),
    ("display_information", Keycode::DISPLAY_INFORMATION),
    ("help", Keycode::HELP),
    ("page_up", Keycode::PAGE_UP),
    ("page_down", Keycode::PAGE_DOWN),
    ("power", Keycode::POWER),
    ("volume_up", Keycode::VOLUME_UP),
    ("volume_down", Keycode::VOLUME_DOWN),
    ("mute", Keycode::MUTE),
    ("play", Keycode::PLAY),
    ("stop", Keycode::STOP),
    ("pause", Keycode::PAUSE),
    ("record", Keycode::RECORD),
    ("rewind", Keycode::REWIND),
    ("fast_forward", Keycode::FAST_FORWARD),
    ("eject", Keycode::EJECT),
    ("forward", Keycode::FORWARD),
    ("backward", Keycode::BACKWARD),
    ("angle", Keycode::ANGLE),
    ("subpicture", Keycode::SUBPICTURE),
    ("f1_blue", Keycode::F1_BLUE),
    ("f2_red", Keycode::F2_RED),
    ("f3_green", Keycode::F3_GREEN),
    ("f4_yellow", Keycode::F4_YELLOW),
    ("f5", Keycode::F5),
];

/// The position of a key name in [`KEY_NAMES`], from entry `i` on.
pub open spec fn key_index_from(name: Seq<char>, i: int) -> Option<int>
    decreases KEY_NAMES@.len() - i,
{
    if i < 0 || i >= KEY_NAMES@.len() {
        None
    } else if KEY_NAMES@[i].0@ == name {
        Some(i)
    } else {
        key_index_from(name, i + 1)
    }
}

/// The keycode of a key name.
pub open spec fn key_code(name: Seq<char>) -> Option<Keycode> {
    match key_index_from(name, 0) {
        Some(i) => Some(Keycode(KEY_NAMES@[i].1)),
        None => None,
    }
}

/// The canonical name of a keycode, from entry `i` of [`KEY_NAMES`] on.
pub open spec fn key_text_from(code: u8, i: int) -> Option<Seq<char>>
    decreases KEY_NAMES@.len() - i,
{
    if i < 0 || i >= KEY_NAMES@.len() {
        None
    } else if KEY_NAMES@[i].1 == code {
        Some(KEY_NAMES@[i].0@)
    } else {
        key_text_from(code, i + 1)
    }
}

/// The canonical name of a keycode: the first name listed for it.
pub open spec fn key_text(code: u8) -> Option<Seq<char>> {
    key_text_from(code, 0)
}

/// Resolves a key name (see [`KEY_NAMES`]) to a keycode.
pub fn keycode_from_name(name: &str) -> (r: Option<Keycode>)
    ensures
        r == key_code(name@),
{
    let mut i: usize = 0;
    while i < 59
        invariant
            i <= 59 == KEY_NAMES@.len(),
            key_index_from(name@, 0) == key_index_from(name@, i as int),
        decreases 59 - i,
    {
        let e = KEY_NAMES[i];
        if text::str_eq(e.0, name) {
            return Some(Keycode(e.1));
        }
        i += 1;
    }
    None
}

impl Keycode {
    pub fn from_name(name: &str) -> (r: Option<Keycode>)
        ensures
            r == key_code(name@),
    {
        keycode_from_name(name)
    }

    /// Canonical name for this keycode (first entry in [`KEY_NAMES`] with this code), if any.
    pub fn canonical_name(self) -> (r: Option<&'static str>)
        ensures
            match r {
                Some(s) => key_text(self.0) == Some(s@),
                None => key_text(self.0) is None,
            },
    {
        let mut i: usize = 0;
        while i < 59
            invariant
                i <= 59 == KEY_NAMES@.len(),
                key_text(self.0) == key_text_from(self.0, i as int),
            decreases 59 - i,
        {
            let e = KEY_NAMES[i];
            if e.1 == self.0 {
                return Some(e.0);
            }
            i += 1;
        }
        None
    }
}

// ---------------------------------------------------------------------------
// Small enumerations
// ---------------------------------------------------------------------------

/// OSD display duration control.
#[derive(Debug, Clone, Copy, PartialEq, Eq, Hash, Structural)]
pub struct DisplayControl(pub u8);

impl DisplayControl {
    pub const DEFAULT_TIME: u8 = 0x00;
    pub const UNTIL_CLEARED: u8 = 0x40;
    pub const CLEAR_PREVIOUS: u8 = 0x80;
    pub const RESERVED: u8 = 0xC0;
}

/// Menu state reported by libcec.
#[derive(Debug, Clone, Copy, PartialEq, Eq, Hash, Structural)]
pub struct MenuState(pub u8);

impl MenuState {
    pub const ACTIVATED: u8 = 0x00;
    pub const DEACTIVATED: u8 = 0x01;
}

/// libcec log message level.
#[derive(Debug, Clone, Copy, PartialEq, Eq, Hash, Structural)]
pub struct LogLevel(pub i32);

impl LogLevel {
    pub const ERROR: i32 = 1;
    pub const WARNING: i32 = 2;
    pub const NOTICE: i32 = 4;
    pub const TRAFFIC: i32 = 8;
    pub const DEBUG: i32 = 16;
    pub const ALL: i32 = 31;
}

/// The display text of a log level.
pub open spec fn log_level_text(level: i32) -> Seq<char> {
    match level {
        1 => "ERROR"@,
        2 => "WARNING"@,
        4 => "NOTICE"@,
        8 => "TRAFFIC"@,
        16 => "DEBUG"@,
        _ => "ALL"@,
    }
}

impl LogLevel {
    /// The display text.
    pub fn to_string(&self) -> (r: String)
        ensures
            r@ == log_level_text(self.0),
    {
        let s = match self.0 {
            1 => "ERROR",
            2 => "WARNING",
            4 => "NOTICE",
            8 => "TRAFFIC",
            16 => "DEBUG",
            _ => "ALL",
        };
        s.to_owned()
    }
}

/// libcec alert type.
#[derive(Debug, Clone, Copy, PartialEq, Eq, Hash, Structural)]
pub struct Alert(pub i32);

impl Alert {
    pub const SERVICE_DEVICE: i32 = 1;
    pub const CONNECTION_LOST: i32 = 2;
    pub const PERMISSION_ERROR: i32 = 3;
    pub const PORT_BUSY: i32 = 4;
    pub const PHYSICAL_ADDRESS_ERROR: i32 = 5;
    pub const TV_POLL_FAILED: i32 = 6;
}

/// The display text of an alert.
pub open spec fn alert_text(alert: i32) -> Seq<char> {
    match alert {
        1 => "ServiceDevice"@,
        2 => "ConnectionLost"@,
        3 => "PermissionError"@,
        4 => "PortBusy"@,
        5 => "PhysicalAddressError"@,
        6 => "TVPollFailed"@,
        _ => "Unknown"@,
    }
}

impl Alert {
    /// The display text.
    pub fn to_string(&self) -> (r: String)
        ensures
            r@ == alert_text(self.0),
    {
        let s = match self.0 {
            1 => "ServiceDevice",
            2 => "ConnectionLost",
            3 => "PermissionError",
            4 => "PortBusy",
            5 => "PhysicalAddressError",
            6 => "TVPollFailed",
            _ => "Unknown",
        };
        s.to_owned()
    }
}

/// An alert parameter.
#[derive(Debug, Clone, Copy, PartialEq, Eq, Structural)]
pub struct Parameter {
    pub param_type: i32,
    pub value: i64,
}

// ---------------------------------------------------------------------------
// Data structs
// ---------------------------------------------------------------------------

/// A CEC command frame.
#[derive(Debug, PartialEq, Eq)]
pub struct Command {
    pub initiator: LogicalAddress,
    pub destination: LogicalAddress,
    pub opcode: Opcode,
    pub opcode_set: bool,
    pub parameters: Vec<u8>,
    pub ack: bool,
    pub eom: bool,
}

/// What a [`Command`] holds.
pub struct CommandV {
    pub initiator: u8,
    pub destination: u8,
    pub opcode: u8,
    pub opcode_set: bool,
    pub parameters: Seq<u8>,
    pub ack: bool,
    pub eom: bool,
}

impl View for Command {
    type V = CommandV;

    open spec fn view(&self) -> CommandV {
        CommandV {
            initiator: self.initiator.0,
            destination: self.destination.0,
            opcode: self.opcode.0,
            opcode_set: self.opcode_set,
            parameters: self.parameters@,
            ack: self.ack,
            eom: self.eom,
        }
    }
}

/// A copy of a byte list.
pub fn copy_bytes(v: &Vec<u8>) -> (r: Vec<u8>)
    ensures
        r@ == v@,
{
    let mut out: Vec<u8> = Vec::new();
    let mut i: usize = 0;
    while i < v.len()
        invariant
            i <= v@.len(),
            out@ == v@.take(i as int),
        decreases v@.len() - i,
    {
        out.push(v[i]);
        i += 1;
        assert(out@ =~= v@.take(i as int));
    }
    assert(v@.take(i as int) =~= v@);
    out
}

impl Clone for Command {
    fn clone(&self) -> (r: Command)
        ensures
            r@ == self@,
    {
        Command {
            initiator: self.initiator,
            destination: self.destination,
            opcode: self.opcode,
            opcode_set: self.opcode_set,
            parameters: copy_bytes(&self.parameters),
            ack: self.ack,
            eom: self.eom,
        }
    }
}

impl Default for Command {
    fn default() -> (r: Command)
        ensures
            r@ == (CommandV {
                initiator: 0,
                destination: 0,
                opcode: 0,
                opcode_set: false,
                parameters: Seq::empty(),
                ack: false,
                eom: false,
            }),
    {
        Command {
            initiator: LogicalAddress(0),
            destination: LogicalAddress(0),
            opcode: Opcode(0),
            opcode_set: false,
            parameters: Vec::new(),
            ack: false,
            eom: false,
        }
    }
}

/// A discoverable CEC adapter (USB or built-in).
#[derive(Debug, Clone, PartialEq, Eq)]
pub struct Adapter {
    pub path: String,
    pub comm: String,
}

/// Session configuration.
#[derive(Debug, Clone, PartialEq, Eq)]
pub struct Configuration {
    /// At most 13 bytes without NULs; cut by `sanitize_device_name` before it reaches libcec.
    pub device_name: String,
    pub device_type: DeviceType,
    /// 0xFFFF = auto-detect.
    pub physical_address: u16,
    pub base_device: LogicalAddress,
    pub hdmi_port: u8,
    /// When true, libcec does not allocate a logical address and transmits are refused.
    pub monitor_only: bool,
    /// When true, libcec announces itself as the active source on open.
    pub activate_source: bool,
    /// Logical addresses libcec wakes on connect (suppresses libcec's default of {TV} when empty).
    pub wake_devices: Vec<u8>,
    /// Logical addresses libcec puts in standby on disconnect (suppresses libcec's default of
    /// {BROADCAST} when empty).
    pub power_off_devices: Vec<u8>,
}

impl Default for Configuration {
    fn default() -> (r: Configuration)
        ensures
            r.device_name@ == Seq::<char>::empty(),
            r.device_type.0 == DeviceType::PLAYBACK,
            r.physical_address == 0xFFFF,
            r.base_device.0 == LogicalAddress::UNKNOWN,
            r.hdmi_port == 0,
            !r.monitor_only,
            !r.activate_source,
            r.wake_devices@.len() == 0,
            r.power_off_devices@.len() == 0,
    {
        Configuration {
            device_name: String::new(),
            device_type: DeviceType(DeviceType::PLAYBACK),
            physical_address: 0xFFFF,
            base_device: LogicalAddress(LogicalAddress::UNKNOWN),
            hdmi_port: 0,
            monitor_only: false,
            activate_source: false,
            wake_devices: Vec::new(),
            power_off_devices: Vec::new(),
        }
    }
}

/// The UTF-8 length of a character.
fn utf8_len(c: char) -> (r: usize)
    ensures
        r == encode_scalar(c as u32).len(),
        1 <= r <= 4,
{
    let u: u32 = c as u32;
    if u <= 0x7F {
        1
    } else if u <= 0x7FF {
        2
    } else if u <= 0xFFFF {
        3
    } else {
        4
    }
}

proof fn lemma_encode_push(s: Seq<char>, c: char)
    ensures
        encode_utf8(s.push(c)) == encode_utf8(s) + encode_scalar(c as u32),
    decreases s.len(),
{
    if s.len() == 0 {
        assert(s.push(c).drop_first() =~= Seq::<char>::empty());
        assert(encode_utf8(s.push(c)) =~= encode_scalar(c as u32) + encode_utf8(
            s.push(c).drop_first(),
        ));
        assert(encode_utf8(s.push(c)) =~= encode_utf8(s) + encode_scalar(c as u32));
    } else {
        lemma_encode_push(s.drop_first(), c);
        assert(s.push(c).drop_first() =~= s.drop_first().push(c));
        assert(encode_utf8(s.push(c)) =~= encode_utf8(s) + encode_scalar(c as u32));
    }
}

/// A device name that fits: at most 13 bytes of UTF-8.
pub open spec fn name_fits(s: Seq<char>) -> bool {
    encode_utf8(s).len() <= 13
}

/// A name without its NUL characters.
pub open spec fn without_nuls(name: Seq<char>) -> Seq<char> {
    name.filter(|c: char| c != '\0')
}

/// `r` is the longest beginning of `name` that fits.
pub open spec fn sanitized(name: Seq<char>, r: Seq<char>) -> bool {
    &&& r.len() <= name.len()
    &&& r == name.take(r.len() as int)
    &&& name_fits(r)
    &&& r.len() == name.len() || !name_fits(name.take(r.len() as int + 1))
}

/// The characters of a name but the NULs.
fn strip_nuls(name: &str) -> (r: Vec<char>)
    ensures
        r@ == without_nuls(name@),
        !r@.contains('\0'),
{
    let cs = text::chars_of(name);
    let ghost keep = |c: char| c != '\0';
    let mut out: Vec<char> = Vec::new();
    let mut i: usize = 0;
    proof {
        reveal(Seq::filter);
        assert(out@ =~= cs@.take(0).filter(keep));
    }
    while i < cs.len()
        invariant
            i <= cs@.len(),
            keep == (|c: char| c != '\0'),
            out@ == cs@.take(i as int).filter(keep),
            forall|k: int| 0 <= k < out@.len() ==> #[trigger] out@[k] != '\0',
        decreases cs@.len() - i,
    {
        proof {
            reveal(Seq::filter);
            assert(cs@.take(i as int + 1).drop_last() =~= cs@.take(i as int));
            assert(cs@.take(i as int + 1).last() == cs@[i as int]);
        }
        if cs[i] != '\0' {
            out.push(cs[i]);
        }
        i += 1;
    }
    assert(cs@.take(i as int) =~= name@);
    out
}

/// Truncates a device name to at most 13 bytes on a character boundary and strips its NULs, so it
/// can always become a C string.
pub fn sanitize_device_name(name: &str) -> (r: String)
    ensures
        sanitized(without_nuls(name@), r@),
        !r@.contains('\0'),
{
    let cs = strip_nuls(name);
    let n: usize = cs.len();
    let mut out = String::new();
    let mut len: usize = 0;
    let mut i: usize = 0;
    assert(cs@.take(0) =~= Seq::<char>::empty());
    while i < n && len + utf8_len(cs[i]) <= 13
        invariant
            i <= n == cs@.len(),
            out@ == cs@.take(i as int),
            len == encode_utf8(out@).len(),
            len <= 13,
        decreases n - i,
    {
        let c = cs[i];
        proof {
            assert(cs@.take(i as int + 1) =~= out@.push(c));
            lemma_encode_push(out@, c);
        }
        out.push(c);
        len += utf8_len(c);
        i += 1;
    }
    proof {
        if i < n {
            assert(cs@.take(i as int + 1) =~= out@.push(cs@[i as int]));
            lemma_encode_push(out@, cs@[i as int]);
        }
        assert(!out@.contains('\0')) by {
            if out@.contains('\0') {
                let k = out@.index_of('\0');
                assert(cs@[k] == '\0');
            }
        }
    }
    out
}

// ---------------------------------------------------------------------------
// Errors
// ---------------------------------------------------------------------------

/// Errors of the CEC layer.
#[derive(Debug, Clone, PartialEq, Eq)]
pub enum CecError {
    Closed,
    MonitorOnly,
    InvalidLogicalAddress,
    InvalidHdmiPort,
    InvalidParams(String),
    NoActiveSource,
    AdapterNotOpen,
    LibcecCall(String),
}

/// `e` is [`CecError::InvalidParams`] with this message.
pub open spec fn is_invalid_params(e: CecError, message: Seq<char>) -> bool {
    e matches CecError::InvalidParams(m) && m@ == message
}

/// `e` is [`CecError::LibcecCall`] with this message.
pub open spec fn is_failed_call(e: CecError, message: Seq<char>) -> bool {
    e matches CecError::LibcecCall(m) && m@ == message
}

/// The display text of a CEC error.
pub open spec fn cec_error_text(e: CecError) -> Seq<char> {
    match e {
        CecError::Closed => "cec: connection closed"@,
        CecError::MonitorOnly => "cec: connection is monitor-only; cannot transmit"@,
        CecError::InvalidLogicalAddress => "cec: invalid logical address"@,
        CecError::InvalidHdmiPort => "cec: invalid HDMI port"@,
        CecError::InvalidParams(m) => "cec: invalid parameters: "@ + m@,
        CecError::NoActiveSource => "cec: no active source"@,
        CecError::AdapterNotOpen => "cec: adapter not open"@,
        CecError::LibcecCall(m) => "cec: libcec call failed: "@ + m@,
    }
}

impl CecError {
    /// The display text.
    pub fn to_string(&self) -> (r: String)
        ensures
            r@ == cec_error_text(*self),
    {
        match self {
            CecError::Closed => "cec: connection closed".to_owned(),
            CecError::MonitorOnly => "cec: connection is monitor-only; cannot transmit".to_owned(),
            CecError::InvalidLogicalAddress => "cec: invalid logical address".to_owned(),
            CecError::InvalidHdmiPort => "cec: invalid HDMI port".to_owned(),
            CecError::InvalidParams(m) => text::concat("cec: invalid parameters: ", m.as_str()),
            CecError::NoActiveSource => "cec: no active source".to_owned(),
            CecError::AdapterNotOpen => "cec: adapter not open".to_owned(),
            CecError::LibcecCall(m) => text::concat("cec: libcec call failed: ", m.as_str()),
        }
    }
}

// ---------------------------------------------------------------------------
// Events
// ---------------------------------------------------------------------------

/// Asynchronous event delivered by a session.
#[derive(Debug, Clone)]
pub enum CecEvent {
    Log { level: LogLevel, time: i64, message: String },
    KeyPress { key: u8, duration: u32 },
    Command(Command),
    ConfigurationChanged(Configuration),
    Alert { alert: i32, param_type: i32, param_value: i64 },
    MenuState { state: i32 },
    SourceActivated { address: u8, activated: bool },
}

// ---------------------------------------------------------------------------
// Device info
// ---------------------------------------------------------------------------

/// Per-field failure flags of a device query.
#[derive(Debug, Clone, Copy, PartialEq, Eq, Structural)]
pub struct DeviceInfoErrors {
    pub physical_address: bool,
    pub vendor_id: bool,
    pub cec_version: bool,
    pub power_status: bool,
    pub osd_name: bool,
    pub menu_language: bool,
}

impl Default for DeviceInfoErrors {
    fn default() -> (r: DeviceInfoErrors)
        ensures
            r == (DeviceInfoErrors {
                physical_address: false,
                vendor_id: false,
                cec_version: false,
                power_status: false,
                osd_name: false,
                menu_language: false,
            }),
    {
        DeviceInfoErrors {
            physical_address: false,
            vendor_id: false,
            cec_version: false,
            power_status: false,
            osd_name: false,
            menu_language: false,
        }
    }
}

impl DeviceInfoErrors {
    /// At least one sub-query failed.
    pub fn any(&self) -> (r: bool)
        ensures
            r == (self.physical_address || self.vendor_id || self.cec_version || self.power_status
                || self.osd_name || self.menu_language),
    {
        self.physical_address || self.vendor_id || self.cec_version || self.power_status
            || self.osd_name || self.menu_language
    }

    /// Every sub-query failed (device unresponsive).
    pub fn all(&self) -> (r: bool)
        ensures
            r == (self.physical_address && self.vendor_id && self.cec_version && self.power_status
                && self.osd_name && self.menu_language),
    {
        self.physical_address && self.vendor_id && self.cec_version && self.power_status
            && self.osd_name && self.menu_language
    }
}

/// Aggregated device information. Always constructible; failed sub-queries keep zero values and
/// are flagged in [`DeviceInfoErrors`].
#[derive(Debug, Clone, PartialEq)]
pub struct DeviceInfo {
    pub logical_address: LogicalAddress,
    /// Display string of the logical address.
    pub address_name: String,
    pub physical_address: u16,
    pub osd_name: String,
    pub menu_language: String,
    pub vendor_id: u64,
    pub vendor_name: String,
    pub vendor_known: bool,
    pub cec_version: CECVersion,
    pub power_status: PowerStatus,
    /// HDMI port derived from the physical address (0 if not applicable).
    pub hdmi_port: u8,
    pub is_active: bool,
    pub is_active_source: bool,
    /// Which sub-queries failed while aggregating.
    pub errors: DeviceInfoErrors,
}

/// The HDMI port of a physical address: its first nibble, unless the address is 0 or invalid.
pub open spec fn hdmi_port_of(physical_address: u16) -> int {
    if physical_address != 0 && physical_address != CEC_INVALID_PHYSICAL_ADDRESS {
        physical_address as int / 4096
    } else {
        0
    }
}

/// The JSON object of a device.
pub open spec fn device_object(d: DeviceInfo) -> Map<Seq<char>, JsonV> {
    json::no_fields().insert(
        "logical_address"@,
        JsonV::Int(d.logical_address.0 as int),
    ).insert("address_name"@, JsonV::Text(d.address_name@)).insert(
        "physical_address"@,
        JsonV::Text(physical_address_text(d.physical_address)),
    ).insert("osd_name"@, JsonV::Text(d.osd_name@)).insert(
        "menu_language"@,
        JsonV::Text(d.menu_language@),
    ).insert("vendor_id"@, JsonV::Text("0x"@ + text::hex(d.vendor_id as nat, 6, false))).insert(
        "vendor_name"@,
        JsonV::Text(d.vendor_name@),
    ).insert("vendor_known"@, JsonV::Bool(d.vendor_known)).insert(
        "cec_version"@,
        JsonV::Text(cec_version_text(d.cec_version.0)),
    ).insert("power_status"@, JsonV::Text(power_status_display(d.power_status.0))).insert(
        "hdmi_port"@,
        JsonV::Int(d.hdmi_port as int),
    ).insert("is_active"@, JsonV::Bool(d.is_active)).insert(
        "is_active_source"@,
        JsonV::Bool(d.is_active_source),
    )
}

impl DeviceInfo {
    /// HDMI port: first nibble of the physical address, unless the address is 0 or invalid.
    pub fn derive_hdmi_port(physical_address: u16) -> (r: u8)
        ensures
            r == hdmi_port_of(physical_address),
    {
        if physical_address != 0 && physical_address != CEC_INVALID_PHYSICAL_ADDRESS {
            (physical_address / 4096) as u8
        } else {
            0
        }
    }

    /// The device as a JSON object.
    pub fn to_map(&self) -> (r: serde_json::Map<String, serde_json::Value>)
        ensures
            json::object(r) == device_object(*self),
    {
        let mut m = json::new_object();
        json::insert(&mut m, "logical_address", json::integer(self.logical_address.0 as i64));
        json::insert(&mut m, "address_name", json::text(self.address_name.as_str()));
        json::insert(
            &mut m,
            "physical_address",
            json::text(physical_address_to_string(self.physical_address).as_str()),
        );
        json::insert(&mut m, "osd_name", json::text(self.osd_name.as_str()));
        json::insert(&mut m, "menu_language", json::text(self.menu_language.as_str()));
        let vendor = text::concat("0x", text::hex_u64(self.vendor_id, 6, false).as_str());
        json::insert(&mut m, "vendor_id", json::text(vendor.as_str()));
        json::insert(&mut m, "vendor_name", json::text(self.vendor_name.as_str()));
        json::insert(&mut m, "vendor_known", json::boolean(self.vendor_known));
        json::insert(&mut m, "cec_version", json::text(self.cec_version.to_string().as_str()));
        json::insert(&mut m, "power_status", json::text(self.power_status.to_string().as_str()));
        json::insert(&mut m, "hdmi_port", json::integer(self.hdmi_port as i64));
        json::insert(&mut m, "is_active", json::boolean(self.is_active));
        json::insert(&mut m, "is_active_source", json::boolean(self.is_active_source));
        m
    }
}

// ---------------------------------------------------------------------------
// Vendors
// ---------------------------------------------------------------------------

/// Vendor names by vendor ID.
pub const VENDOR_NAMES: [(u64, &'static str); 26] = [
    (0x000039, "Toshiba"),
    (0x000048, "LG"),
    (0x0000F0, "Samsung"),
    (0x0005CD, "Denon"),
    (0x000678, "Marantz"),
    (0x000982, "Loewe"),
    (0x0009B0, "Onkyo"),
    (0x000CB8, "Medion"),
    (0x000CE7, "Toshiba"),
    (0x001582, "Pulse Eight"),
    (0x001950, "Google"),
    (0x001A11, "Akai"),
    (0x0020C7, "AOC"),
    (0x002467, "Panasonic"),
    (0x008045, "Philips"),
    (0x00903E, "Pioneer"),
    (0x009053, "LG"),
    (0x00A0DE, "Sharp"),
    (0x00D0D5, "Vizio"),
    (0x00E036, "Harman Kardon"),
    (0x00E091, "Yamaha"),
    (0x08001F, "Sony"),
    (0x18C086, "Broadcom"),
    (0x6B746D, "Vizio"),
    (0x8065E9, "Benq"),
    (0x9C645E, "Daewoo"),
];

/// The name of a vendor, from entry `i` of [`VENDOR_NAMES`] on.
pub open spec fn vendor_from(vendor_id: u64, i: int) -> Option<Seq<char>>
    decreases VENDOR_NAMES@.len() - i,
{
    if i < 0 || i >= VENDOR_NAMES@.len() {
        None
    } else if VENDOR_NAMES@[i].0 == vendor_id {
        Some(VENDOR_NAMES@[i].1@)
    } else {
        vendor_from(vendor_id, i + 1)
    }
}

/// The name of a known vendor.
pub open spec fn vendor(vendor_id: u64) -> Option<Seq<char>> {
    vendor_from(vendor_id, 0)
}

/// The name shown for a vendor.
pub open spec fn vendor_text(vendor_id: u64) -> Seq<char> {
    match vendor(vendor_id) {
        Some(name) => name,
        None => "Unknown (0x"@ + text::hex(vendor_id as nat, 6, true) + ")"@,
    }
}

/// Human-readable vendor name; unknown IDs format as `Unknown (0xABCDEF)`.
pub fn get_vendor_name(vendor_id: u64) -> (r: String)
    ensures
        r@ == vendor_text(vendor_id),
{
    match lookup_vendor(vendor_id) {
        Some(name) => name.to_owned(),
        None => text::concat3("Unknown (0x", text::hex_u64(vendor_id, 6, true).as_str(), ")"),
    }
}

/// The name of a known vendor.
pub fn lookup_vendor(vendor_id: u64) -> (r: Option<&'static str>)
    ensures
        match r {
            Some(s) => vendor(vendor_id) == Some(s@),
            None => vendor(vendor_id) is None,
        },
{
    let mut i: usize = 0;
    while i < 26
        invariant
            i <= 26 == VENDOR_NAMES@.len(),
            vendor(vendor_id) == vendor_from(vendor_id, i as int),
        decreases 26 - i,
    {
        let e = VENDOR_NAMES[i];
        if e.0 == vendor_id {
            return Some(e.1);
        }
        i += 1;
    }
    None
}

/// Whether the vendor ID is known.
pub fn is_known_vendor(vendor_id: u64) -> (r: bool)
    ensures
        r == vendor(vendor_id) is Some,
{
    lookup_vendor(vendor_id).is_some()
}

// ---------------------------------------------------------------------------
// Physical addresses
// ---------------------------------------------------------------------------

/// The dotted form of a packed physical address.
pub open spec fn physical_address_text(addr: u16) -> Seq<char> {
    text::dec((addr / 4096) as nat).push('.') + text::dec((addr / 256 % 16) as nat).push('.')
        + text::dec((addr / 16 % 16) as nat).push('.') + text::dec((addr % 16) as nat)
}

/// Converts a packed physical address into dotted form (0x2100 -> "2.1.0.0").
pub fn physical_address_to_string(addr: u16) -> (r: String)
    ensures
        r@ == physical_address_text(addr),
{
    let mut out = text::dec_u64((addr / 4096) as u64);
    out.push('.');
    let mut b = text::dec_u64((addr / 256 % 16) as u64);
    b.push('.');
    let mut c = text::dec_u64((addr / 16 % 16) as u64);
    c.push('.');
    let d = text::dec_u64((addr % 16) as u64);
    out.append(b.as_str());
    out.append(c.as_str());
    out.append(d.as_str());
    out
}

/// What the dotted components `i..` of a physical address add to the value `acc` of those before
/// them, or the message for the first component that is no number from 0 to 15.
pub open spec fn parse_components(addr: Seq<char>, parts: Seq<Seq<char>>, i: int, acc: nat) -> Result<
    nat,
    Seq<char>,
>
    decreases parts.len() - i,
{
    if i < 0 || i >= parts.len() {
        Ok(acc)
    } else {
        match text::parse_nat(parts[i], 65535) {
            None => Err(
                "physical address "@ + text::quoted(addr) + ": bad component "@ + text::quoted(
                    parts[i],
                ),
            ),
            Some(v) => if v > 15 {
                Err(
                    "physical address components must be 0-15 (got "@ + text::dec(v) + " in "@
                        + text::quoted(addr) + ")"@,
                )
            } else {
                parse_components(addr, parts, i + 1, acc * 16 + v)
            },
        }
    }
}

/// The packed value of a dotted physical address, or the message that says what is wrong with it.
pub open spec fn parsed_physical_address(addr: Seq<char>) -> Result<nat, Seq<char>> {
    let parts = text::split_on(addr, '.');
    if parts.len() != 4 {
        Err("physical address "@ + text::quoted(addr) + " must have 4 dotted components"@)
    } else {
        parse_components(addr, parts, 0, 0)
    }
}

/// Parses dotted form back into the packed value.
pub fn parse_physical_address(addr: &str) -> (r: Result<u16, CecError>)
    ensures
        match r {
            Ok(v) => parsed_physical_address(addr@) == Ok::<nat, Seq<char>>(v as nat),
            Err(e) => e matches CecError::InvalidParams(m) && parsed_physical_address(addr@) == Err::<
                nat,
                Seq<char>,
            >(m@),
        },
{
    let parts = text::split(addr, '.');
    let ghost ps = text::split_on(addr@, '.');
    if parts.len() != 4 {
        let m = text::concat3(
            "physical address ",
            text::quote(addr).as_str(),
            " must have 4 dotted components",
        );
        return Err(CecError::InvalidParams(m));
    }
    let mut out: u16 = 0;
    let mut i: usize = 0;
    while i < 4
        invariant
            i <= 4 == parts@.len(),
            ps == text::split_on(addr@, '.'),
            text::views(parts@) == ps,
            parsed_physical_address(addr@) == parse_components(addr@, ps, i as int, out as nat),
            i == 0 ==> out == 0,
            i == 1 ==> out < 16,
            i == 2 ==> out < 256,
            i == 3 ==> out < 4096,
        decreases 4 - i,
    {
        assert(ps[i as int] == parts@[i as int]@);
        let v: u64 = match text::parse_u64(parts[i].as_str(), 65535) {
            Some(v) => v,
            None => {
                let mut m = text::concat3(
                    "physical address ",
                    text::quote(addr).as_str(),
                    ": bad component ",
                );
                m.append(text::quote(parts[i].as_str()).as_str());
                return Err(CecError::InvalidParams(m));
            },
        };
        if v > 15 {
            let mut m = text::concat3(
                "physical address components must be 0-15 (got ",
                text::dec_u64(v).as_str(),
                " in ",
            );
            m.append(text::quote(addr).as_str());
            m.append(")");
            return Err(CecError::InvalidParams(m));
        }
        out = out * 16 + v as u16;
        i += 1;
    }
    Ok(out)
}

proof fn lemma_dec_has_no_dot(n: nat)
    ensures
        !text::dec(n).contains('.'),
{
    text::lemma_dec_round_trip(n);
    if text::dec(n).contains('.') {
        let k = text::dec(n).index_of('.');
        assert(text::is_digit(text::dec(n)[k]));
    }
}

/// The components of the dotted form of a physical address: they are its hexadecimal digits.
pub proof fn lemma_components(addr: u16) -> (r: (nat, nat, nat, nat))
    ensures
        r.0 == addr / 4096,
        r.1 == addr / 256 % 16,
        r.2 == addr / 16 % 16,
        r.3 == addr % 16,
        text::split_on(physical_address_text(addr), '.') == seq![
            text::dec(r.0),
            text::dec(r.1),
            text::dec(r.2),
            text::dec(r.3),
        ],
{
    let a = (addr / 4096) as nat;
    let b = (addr / 256 % 16) as nat;
    let c = (addr / 16 % 16) as nat;
    let d = (addr % 16) as nat;
    let (ta, tb, tc, td) = (text::dec(a), text::dec(b), text::dec(c), text::dec(d));
    lemma_dec_has_no_dot(a);
    lemma_dec_has_no_dot(b);
    lemma_dec_has_no_dot(c);
    lemma_dec_has_no_dot(d);
    let t2 = ta.push('.') + tb;
    let t3 = t2.push('.') + tc;
    let t4 = t3.push('.') + td;
    assert(physical_address_text(addr) =~= t4);
    text::lemma_split_single(ta, '.');
    text::lemma_split_more(ta, tb, '.');
    text::lemma_split_more(t2, tc, '.');
    text::lemma_split_more(t3, td, '.');
    assert(text::split_on(t4, '.') =~= seq![ta, tb, tc, td]);
    (a, b, c, d)
}

/// Reading back the dotted form of a physical address gives the address.
pub proof fn law_physical_address_round_trip(addr: u16)
    ensures
        parsed_physical_address(physical_address_text(addr)) == Ok::<nat, Seq<char>>(addr as nat),
{
    let a = (addr / 4096) as nat;
    let b = (addr / 256 % 16) as nat;
    let c = (addr / 16 % 16) as nat;
    let d = (addr % 16) as nat;
    let (ta, tb, tc, td) = (text::dec(a), text::dec(b), text::dec(c), text::dec(d));
    lemma_dec_has_no_dot(a);
    lemma_dec_has_no_dot(b);
    lemma_dec_has_no_dot(c);
    lemma_dec_has_no_dot(d);
    text::lemma_dec_round_trip(a);
    text::lemma_dec_round_trip(b);
    text::lemma_dec_round_trip(c);
    text::lemma_dec_round_trip(d);
    let t2 = ta.push('.') + tb;
    let t3 = t2.push('.') + tc;
    let t4 = t3.push('.') + td;
    assert(physical_address_text(addr) =~= t4);
    text::lemma_split_single(ta, '.');
    text::lemma_split_more(ta, tb, '.');
    text::lemma_split_more(t2, tc, '.');
    text::lemma_split_more(t3, td, '.');
    let parts = text::split_on(t4, '.');
    assert(parts =~= seq![ta, tb, tc, td]);
    assert(text::parse_nat(ta, 65535) == Some(a));
    assert(text::parse_nat(tb, 65535) == Some(b));
    assert(text::parse_nat(tc, 65535) == Some(c));
    assert(text::parse_nat(td, 65535) == Some(d));
    let v: nat = ((a * 16 + b) * 16 + c) * 16 + d;
    assert(parse_components(t4, parts, 4, v) == Ok::<nat, Seq<char>>(v));
    assert(parse_components(t4, parts, 3, (a * 16 + b) * 16 + c) == Ok::<nat, Seq<char>>(v));
    assert(parse_components(t4, parts, 2, a * 16 + b) == Ok::<nat, Seq<char>>(v));
    assert(parse_components(t4, parts, 1, a) == Ok::<nat, Seq<char>>(v));
    assert(v == addr);
}

// ---------------------------------------------------------------------------
// Transmit validation
// ---------------------------------------------------------------------------

/// Why a command cannot be transmitted, if it cannot.
pub open spec fn transmit_fault(cmd: CommandV) -> Option<Seq<char>> {
    if cmd.initiator > 15 {
        Some(
            "initiator "@ + text::dec(cmd.initiator as nat)
                + " is not a valid logical address (0..=15)"@,
        )
    } else if cmd.destination > 15 {
        Some(
            "destination "@ + text::dec(cmd.destination as nat)
                + " is not a valid logical address (0..=15)"@,
        )
    } else if cmd.parameters.len() > CEC_MAX_DATA_PACKET_SIZE {
        Some(
            "parameters.len() = "@ + text::dec(cmd.parameters.len())
                + " exceeds CEC_MAX_DATA_PACKET_SIZE (64)"@,
        )
    } else {
        None
    }
}

/// Validates a command for transmit without needing a live session: initiator and destination
/// are 0..=15 (0xFF "unknown" is rejected), and there are at most 64 parameter bytes, so that
/// their number always fits the one-byte size field.
pub fn validate_transmit(cmd: &Command) -> (r: Result<(), CecError>)
    ensures
        match r {
            Ok(()) => transmit_fault(cmd@) is None,
            Err(e) => e matches CecError::InvalidParams(m) && transmit_fault(cmd@) == Some(m@),
        },
{
    if cmd.initiator.0 > 15 {
        return Err(
            CecError::InvalidParams(
                text::concat3(
                    "initiator ",
                    text::dec_u64(cmd.initiator.0 as u64).as_str(),
                    " is not a valid logical address (0..=15)",
                ),
            ),
        );
    }
    if cmd.destination.0 > 15 {
        return Err(
            CecError::InvalidParams(
                text::concat3(
                    "destination ",
                    text::dec_u64(cmd.destination.0 as u64).as_str(),
                    " is not a valid logical address (0..=15)",
                ),
            ),
        );
    }
    if cmd.parameters.len() > CEC_MAX_DATA_PACKET_SIZE {
        return Err(
            CecError::InvalidParams(
                text::concat3(
                    "parameters.len() = ",
                    text::dec_u64(cmd.parameters.len() as u64).as_str(),
                    " exceeds CEC_MAX_DATA_PACKET_SIZE (64)",
                ),
            ),
        );
    }
    Ok(())
}

// ---------------------------------------------------------------------------
// Laws
// ---------------------------------------------------------------------------

/// A text without its spaces.
pub open spec fn squeezed(s: Seq<char>) -> Seq<char>
    decreases s.len(),
{
    if s.len() == 0 {
        Seq::empty()
    } else if s.last() == ' ' {
        squeezed(s.drop_last())
    } else {
        squeezed(s.drop_last()).push(s.last())
    }
}

#[verifier::spinoff_prover]
#[verifier::rlimit(60)]
proof fn lemma_first_roles(a: u8)
    requires
        0 <= a <= 4,
        a != 12 && a != 13,
    ensures
        device_role_text(a) == squeezed(logical_address_text(a)),
{
    reveal_with_fuel(squeezed, 20);
    if a == 0 {
        reveal_strlit("TV");
        assert(squeezed("TV"@) =~= "TV"@);
    } else if a == 1 {
        reveal_strlit("Recording Device 1");
        reveal_strlit("RecordingDevice1");
        assert(squeezed("Recording Device 1"@) =~= "RecordingDevice1"@);
    } else if a == 2 {
        reveal_strlit("Recording Device 2");
        reveal_strlit("RecordingDevice2");
        assert(squeezed("Recording Device 2"@) =~= "RecordingDevice2"@);
    } else if a == 3 {
        reveal_strlit("Tuner 1");
        reveal_strlit("Tuner1");
        assert(squeezed("Tuner 1"@) =~= "Tuner1"@);
    } else if a == 4 {
        reveal_strlit("Playback Device 1");
        reveal_strlit("PlaybackDevice1");
        assert(squeezed("Playback Device 1"@) =~= "PlaybackDevice1"@);
    }
}

#[verifier::spinoff_prover]
#[verifier::rlimit(60)]
proof fn lemma_middle_roles(a: u8)
    requires
        5 <= a <= 9,
        a != 12 && a != 13,
    ensures
        device_role_text(a) == squeezed(logical_address_text(a)),
{
    reveal_with_fuel(squeezed, 20);
    if a == 5 {
        reveal_strlit("Audio System");
        reveal_strlit("AudioSystem");
        assert(squeezed("Audio System"@) =~= "AudioSystem"@);
    } else if a == 6 {
        reveal_strlit("Tuner 2");
        reveal_strlit("Tuner2");
        assert(squeezed("Tuner 2"@) =~= "Tuner2"@);
    } else if a == 7 {
        reveal_strlit("Tuner 3");
        reveal_strlit("Tuner3");
        assert(squeezed("Tuner 3"@) =~= "Tuner3"@);
    } else if a == 8 {
        reveal_strlit("Playback Device 2");
        reveal_strlit("PlaybackDevice2");
        assert(squeezed("Playback Device 2"@) =~= "PlaybackDevice2"@);
    } else if a == 9 {
        reveal_strlit("Recording Device 3");
        reveal_strlit("RecordingDevice3");
        assert(squeezed("Recording Device 3"@) =~= "RecordingDevice3"@);
    }
}

#[verifier::spinoff_prover]
#[verifier::rlimit(60)]
proof fn lemma_last_roles(a: u8)
    requires
        10 <= a <= 15,
        a != 12 && a != 13,
    ensures
        device_role_text(a) == squeezed(logical_address_text(a)),
{
    reveal_with_fuel(squeezed, 20);
    if a == 10 {
        reveal_strlit("Tuner 4");
        reveal_strlit("Tuner4");
        assert(squeezed("Tuner 4"@) =~= "Tuner4"@);
    } else if a == 11 {
        reveal_strlit("Playback Device 3");
        reveal_strlit("PlaybackDevice3");
        assert(squeezed("Playback Device 3"@) =~= "PlaybackDevice3"@);
    } else if a == 14 {
        reveal_strlit("Free Use");
        reveal_strlit("FreeUse");
        assert(squeezed("Free Use"@) =~= "FreeUse"@);
    } else if a == 15 {
        reveal_strlit("Broadcast");
        assert(squeezed("Broadcast"@) =~= "Broadcast"@);
    }
}

/// The compact role of an address is its display text without the spaces; the two reserved
/// addresses have no role.
pub proof fn law_roles_are_compact_names(a: u8)
    requires
        a <= 15,
        a != 12 && a != 13,
    ensures
        device_role_text(a) == squeezed(logical_address_text(a)),
{
    if a <= 4 {
        lemma_first_roles(a);
    } else if a <= 9 {
        lemma_middle_roles(a);
    } else {
        lemma_last_roles(a);
    }
}

/// A number that tells address names apart.
spec fn label_mark(s: Seq<char>) -> int {
    s.len() * 100000 + s[0] as int * 300 + s.last() as int
}

/// Every address has a name of its own.
pub proof fn law_addresses_have_names_of_their_own(a: u8, b: u8)
    requires
        a <= 15,
        b <= 15,
        logical_address_text(a) == logical_address_text(b),
    ensures
        a == b,
{
    reveal_strlit("TV");
    reveal_strlit("Recording Device 1");
    reveal_strlit("Recording Device 2");
    reveal_strlit("Tuner 1");
    reveal_strlit("Playback Device 1");
    reveal_strlit("Audio System");
    reveal_strlit("Tuner 2");
    reveal_strlit("Tuner 3");
    reveal_strlit("Playback Device 2");
    reveal_strlit("Recording Device 3");
    reveal_strlit("Tuner 4");
    reveal_strlit("Playback Device 3");
    reveal_strlit("Free Use");
    reveal_strlit("Broadcast");
    reveal_strlit("Reserved 1");
    reveal_strlit("Reserved 2");
    assert(label_mark("TV"@) == 225286);
    assert(label_mark("Recording Device 1"@) == 1824649);
    assert(label_mark("Recording Device 2"@) == 1824650);
    assert(label_mark("Tuner 1"@) == 725249);
    assert(label_mark("Playback Device 1"@) == 1724049);
    assert(label_mark("Audio System"@) == 1219609);
    assert(label_mark("Tuner 2"@) == 725250);
    assert(label_mark("Tuner 3"@) == 725251);
    assert(label_mark("Playback Device 2"@) == 1724050);
    assert(label_mark("Recording Device 3"@) == 1824651);
    assert(label_mark("Tuner 4"@) == 725252);
    assert(label_mark("Playback Device 3"@) == 1724051);
    assert(label_mark("Free Use"@) == 821101);
    assert(label_mark("Broadcast"@) == 919916);
    assert(label_mark("Reserved 1"@) == 1024649);
    assert(label_mark("Reserved 2"@) == 1024650);
}

/// The name of a power status on the wire is its display text in lower case with underscores.
pub proof fn law_power_names_agree(s: u8)
    ensures
        power_status_text(s) == underscored(text::lower(power_status_display(s))),
{
    reveal_strlit("On");
    reveal_strlit("Standby");
    reveal_strlit("Transitioning to On");
    reveal_strlit("Transitioning to Standby");
    reveal_strlit("Unknown");
    reveal_strlit("on");
    reveal_strlit("standby");
    reveal_strlit("transitioning_to_on");
    reveal_strlit("transitioning_to_standby");
    reveal_strlit("unknown");
    assert(underscored(text::lower("On"@)) =~= "on"@);
    assert(underscored(text::lower("Standby"@)) =~= "standby"@);
    assert(underscored(text::lower("Transitioning to On"@)) =~= "transitioning_to_on"@);
    assert(underscored(text::lower("Transitioning to Standby"@)) =~= "transitioning_to_standby"@);
    assert(underscored(text::lower("Unknown"@)) =~= "unknown"@);
}

/// The power states of the wire are told apart: on is 0 and standby is 1.
pub proof fn law_power_states_are_told_apart(a: u8, b: u8)
    requires
        a <= 3,
        b <= 3,
        power_status_text(a) == power_status_text(b),
    ensures
        a == b,
        power_status_text(0) == "on"@,
        power_status_text(1) == "standby"@,
{
    reveal_strlit("on");
    reveal_strlit("standby");
    reveal_strlit("transitioning_to_on");
    reveal_strlit("transitioning_to_standby");
    assert("on"@.len() == 2 && "standby"@.len() == 7 && "transitioning_to_on"@.len() == 19
        && "transitioning_to_standby"@.len() == 24);
}

/// The port of a device and the port that the topology shows it behind are the same, where its
/// address begins with one.
pub proof fn law_device_port_is_that_of_the_topology(phys: u16)
    requires
        phys != 0xffff,
        phys >= 0x1000,
    ensures
        port_at(physical_address_text(phys)) == Some(hdmi_port_of(phys)),
        1 <= hdmi_port_of(phys) <= 15,
{
    law_port_of_a_physical_address(phys);
}

/// No port is told of the display itself, nor of a device without valid address.
pub proof fn law_no_port_without_an_address(phys: u16)
    ensures
        hdmi_port_of(0) == 0,
        hdmi_port_of(0xffff) == 0,
        phys < 0x1000 ==> hdmi_port_of(phys) == 0,
{
}

/// The entry of a device tells its fields: the addresses and the vendor read back, and the flags and
/// texts stand as they are.
pub proof fn law_device_entries_read_back(d: DeviceInfo)
    ensures
        ({
            let o = JsonV::Object(device_object(d));
            &&& json::int_field(o, "logical_address"@) == Some(d.logical_address.0 as int)
            &&& json::text_field(o, "physical_address"@) matches Some(t)
                && parsed_physical_address(t) == Ok::<nat, Seq<char>>(d.physical_address as nat)
            &&& json::text_field(o, "osd_name"@) == Some(d.osd_name@)
            &&& json::text_field(o, "address_name"@) == Some(d.address_name@)
            &&& json::text_field(o, "vendor_name"@) == Some(d.vendor_name@)
            &&& json::text_field(o, "menu_language"@) == Some(d.menu_language@)
            &&& json::text_field(o, "vendor_id"@) matches Some(t) && text::hex_run_value(t.skip(2))
                == d.vendor_id
            &&& json::text_field(o, "power_status"@) == Some(
                power_status_display(d.power_status.0),
            )
            &&& json::text_field(o, "cec_version"@) == Some(cec_version_text(d.cec_version.0))
            &&& json::int_field(o, "hdmi_port"@) == Some(d.hdmi_port as int)
            &&& json::bool_field(o, "is_active"@) == Some(d.is_active)
            &&& json::bool_field(o, "is_active_source"@) == Some(d.is_active_source)
            &&& json::bool_field(o, "vendor_known"@) == Some(d.vendor_known)
        }),
{
    reveal_strlit("logical_address");
    reveal_strlit("address_name");
    reveal_strlit("physical_address");
    reveal_strlit("osd_name");
    reveal_strlit("menu_language");
    reveal_strlit("vendor_id");
    reveal_strlit("vendor_name");
    reveal_strlit("vendor_known");
    reveal_strlit("cec_version");
    reveal_strlit("power_status");
    reveal_strlit("hdmi_port");
    reveal_strlit("is_active");
    reveal_strlit("is_active_source");
    assert("logical_address"@.len() == 15);
    assert("address_name"@.len() == 12 && "address_name"@[0] == 'a');
    assert("physical_address"@.len() == 16 && "physical_address"@[0] == 'p');
    assert("osd_name"@.len() == 8);
    assert("menu_language"@.len() == 13);
    assert("vendor_id"@.len() == 9 && "vendor_id"@[0] == 'v');
    assert("vendor_name"@.len() == 11 && "vendor_name"@[0] == 'v');
    assert("vendor_known"@.len() == 12 && "vendor_known"@[0] == 'v');
    assert("cec_version"@.len() == 11 && "cec_version"@[0] == 'c');
    assert("power_status"@.len() == 12 && "power_status"@[0] == 'p');
    assert("hdmi_port"@.len() == 9 && "hdmi_port"@[0] == 'h');
    assert("is_active"@.len() == 9 && "is_active"@[0] == 'i');
    assert("is_active_source"@.len() == 16 && "is_active_source"@[0] == 'i');
    law_physical_address_round_trip(d.physical_address);
    text::lemma_hex_round_trip(d.vendor_id as nat, 6, false);
    reveal_strlit("0x");
    assert(("0x"@ + text::hex(d.vendor_id as nat, 6, false)).skip(2) =~= text::hex(
        d.vendor_id as nat,
        6,
        false,
    ));
}

proof fn lemma_vendor_from(id: u64, i: int)
    requires
        0 <= i <= VENDOR_NAMES@.len(),
    ensures
        match vendor_from(id, i) {
            Some(n) => exists|k: int|
                i <= k < VENDOR_NAMES@.len() && (#[trigger] VENDOR_NAMES@[k]).0 == id
                    && VENDOR_NAMES@[k].1@ == n,
            None => forall|k: int|
                i <= k < VENDOR_NAMES@.len() ==> (#[trigger] VENDOR_NAMES@[k]).0 != id,
        },
    decreases VENDOR_NAMES@.len() - i,
{
    if i < VENDOR_NAMES@.len() {
        if VENDOR_NAMES@[i].0 != id {
            lemma_vendor_from(id, i + 1);
        }
    }
}

/// A vendor goes by a name that the table has for its number; one that the table does not have is
/// told by its number, which reads back.
pub proof fn law_vendors_are_named_by_the_table(id: u64)
    ensures
        match vendor(id) {
            Some(n) => vendor_text(id) == n && exists|k: int|
                0 <= k < VENDOR_NAMES@.len() && (#[trigger] VENDOR_NAMES@[k]).0 == id
                    && VENDOR_NAMES@[k].1@ == n,
            None => (forall|k: int|
                0 <= k < VENDOR_NAMES@.len() ==> (#[trigger] VENDOR_NAMES@[k]).0 != id)
                && text::hex_run_value(
                vendor_text(id).subrange(11, vendor_text(id).len() - 1),
            ) == id,
        },
{
    lemma_vendor_from(id, 0);
    if vendor(id) is None {
        reveal_strlit("Unknown (0x");
        reveal_strlit(")");
        text::lemma_hex_round_trip(id as nat, 6, true);
        assert(vendor_text(id).subrange(11, vendor_text(id).len() - 1) =~= text::hex(
            id as nat,
            6,
            true,
        ));
    }
}

proof fn lemma_opcode_from(op: u8, i: int)
    requires
        0 <= i <= OPCODE_NAMES@.len(),
        forall|k: int| i <= k < OPCODE_NAMES@.len() ==> (#[trigger] OPCODE_NAMES@[k]).0 != op,
    ensures
        opcode_text_from(op, i) == text::hex_byte(op),
    decreases OPCODE_NAMES@.len() - i,
{
    if i < OPCODE_NAMES@.len() {
        lemma_opcode_from(op, i + 1);
    }
}

/// An opcode that the table has no name for is shown by its number, which reads back.
pub proof fn law_other_opcodes_are_shown_by_number(op: u8)
    requires
        forall|k: int| 0 <= k < OPCODE_NAMES@.len() ==> (#[trigger] OPCODE_NAMES@[k]).0 != op,
    ensures
        hex_byte_value(opcode_text(op)) == op,
{
    lemma_opcode_from(op, 0);
    law_hexadecimal_bytes_read_back(op, true);
}

/// A command can be transmitted exactly where both addresses are on the bus and it has no more than
/// 64 parameters.
pub proof fn law_what_can_be_transmitted(cmd: CommandV)
    ensures
        transmit_fault(cmd) is None <==> cmd.initiator <= 15 && cmd.destination <= 15
            && cmd.parameters.len() <= 64,
{
}

proof fn lemma_components_bound(addr: Seq<char>, parts: Seq<Seq<char>>, i: int, acc: nat)
    requires
        parts.len() == 4,
        0 <= i <= 4,
    ensures
        parse_components(addr, parts, i, acc) matches Ok(v) ==> forall|k: int|
            i <= k < 4 ==> (text::parse_nat(#[trigger] parts[k], 65535) matches Some(c) && c <= 15),
    decreases 4 - i,
{
    if i < 4 {
        if let Some(v) = text::parse_nat(parts[i], 65535) {
            lemma_components_bound(addr, parts, i + 1, acc * 16 + v);
        }
    }
}

/// A text is read as a physical address only where it has four components from 0 to 15.
pub proof fn law_physical_addresses_have_four_components(addr: Seq<char>)
    requires
        parsed_physical_address(addr) is Ok,
    ensures
        text::split_on(addr, '.').len() == 4,
        forall|k: int|
            0 <= k < 4 ==> (text::parse_nat(#[trigger] text::split_on(addr, '.')[k], 65535) matches Some(
                c,
            ) && c <= 15),
{
    let parts = text::split_on(addr, '.');
    lemma_components_bound(addr, parts, 0, 0);
}

/// A device name loses its NUL characters and nothing else.
pub proof fn law_names_lose_their_nuls(name: Seq<char>, c: char)
    ensures
        !without_nuls(name).contains('\0'),
        c != '\0' ==> without_nuls(name.push(c)) == without_nuls(name).push(c),
        without_nuls(name.push('\0')) == without_nuls(name),
    decreases name.len(),
{
    reveal(Seq::filter);
    assert(name.push(c).drop_last() =~= name);
    assert(name.push('\0').drop_last() =~= name);
    if name.len() > 0 {
        law_names_lose_their_nuls(name.drop_last(), name.last());
        assert(name.drop_last().push(name.last()) =~= name);
        let rest = without_nuls(name.drop_last());
        if without_nuls(name).contains('\0') {
            let k = without_nuls(name).index_of('\0');
            if k < rest.len() {
                assert(rest[k] == '\0');
            }
        }
    }
}

/// Each alert has a name of its own, and every number that is no alert goes by one other.
pub proof fn law_alerts_are_told_apart(a: i32, b: i32)
    ensures
        1 <= a <= 6 && alert_text(a) == alert_text(b) ==> a == b,
        a < 1 || a > 6 ==> alert_text(a) == "Unknown"@,
        alert_text(2) == "ConnectionLost"@,
        alert_text(3) == "PermissionError"@,
        alert_text(4) == "PortBusy"@,
        alert_text(6) == "TVPollFailed"@,
        alert_text(1) == "ServiceDevice"@,
{
    reveal_strlit("ServiceDevice");
    reveal_strlit("ConnectionLost");
    reveal_strlit("PermissionError");
    reveal_strlit("PortBusy");
    reveal_strlit("PhysicalAddressError");
    reveal_strlit("TVPollFailed");
    reveal_strlit("Unknown");
    assert("ServiceDevice"@.len() == 13);
    assert("ConnectionLost"@.len() == 14);
    assert("PermissionError"@.len() == 15);
    assert("PortBusy"@.len() == 8);
    assert("PhysicalAddressError"@.len() == 20);
    assert("TVPollFailed"@.len() == 12);
    assert("Unknown"@.len() == 7);
}

/// Each level of the log has its name, and any other set of levels goes by one more.
pub proof fn law_log_levels_have_their_names(level: i32)
    ensures
        log_level_text(1) == "ERROR"@,
        log_level_text(2) == "WARNING"@,
        log_level_text(4) == "NOTICE"@,
        log_level_text(8) == "TRAFFIC"@,
        log_level_text(16) == "DEBUG"@,
        !(seq![1i32, 2, 4, 8, 16]).contains(level) ==> log_level_text(level) == "ALL"@,
{
    let levels = seq![1i32, 2, 4, 8, 16];
    assert(levels[0] == 1 && levels[1] == 2 && levels[2] == 4 && levels[3] == 8 && levels[4] == 16);
}

/// The type of a device goes by the name of its kind, and a number of no type is reserved.
pub proof fn law_device_types_are_named(t: u8)
    ensures
        device_type_text(DeviceType::TV) == "TV"@,
        device_type_text(DeviceType::RECORDING) == "Recording Device"@,
        device_type_text(DeviceType::TUNER) == "Tuner"@,
        device_type_text(DeviceType::PLAYBACK) == "Playback Device"@,
        device_type_text(DeviceType::AUDIO_SYSTEM) == "Audio System"@,
        t == 2 || t > 5 ==> device_type_text(t) == "Reserved"@,
{
}

/// The versions of the standard are named in their order, each by a name of its own; any other
/// number is unknown.
pub proof fn law_versions_are_told_apart(v: u8, w: u8)
    ensures
        1 <= v <= 5 && cec_version_text(v) == cec_version_text(w) ==> v == w,
        v == 0 || v > 5 ==> cec_version_text(v) == "Unknown"@,
        cec_version_text(2) == cec_version_text(1).push('a'),
        cec_version_text(4) == cec_version_text(3).push('a'),
        cec_version_text(1) == "1.2"@,
        cec_version_text(3) == "1.3"@,
        cec_version_text(5) == "1.4"@,
{
    reveal_strlit("1.2");
    reveal_strlit("1.2a");
    reveal_strlit("1.3");
    reveal_strlit("1.3a");
    reveal_strlit("1.4");
    reveal_strlit("Unknown");
    assert("1.2"@[2] == '2' && "1.3"@[2] == '3' && "1.4"@[2] == '4');
    assert("1.2a"@[2] == '2' && "1.3a"@[2] == '3');
    assert("Unknown"@.len() == 7);
    assert("1.2a"@ =~= "1.2"@.push('a'));
    assert("1.3a"@ =~= "1.3"@.push('a'));
}

/// A name fits where its UTF-8 has at most thirteen bytes; for a name in ASCII that is its length.
pub proof fn law_names_of_thirteen_characters_fit(name: Seq<char>)
    requires
        vstd::utf8::is_ascii_chars(name),
    ensures
        name_fits(name) <==> name.len() <= 13,
{
    vstd::utf8::is_ascii_chars_encode_utf8(name);
}

/// An error is told with its reason, where it has one.
pub proof fn law_errors_are_told_with_their_reason(e: CecError, m: Seq<char>)
    ensures
        is_failed_call(e, m) ==> cec_error_text(e) == "cec: libcec call failed: "@ + m,
        is_invalid_params(e, m) ==> cec_error_text(e) == "cec: invalid parameters: "@ + m,
        is_failed_call(e, m) ==> !is_invalid_params(e, m),
{
}

} // verus!
