//! What the pages and panels of the UI show.

use crate::busstate::BusStateSnapshot;
use vstd::prelude::*;

verus! {

/// The frame of a page.
#[derive(Debug)]
pub struct PageShell {
    pub title: String,
    pub version: String,
    pub active_nav: &'static str,
}

/// The status banner above everything: how the adapter and the session are.
#[derive(Debug)]
pub struct BusBannerData {
    pub cec_ready: bool,
    pub scan_in_progress: bool,
    pub stale: bool,
    pub monitoring: bool,
    pub last_full_scan: String,
    pub active_source: i32,
    pub device_count: usize,
}

/// What a [`BusBannerData`] holds.
pub struct BusBannerV {
    pub cec_ready: bool,
    pub scan_in_progress: bool,
    pub stale: bool,
    pub monitoring: bool,
    pub last_full_scan: Seq<char>,
    pub active_source: int,
    pub device_count: nat,
}

impl View for BusBannerData {
    type V = BusBannerV;

    open spec fn view(&self) -> BusBannerV {
        BusBannerV {
            cec_ready: self.cec_ready,
            scan_in_progress: self.scan_in_progress,
            stale: self.stale,
            monitoring: self.monitoring,
            last_full_scan: self.last_full_scan@,
            active_source: self.active_source as int,
            device_count: self.device_count as nat,
        }
    }
}

impl BusBannerData {
    /// The banner of a snapshot. `scanned_at` is the time of the last full scan in local time,
    /// where there was one.
    pub fn from_snapshot(s: &BusStateSnapshot, scanned_at: Option<&str>) -> (r: BusBannerData)
        ensures
            r@ == (BusBannerV {
                cec_ready: s.cec_ready,
                scan_in_progress: s.scan_in_progress,
                stale: s.stale,
                monitoring: s.monitoring,
                last_full_scan: match scanned_at {
                    Some(t) => t@,
                    None => "never"@,
                },
                active_source: s.active_source as int,
                device_count: s.devices@.len(),
            }),
    {
        BusBannerData {
            cec_ready: s.cec_ready,
            scan_in_progress: s.scan_in_progress,
            stale: s.stale,
            monitoring: s.monitoring,
            last_full_scan: match scanned_at {
                Some(t) => t.to_owned(),
                None => "never".to_owned(),
            },
            active_source: s.active_source,
            device_count: s.devices.len(),
        }
    }
}

/// One device in a list.
#[derive(Debug)]
pub struct DeviceRow {
    pub logical_address: i32,
    pub display_name: String,
    pub address_name: String,
    pub role: String,
    pub physical_address: String,
    pub hdmi_port: i64,
    pub vendor_name: String,
    pub vendor_id: String,
    pub cec_version: String,
    pub power_status: String,
    pub power_observed_at: String,
    pub discovery: String,
    pub is_own: bool,
    pub is_active_source: bool,
    pub is_audio_system: bool,
    pub is_ghost: bool,
    pub first_seen: String,
    pub last_seen: String,
}

/// What a [`DeviceRow`] holds.
pub struct DeviceRowV {
    pub logical_address: i32,
    pub display_name: Seq<char>,
    pub address_name: Seq<char>,
    pub role: Seq<char>,
    pub physical_address: Seq<char>,
    pub hdmi_port: int,
    pub vendor_name: Seq<char>,
    pub vendor_id: Seq<char>,
    pub cec_version: Seq<char>,
    pub power_status: Seq<char>,
    pub power_observed_at: Seq<char>,
    pub discovery: Seq<char>,
    pub is_own: bool,
    pub is_active_source: bool,
    pub is_audio_system: bool,
    pub is_ghost: bool,
    pub first_seen: Seq<char>,
    pub last_seen: Seq<char>,
}

impl View for DeviceRow {
    type V = DeviceRowV;

    open spec fn view(&self) -> DeviceRowV {
        DeviceRowV {
            logical_address: self.logical_address,
            display_name: self.display_name@,
            address_name: self.address_name@,
            role: self.role@,
            physical_address: self.physical_address@,
            hdmi_port: self.hdmi_port as int,
            vendor_name: self.vendor_name@,
            vendor_id: self.vendor_id@,
            cec_version: self.cec_version@,
            power_status: self.power_status@,
            power_observed_at: self.power_observed_at@,
            discovery: self.discovery@,
            is_own: self.is_own,
            is_active_source: self.is_active_source,
            is_audio_system: self.is_audio_system,
            is_ghost: self.is_ghost,
            first_seen: self.first_seen@,
            last_seen: self.last_seen@,
        }
    }
}

/// What a list of device rows holds.
pub open spec fn row_views(v: Seq<DeviceRow>) -> Seq<DeviceRowV> {
    v.map_values(|d: DeviceRow| d@)
}

/// The device list.
#[derive(Debug)]
pub struct DevicesPanelData {
    pub devices: Vec<DeviceRow>,
    pub message: String,
}

/// The button of an HDMI port.
#[derive(Debug, Clone, Copy, PartialEq, Eq, Structural)]
pub struct HdmiPortButton {
    pub port: i64,
    pub selected: bool,
}

/// A device that keys can be sent to.
#[derive(Debug)]
pub struct NavTarget {
    pub la: i32,
    pub label: String,
    pub selected: bool,
}

/// What a [`NavTarget`] holds.
pub struct NavTargetV {
    pub la: i32,
    pub label: Seq<char>,
    pub selected: bool,
}

impl View for NavTarget {
    type V = NavTargetV;

    open spec fn view(&self) -> NavTargetV {
        NavTargetV { la: self.la, label: self.label@, selected: self.selected }
    }
}

/// What a list of targets holds.
pub open spec fn target_views(v: Seq<NavTarget>) -> Seq<NavTargetV> {
    v.map_values(|t: NavTarget| t@)
}

/// The remote control.
#[derive(Debug)]
pub struct RemoteData {
    pub banner: BusBannerData,
    pub devices: Vec<DeviceRow>,
    pub hdmi_ports: Vec<HdmiPortButton>,
    pub nav_targets: Vec<NavTarget>,
    pub audio_display_volume: i32,
    pub audio_muted: bool,
    pub audio_available: bool,
}

/// The MQTT settings.
#[derive(Debug)]
pub struct MqttPanelData {
    pub broker: String,
    pub user: String,
    pub prefix: String,
    pub pass_set: bool,
    pub connected: bool,
}

/// The health panel.
#[derive(Debug)]
pub struct HealthData {
    pub version: String,
    pub uptime: String,
    pub cec_ready: bool,
    pub lib_info: String,
    pub subscribers: usize,
    pub events_dropped: u64,
    pub frames_captured: u64,
}

/// One log line.
#[derive(Debug)]
pub struct LogLine {
    pub timestamp: String,
    pub level: String,
    pub message: String,
}

/// The log panel.
#[derive(Debug)]
pub struct LogsData {
    pub lines: Vec<LogLine>,
}

/// One port of the topology.
#[derive(Debug)]
pub struct TopologyPortRow {
    pub port: i64,
    pub devices: Vec<String>,
}

/// The topology.
#[derive(Debug)]
pub struct TopologyData {
    pub own_addresses: Vec<i32>,
    pub known_port_count: i64,
    pub ports: Vec<TopologyPortRow>,
}

/// The mode of the adapter.
#[derive(Debug, Clone, Copy, PartialEq, Eq, Structural)]
pub struct DevModeData {
    pub monitor_only: bool,
}

/// One step of a probe.
#[derive(Debug)]
pub struct DevProbeStep {
    pub name: String,
    pub opcode: String,
    pub result: String,
    pub error: String,
    pub elapsed_ms: i64,
    pub replies: Vec<String>,
}

/// The result of a probe.
#[derive(Debug)]
pub struct DevProbeResult {
    pub address: i32,
    pub kind: String,
    pub total_replies: usize,
    pub steps: Vec<DevProbeStep>,
}

/// The result of a strategy.
#[derive(Debug)]
pub struct DevStrategyResult {
    pub strategy: String,
    pub status: String,
    pub acked: bool,
    pub reply_name: String,
    pub abort_opcode: i32,
    pub elapsed_ms: i64,
    pub error: String,
}

/// The result of an action of the dev console.
#[derive(Debug)]
pub struct DevActionResult {
    pub ok: bool,
    pub title: String,
    pub detail: String,
    pub strategies: Vec<DevStrategyResult>,
    pub raw_json: String,
}

/// One frame of the trace.
#[derive(Debug)]
pub struct FrameRow {
    pub time: String,
    pub initiator: i32,
    pub destination: i32,
    pub opcode: String,
    pub ack: bool,
    pub params: String,
}

/// What a [`FrameRow`] holds.
pub struct FrameRowV {
    pub time: Seq<char>,
    pub initiator: int,
    pub destination: int,
    pub opcode: Seq<char>,
    pub ack: bool,
    pub params: Seq<char>,
}

impl View for FrameRow {
    type V = FrameRowV;

    open spec fn view(&self) -> FrameRowV {
        FrameRowV {
            time: self.time@,
            initiator: self.initiator as int,
            destination: self.destination as int,
            opcode: self.opcode@,
            ack: self.ack,
            params: self.params@,
        }
    }
}

/// The trace of frames.
#[derive(Debug)]
pub struct DevTraceData {
    pub frames: Vec<FrameRow>,
}

/// One line of the activity feed.
#[derive(Debug)]
pub struct EventFeedEntry {
    pub time: String,
    pub kind: String,
    pub summary: String,
}

} // verus!
