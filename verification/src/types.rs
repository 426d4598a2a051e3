//! Shared domain types: wire events, the JSON envelope, and the persisted configuration.

use crate::json;
use crate::json::JsonV;
use crate::text;
use crate::time::{Duration, Timestamp, NANOS_PER_SEC};
use vstd::prelude::*;

verus! {

// ---------------------------------------------------------------------------
// Events and envelopes
// ---------------------------------------------------------------------------

/// Event type of a power change.
pub const POWER_CHANGE: &'static str = "power_change";

/// Event type of a change of the active source.
pub const SOURCE_ACTIVATED: &'static str = "source_activated";

/// Event type of a key press.
pub const KEY_PRESS: &'static str = "key_press";

/// Event type of a frame seen on the bus.
pub const COMMAND: &'static str = "command";

/// Event type of an adapter alert.
pub const ALERT: &'static str = "alert";

/// Event type of a bus rescan.
pub const DEVICES_CHANGED: &'static str = "devices_changed";

/// Event type of a configuration change.
pub const CONFIGURATION_CHANGED: &'static str = "configuration_changed";

/// Event type of an adapter session going up or down.
pub const ADAPTER_STATE: &'static str = "adapter_state";

/// One event: `{"type":"...","timestamp":"...","data":{...}}` on the wire.
#[derive(Debug)]
pub struct AppEvent {
    pub kind: String,
    pub timestamp: Timestamp,
    pub data: serde_json::Value,
}

/// What an [`AppEvent`] holds.
pub struct AppEventV {
    pub kind: Seq<char>,
    pub timestamp: Timestamp,
    pub data: JsonV,
}

impl View for AppEvent {
    type V = AppEventV;

    open spec fn view(&self) -> AppEventV {
        AppEventV { kind: self.kind@, timestamp: self.timestamp, data: json::json(self.data) }
    }
}

impl AppEvent {
    /// An event that happens now.
    pub fn new(kind: &str, data: serde_json::Value, now: Timestamp) -> (r: AppEvent)
        ensures
            r@ == (AppEventV { kind: kind@, timestamp: now, data: json::json(data) }),
    {
        AppEvent { kind: kind.to_owned(), timestamp: now, data }
    }
}

/// The JSON envelope of every API answer: `{"status":"success"|"error","message":"...","data":...}`,
/// with an empty message and absent data left out. Asynchronous acceptance is a success with an
/// explicit `accepted: true` field inside `data`.
#[derive(Debug)]
pub struct Envelope {
    pub status: &'static str,
    pub message: String,
    pub data: Option<serde_json::Value>,
}

/// What an [`Envelope`] holds.
pub struct EnvelopeV {
    pub status: Seq<char>,
    pub message: Seq<char>,
    pub data: Option<JsonV>,
}

impl View for Envelope {
    type V = EnvelopeV;

    open spec fn view(&self) -> EnvelopeV {
        EnvelopeV {
            status: self.status@,
            message: self.message@,
            data: match self.data {
                Some(d) => Some(json::json(d)),
                None => None,
            },
        }
    }
}

/// The envelope of a success.
pub open spec fn success_envelope(message: Seq<char>, data: Option<JsonV>) -> EnvelopeV {
    EnvelopeV { status: "success"@, message, data }
}

/// The envelope of an error.
pub open spec fn error_envelope(message: Seq<char>) -> EnvelopeV {
    EnvelopeV { status: "error"@, message, data: None }
}

impl Envelope {
    pub fn success(message: &str, data: Option<serde_json::Value>) -> (r: Envelope)
        ensures
            r@ == success_envelope(
                message@,
                match data {
                    Some(d) => Some(json::json(d)),
                    None => None,
                },
            ),
    {
        Envelope { status: "success", message: message.to_owned(), data }
    }

    pub fn error(message: &str) -> (r: Envelope)
        ensures
            r@ == error_envelope(message@),
    {
        Envelope { status: "error", message: message.to_owned(), data: None }
    }
}

// ---------------------------------------------------------------------------
// Frames
// ---------------------------------------------------------------------------

/// One captured CEC frame.
#[derive(Debug)]
pub struct BusFrameEntry {
    pub timestamp: Timestamp,
    pub initiator: i32,
    pub destination: i32,
    /// Lowercase hexadecimal opcode with 0x prefix, e.g. "0x9e".
    pub opcode: String,
    pub ack: bool,
    pub eom: bool,
    pub opcode_set: bool,
    pub params_hex: Vec<String>,
}

/// What a [`BusFrameEntry`] holds.
pub struct FrameV {
    pub timestamp: Timestamp,
    pub initiator: int,
    pub destination: int,
    pub opcode: Seq<char>,
    pub ack: bool,
    pub eom: bool,
    pub opcode_set: bool,
    pub params_hex: Seq<Seq<char>>,
}

impl View for BusFrameEntry {
    type V = FrameV;

    open spec fn view(&self) -> FrameV {
        FrameV {
            timestamp: self.timestamp,
            initiator: self.initiator as int,
            destination: self.destination as int,
            opcode: self.opcode@,
            ack: self.ack,
            eom: self.eom,
            opcode_set: self.opcode_set,
            params_hex: text::views(self.params_hex@),
        }
    }
}

/// What a list of frames holds.
pub open spec fn frame_views(v: Seq<BusFrameEntry>) -> Seq<FrameV> {
    v.map_values(|f: BusFrameEntry| f@)
}

/// A copy of a list of strings.
pub fn copy_strings(v: &Vec<String>) -> (r: Vec<String>)
    ensures
        text::views(r@) == text::views(v@),
{
    let mut out: Vec<String> = Vec::new();
    let mut i: usize = 0;
    while i < v.len()
        invariant
            i <= v@.len(),
            text::views(out@) == text::views(v@).take(i as int),
        decreases v@.len() - i,
    {
        let ghost before = out@;
        out.push(v[i].clone());
        i += 1;
        assert(text::views(out@) =~= text::views(before).push(v@[i - 1]@));
        assert(text::views(out@) =~= text::views(v@).take(i as int));
    }
    assert(text::views(v@).take(i as int) =~= text::views(v@));
    out
}

impl Clone for BusFrameEntry {
    fn clone(&self) -> (r: BusFrameEntry)
        ensures
            r@ == self@,
    {
        BusFrameEntry {
            timestamp: self.timestamp,
            initiator: self.initiator,
            destination: self.destination,
            opcode: self.opcode.clone(),
            ack: self.ack,
            eom: self.eom,
            opcode_set: self.opcode_set,
            params_hex: copy_strings(&self.params_hex),
        }
    }
}

// ---------------------------------------------------------------------------
// Configuration
// ---------------------------------------------------------------------------

/// Per-vendor probe tweaks.
#[derive(Debug, Clone, Default)]
pub struct VendorProfile {
    pub skip_probes: Vec<String>,
    pub settle_ms: i64,
}

/// The MQTT bridge settings.
#[derive(Debug)]
pub struct MqttConfig {
    pub broker: String,
    pub user: String,
    pub pass: String,
    pub prefix: String,
}

/// What an [`MqttConfig`] holds.
pub struct MqttConfigV {
    pub broker: Seq<char>,
    pub user: Seq<char>,
    pub pass: Seq<char>,
    pub prefix: Seq<char>,
}

impl View for MqttConfig {
    type V = MqttConfigV;

    open spec fn view(&self) -> MqttConfigV {
        MqttConfigV {
            broker: self.broker@,
            user: self.user@,
            pass: self.pass@,
            prefix: self.prefix@,
        }
    }
}

/// The MQTT settings of a fresh installation: no broker, topics under `capi`.
pub open spec fn default_mqtt() -> MqttConfigV {
    MqttConfigV { broker: Seq::empty(), user: Seq::empty(), pass: Seq::empty(), prefix: "capi"@ }
}

impl Default for MqttConfig {
    fn default() -> (r: MqttConfig)
        ensures
            r@ == default_mqtt(),
    {
        MqttConfig {
            broker: String::new(),
            user: String::new(),
            pass: String::new(),
            prefix: "capi".to_owned(),
        }
    }
}

impl Clone for MqttConfig {
    fn clone(&self) -> (r: MqttConfig)
        ensures
            r@ == self@,
    {
        MqttConfig {
            broker: self.broker.clone(),
            user: self.user.clone(),
            pass: self.pass.clone(),
            prefix: self.prefix.clone(),
        }
    }
}

/// A strategy that was saved for one action on devices of one vendor.
#[derive(Debug)]
pub struct StrategyOverride {
    pub vendor: String,
    pub action: String,
    pub strategy: String,
}

/// What a [`StrategyOverride`] holds.
pub struct StrategyOverrideV {
    pub vendor: Seq<char>,
    pub action: Seq<char>,
    pub strategy: Seq<char>,
}

impl View for StrategyOverride {
    type V = StrategyOverrideV;

    open spec fn view(&self) -> StrategyOverrideV {
        StrategyOverrideV {
            vendor: self.vendor@,
            action: self.action@,
            strategy: self.strategy@,
        }
    }
}

/// What a list of strategy overrides holds.
pub open spec fn override_views(v: Seq<StrategyOverride>) -> Seq<StrategyOverrideV> {
    v.map_values(|o: StrategyOverride| o@)
}

/// Bus-disruption knobs applied to every session open.
#[derive(Debug)]
pub struct CecConfig {
    pub monitor_only: bool,
    pub activate_source: bool,
    pub wake_on_connect: Vec<i32>,
    pub power_off_on_disconnect: Vec<i32>,
    pub strategy_overrides: Vec<StrategyOverride>,
}

/// What a [`CecConfig`] holds.
pub struct CecConfigV {
    pub monitor_only: bool,
    pub activate_source: bool,
    pub wake_on_connect: Seq<i32>,
    pub power_off_on_disconnect: Seq<i32>,
    pub strategy_overrides: Seq<StrategyOverrideV>,
}

impl View for CecConfig {
    type V = CecConfigV;

    open spec fn view(&self) -> CecConfigV {
        CecConfigV {
            monitor_only: self.monitor_only,
            activate_source: self.activate_source,
            wake_on_connect: self.wake_on_connect@,
            power_off_on_disconnect: self.power_off_on_disconnect@,
            strategy_overrides: override_views(self.strategy_overrides@),
        }
    }
}

/// The bus settings of a fresh installation.
pub open spec fn default_cec() -> CecConfigV {
    CecConfigV {
        monitor_only: false,
        activate_source: false,
        wake_on_connect: Seq::empty(),
        power_off_on_disconnect: Seq::empty(),
        strategy_overrides: Seq::empty(),
    }
}

impl Default for CecConfig {
    fn default() -> (r: CecConfig)
        ensures
            r@ == default_cec(),
    {
        let r = CecConfig {
            monitor_only: false,
            activate_source: false,
            wake_on_connect: Vec::new(),
            power_off_on_disconnect: Vec::new(),
            strategy_overrides: Vec::new(),
        };
        assert(override_views(r.strategy_overrides@) =~= Seq::empty());
        r
    }
}

fn copy_i32s(v: &Vec<i32>) -> (r: Vec<i32>)
    ensures
        r@ == v@,
{
    let mut out: Vec<i32> = Vec::new();
    let mut i: usize = 0;
    while i < v.len()
        invariant
            i <= v@.len(),
            out@ == v@.take(i as int),
        decreases v@.len() - i,
    {
        out.push(v[i]);
        i += 1;
        assert(out@ =~= v@.take(i as int));
    }
    assert(v@.take(i as int) =~= v@);
    out
}

fn copy_overrides(v: &Vec<StrategyOverride>) -> (r: Vec<StrategyOverride>)
    ensures
        override_views(r@) == override_views(v@),
{
    let mut out: Vec<StrategyOverride> = Vec::new();
    let mut i: usize = 0;
    while i < v.len()
        invariant
            i <= v@.len(),
            override_views(out@) == override_views(v@).take(i as int),
        decreases v@.len() - i,
    {
        let ghost before = out@;
        out.push(
            StrategyOverride {
                vendor: v[i].vendor.clone(),
                action: v[i].action.clone(),
                strategy: v[i].strategy.clone(),
            },
        );
        i += 1;
        assert(override_views(out@) =~= override_views(before).push(v@[i - 1]@));
        assert(override_views(out@) =~= override_views(v@).take(i as int));
    }
    assert(override_views(v@).take(i as int) =~= override_views(v@));
    out
}

impl Clone for CecConfig {
    fn clone(&self) -> (r: CecConfig)
        ensures
            r@ == self@,
    {
        CecConfig {
            monitor_only: self.monitor_only,
            activate_source: self.activate_source,
            wake_on_connect: copy_i32s(&self.wake_on_connect),
            power_off_on_disconnect: copy_i32s(&self.power_off_on_disconnect),
            strategy_overrides: copy_overrides(&self.strategy_overrides),
        }
    }
}

/// A vendor and the probe tweaks for it. The vendor is a lowercase 0x-prefixed vendor ID.
#[derive(Debug)]
pub struct VendorEntry {
    pub vendor: String,
    pub profile: VendorProfile,
}

/// What a [`VendorEntry`] holds.
pub struct VendorEntryV {
    pub vendor: Seq<char>,
    pub skip_probes: Seq<Seq<char>>,
    pub settle_ms: int,
}

impl View for VendorEntry {
    type V = VendorEntryV;

    open spec fn view(&self) -> VendorEntryV {
        VendorEntryV {
            vendor: self.vendor@,
            skip_probes: text::views(self.profile.skip_probes@),
            settle_ms: self.profile.settle_ms as int,
        }
    }
}

/// What a list of vendor profiles holds.
pub open spec fn vendor_views(v: Seq<VendorEntry>) -> Seq<VendorEntryV> {
    v.map_values(|e: VendorEntry| e@)
}

/// Timing of the bus steward and sizes of its caches.
#[derive(Debug)]
pub struct BusConfig {
    pub reconcile_interval_sec: i64,
    pub deep_settle_ms: i64,
    pub rescan_extra_settle_ms: i64,
    pub stale_threshold_sec: i64,
    pub stale_device_ttl_sec: i64,
    pub frame_ring_size: i64,
    /// `None` follows the command line only; `Some(v)` overrides it.
    pub monitor: Option<bool>,
    pub vendor_profiles: Vec<VendorEntry>,
}

/// What a [`BusConfig`] holds.
pub struct BusConfigV {
    pub reconcile_interval_sec: int,
    pub deep_settle_ms: int,
    pub rescan_extra_settle_ms: int,
    pub stale_threshold_sec: int,
    pub stale_device_ttl_sec: int,
    pub frame_ring_size: int,
    pub monitor: Option<bool>,
    pub vendor_profiles: Seq<VendorEntryV>,
}

impl View for BusConfig {
    type V = BusConfigV;

    open spec fn view(&self) -> BusConfigV {
        BusConfigV {
            reconcile_interval_sec: self.reconcile_interval_sec as int,
            deep_settle_ms: self.deep_settle_ms as int,
            rescan_extra_settle_ms: self.rescan_extra_settle_ms as int,
            stale_threshold_sec: self.stale_threshold_sec as int,
            stale_device_ttl_sec: self.stale_device_ttl_sec as int,
            frame_ring_size: self.frame_ring_size as int,
            monitor: self.monitor,
            vendor_profiles: vendor_views(self.vendor_profiles@),
        }
    }
}

/// The bus timing of a fresh installation: every value unset.
pub open spec fn default_bus() -> BusConfigV {
    BusConfigV {
        reconcile_interval_sec: 0,
        deep_settle_ms: 0,
        rescan_extra_settle_ms: 0,
        stale_threshold_sec: 0,
        stale_device_ttl_sec: 0,
        frame_ring_size: 0,
        monitor: None,
        vendor_profiles: Seq::empty(),
    }
}

impl Default for BusConfig {
    fn default() -> (r: BusConfig)
        ensures
            r@ == default_bus(),
    {
        let r = BusConfig {
            reconcile_interval_sec: 0,
            deep_settle_ms: 0,
            rescan_extra_settle_ms: 0,
            stale_threshold_sec: 0,
            stale_device_ttl_sec: 0,
            frame_ring_size: 0,
            monitor: None,
            vendor_profiles: Vec::new(),
        };
        assert(vendor_views(r.vendor_profiles@) =~= Seq::empty());
        r
    }
}

fn copy_vendors(v: &Vec<VendorEntry>) -> (r: Vec<VendorEntry>)
    ensures
        vendor_views(r@) == vendor_views(v@),
{
    let mut out: Vec<VendorEntry> = Vec::new();
    let mut i: usize = 0;
    while i < v.len()
        invariant
            i <= v@.len(),
            vendor_views(out@) == vendor_views(v@).take(i as int),
        decreases v@.len() - i,
    {
        let ghost before = out@;
        let e = VendorEntry {
            vendor: v[i].vendor.clone(),
            profile: VendorProfile {
                skip_probes: copy_strings(&v[i].profile.skip_probes),
                settle_ms: v[i].profile.settle_ms,
            },
        };
        assert(e@ == v@[i as int]@);
        out.push(e);
        i += 1;
        assert(vendor_views(out@) =~= vendor_views(before).push(v@[i - 1]@));
        assert(vendor_views(out@) =~= vendor_views(v@).take(i as int));
    }
    assert(vendor_views(v@).take(i as int) =~= vendor_views(v@));
    out
}

impl Clone for BusConfig {
    fn clone(&self) -> (r: BusConfig)
        ensures
            r@ == self@,
    {
        BusConfig {
            reconcile_interval_sec: self.reconcile_interval_sec,
            deep_settle_ms: self.deep_settle_ms,
            rescan_extra_settle_ms: self.rescan_extra_settle_ms,
            stale_threshold_sec: self.stale_threshold_sec,
            stale_device_ttl_sec: self.stale_device_ttl_sec,
            frame_ring_size: self.frame_ring_size,
            monitor: self.monitor,
            vendor_profiles: copy_vendors(&self.vendor_profiles),
        }
    }
}

impl BusConfig {
    /// Time between two full reconciles; 60 seconds where unset.
    pub fn reconcile_interval(&self) -> (r: Duration)
        requires
            self.reconcile_interval_sec <= i64::MAX / 1000,
        ensures
            r.wf(),
            r@ == NANOS_PER_SEC * if self.reconcile_interval_sec <= 0 {
                60
            } else {
                self.reconcile_interval_sec as int
            },
    {
        self.reconcile_interval_std()
    }

    /// Time between two full reconciles; 60 seconds where unset.
    pub fn reconcile_interval_std(&self) -> (r: Duration)
        ensures
            r.wf(),
            r@ == NANOS_PER_SEC * if self.reconcile_interval_sec <= 0 {
                60
            } else {
                self.reconcile_interval_sec as int
            },
    {
        if self.reconcile_interval_sec <= 0 {
            Duration::from_secs(60)
        } else {
            Duration::from_secs(self.reconcile_interval_sec as u64)
        }
    }

    /// Settle time of a deep rescan; 2.5 seconds where unset.
    pub fn deep_settle(&self) -> (r: Duration)
        ensures
            r.wf(),
            r@ == 1_000_000 * if self.deep_settle_ms <= 0 {
                2500
            } else {
                self.deep_settle_ms as int
            },
            r.secs <= i64::MAX / 1000,
    {
        if self.deep_settle_ms <= 0 {
            Duration::from_millis(2500)
        } else {
            Duration::from_millis(self.deep_settle_ms as u64)
        }
    }

    /// Settle time added to every rescan; none where unset or negative.
    pub fn rescan_extra_settle(&self) -> (r: Duration)
        ensures
            r.wf(),
            r@ == 1_000_000 * if self.rescan_extra_settle_ms < 0 {
                0
            } else {
                self.rescan_extra_settle_ms as int
            },
            r.secs <= i64::MAX / 1000,
    {
        if self.rescan_extra_settle_ms < 0 {
            Duration::zero()
        } else {
            Duration::from_millis(self.rescan_extra_settle_ms as u64)
        }
    }

    /// Age at which a snapshot is stale; 180 seconds where unset.
    pub fn stale_threshold(&self) -> (r: Duration)
        ensures
            r.wf(),
            r@ == NANOS_PER_SEC * if self.stale_threshold_sec <= 0 {
                180
            } else {
                self.stale_threshold_sec as int
            },
    {
        if self.stale_threshold_sec <= 0 {
            Duration::from_secs(180)
        } else {
            Duration::from_secs(self.stale_threshold_sec as u64)
        }
    }

    /// 0 (unset) stands for 256; a negative value disables the ring entirely.
    pub fn frame_ring_size(&self) -> (r: usize)
        ensures
            r == (if self.frame_ring_size < 0 {
                0
            } else if self.frame_ring_size == 0 {
                256
            } else {
                self.frame_ring_size as usize
            }),
    {
        if self.frame_ring_size < 0 {
            0
        } else if self.frame_ring_size == 0 {
            256
        } else {
            #[verifier::truncate]
            (self.frame_ring_size as usize)
        }
    }

    /// Time after which an observed device is forgotten: 0 (unset) stands for ten minutes, and a
    /// negative value disables forgetting.
    pub fn stale_device_ttl(&self) -> (r: Duration)
        ensures
            r.wf(),
            r@ == NANOS_PER_SEC * if self.stale_device_ttl_sec < 0 {
                0
            } else if self.stale_device_ttl_sec == 0 {
                600
            } else {
                self.stale_device_ttl_sec as int
            },
    {
        if self.stale_device_ttl_sec < 0 {
            Duration::zero()
        } else if self.stale_device_ttl_sec == 0 {
            Duration::from_secs(600)
        } else {
            Duration::from_secs(self.stale_device_ttl_sec as u64)
        }
    }
}

/// The persisted configuration.
#[derive(Debug)]
pub struct Config {
    pub mqtt: MqttConfig,
    pub bus: BusConfig,
    pub cec: CecConfig,
    /// Bearer token that protects the API and the UI actions. When empty the API is open on the
    /// LAN.
    pub auth_token: String,
}

/// What a [`Config`] holds.
pub struct ConfigV {
    pub mqtt: MqttConfigV,
    pub bus: BusConfigV,
    pub cec: CecConfigV,
    pub auth_token: Seq<char>,
}

impl View for Config {
    type V = ConfigV;

    open spec fn view(&self) -> ConfigV {
        ConfigV {
            mqtt: self.mqtt@,
            bus: self.bus@,
            cec: self.cec@,
            auth_token: self.auth_token@,
        }
    }
}

/// The configuration of a fresh installation.
pub open spec fn default_config() -> ConfigV {
    ConfigV {
        mqtt: default_mqtt(),
        bus: default_bus(),
        cec: default_cec(),
        auth_token: Seq::empty(),
    }
}

impl Default for Config {
    fn default() -> (r: Config)
        ensures
            r@ == default_config(),
    {
        Config {
            mqtt: MqttConfig::default(),
            bus: BusConfig::default(),
            cec: CecConfig::default(),
            auth_token: String::new(),
        }
    }
}

impl Clone for Config {
    fn clone(&self) -> (r: Config)
        ensures
            r@ == self@,
    {
        Config {
            mqtt: self.mqtt.clone(),
            bus: self.bus.clone(),
            cec: self.cec.clone(),
            auth_token: self.auth_token.clone(),
        }
    }
}

/// A fresh installation has no broker and no token, transmits, leaves the active source alone,
/// wakes and puts to sleep nothing, and has no override.
pub proof fn law_fresh_installations_are_passive()
    ensures
        default_config().mqtt.broker.len() == 0,
        default_config().mqtt.user.len() == 0,
        default_config().mqtt.pass.len() == 0,
        default_config().mqtt.prefix == "capi"@,
        default_config().auth_token.len() == 0,
        !default_config().cec.monitor_only,
        !default_config().cec.activate_source,
        default_config().cec.wake_on_connect.len() == 0,
        default_config().cec.power_off_on_disconnect.len() == 0,
        default_config().cec.strategy_overrides.len() == 0,
        default_config().bus.vendor_profiles.len() == 0,
        default_config().bus.monitor is None,
        default_config().bus.reconcile_interval_sec == 0,
        default_config().bus.deep_settle_ms == 0,
        default_config().bus.rescan_extra_settle_ms == 0,
        default_config().bus.stale_threshold_sec == 0,
        default_config().bus.stale_device_ttl_sec == 0,
        default_config().bus.frame_ring_size == 0,
{
}

} // verus!
