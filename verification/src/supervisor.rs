//! CEC session supervisor: the lifecycle of the session, from opening libcec over finding and
//! opening an adapter to tearing down, with backoff after failures.

use crate::adapter::WaitReason;
use crate::busstate::{BusState, BusV};
use crate::cec::types::{cec_error_text, Adapter, CecError, Configuration, DeviceType, LogicalAddress};
use crate::json;
use crate::json::JsonV;
use crate::text;
use crate::time::Timestamp;
use crate::types::{AppEvent, AppEventV, CecConfigV, Config, ConfigV, ADAPTER_STATE};
use vstd::prelude::*;

verus! {

/// The first wait after a failure, in seconds.
pub const MIN_BACKOFF_SECS: u64 = 3;

/// The longest wait after a failure, in seconds.
pub const MAX_BACKOFF_SECS: u64 = 60;

/// The wait before a session is reopened on request, in seconds.
pub const RECONNECT_PAUSE_SECS: u64 = 1;

/// The wait after the next failure: twice as long, up to a minute.
pub fn next_backoff(cur: u64) -> (r: u64)
    ensures
        r == backed_off(cur),
{
    if cur < MAX_BACKOFF_SECS && cur * 2 < MAX_BACKOFF_SECS {
        cur * 2
    } else {
        MAX_BACKOFF_SECS
    }
}

/// The addresses of a list that are real device addresses, as bytes.
pub open spec fn device_addresses(v: Seq<i32>) -> Seq<u8>
    decreases v.len(),
{
    if v.len() == 0 {
        Seq::empty()
    } else if 0 <= v.last() <= 14 {
        device_addresses(v.drop_last()).push(v.last() as u8)
    } else {
        device_addresses(v.drop_last())
    }
}

/// Keeps the addresses from 0 to 14.
pub fn clamp_addrs(v: &Vec<i32>) -> (r: Vec<u8>)
    ensures
        r@ == device_addresses(v@),
{
    let mut out: Vec<u8> = Vec::new();
    let mut i: usize = 0;
    assert(v@.take(0) =~= Seq::empty());
    while i < v.len()
        invariant
            i <= v@.len(),
            out@ == device_addresses(v@.take(i as int)),
        decreases v@.len() - i,
    {
        proof {
            assert(v@.take(i as int + 1).drop_last() =~= v@.take(i as int));
        }
        if v[i] >= 0 && v[i] <= 14 {
            out.push(v[i] as u8);
        }
        i += 1;
    }
    assert(v@.take(i as int) =~= v@);
    out
}

/// Every address that is kept is a device address of the list.
pub proof fn law_clamped_addresses_are_valid(v: Seq<i32>, i: int)
    requires
        0 <= i < device_addresses(v).len(),
    ensures
        device_addresses(v)[i] <= 14,
        v.contains(device_addresses(v)[i] as i32),
    decreases v.len(),
{
    let rest = device_addresses(v.drop_last());
    if i < rest.len() {
        law_clamped_addresses_are_valid(v.drop_last(), i);
        let k = v.drop_last().index_of(rest[i] as i32);
        assert(v[k] == rest[i] as i32);
    } else {
        assert(v[v.len() - 1] == device_addresses(v)[i] as i32);
    }
}

/// `c` is what a session is opened with.
pub open spec fn session_config(device_name: Seq<char>, cec: CecConfigV, c: Configuration) -> bool {
    &&& c.device_name@ == device_name
    &&& c.device_type.0 == DeviceType::RECORDING
    &&& c.physical_address == 0xFFFF
    &&& c.base_device.0 == LogicalAddress::TV
    &&& c.hdmi_port == 1
    &&& c.monitor_only == cec.monitor_only
    &&& c.activate_source == cec.activate_source
    &&& c.wake_devices@ == device_addresses(cec.wake_on_connect)
    &&& c.power_off_devices@ == device_addresses(cec.power_off_on_disconnect)
}

/// The adapter to open, or why there is none: the requested one, else the first that was found, by
/// its device file where it has one.
pub open spec fn picked_adapter(
    requested: Seq<char>,
    found: Result<Seq<(Seq<char>, Seq<char>)>, Seq<char>>,
) -> Result<Seq<char>, Seq<char>> {
    if requested.len() > 0 {
        Ok(requested)
    } else {
        match found {
            Ok(list) => if list.len() > 0 {
                Ok(
                    if text::starts_with(list[0].1, "/dev/"@) {
                        list[0].1
                    } else {
                        list[0].0
                    },
                )
            } else {
                Err("no CEC adapter found"@)
            },
            Err(e) => Err("find_adapters: "@ + e),
        }
    }
}

/// The paths and device files of a list of adapters.
pub open spec fn adapter_views(v: Seq<Adapter>) -> Seq<(Seq<char>, Seq<char>)> {
    v.map_values(|a: Adapter| (a.path@, a.comm@))
}

/// What an adapter search gave.
pub open spec fn search_view(found: Result<Vec<Adapter>, CecError>) -> Result<
    Seq<(Seq<char>, Seq<char>)>,
    Seq<char>,
> {
    match found {
        Ok(list) => Ok(adapter_views(list@)),
        Err(e) => Err(cec_error_text(e)),
    }
}

/// The adapter to open, or why there is none.
pub fn pick_adapter(requested: &str, found: &Result<Vec<Adapter>, CecError>) -> (r: Result<
    String,
    String,
>)
    ensures
        match r {
            Ok(p) => picked_adapter(requested@, search_view(*found)) == Ok::<Seq<char>, Seq<char>>(
                p@,
            ),
            Err(m) => picked_adapter(requested@, search_view(*found)) == Err::<Seq<char>, Seq<char>>(
                m@,
            ),
        },
{
    if !requested.is_empty() {
        return Ok(requested.to_owned());
    }
    match found {
        Ok(list) => {
            if list.len() > 0 {
                assert(adapter_views(list@)[0] == (list@[0].path@, list@[0].comm@));
                if text::has_prefix(list[0].comm.as_str(), "/dev/") {
                    Ok(list[0].comm.clone())
                } else {
                    Ok(list[0].path.clone())
                }
            } else {
                Err("no CEC adapter found".to_owned())
            }
        },
        Err(e) => Err(text::concat("find_adapters: ", e.to_string().as_str())),
    }
}

/// The event that tells of a session going up or down.
pub open spec fn state_event(state: Seq<char>, now: Timestamp) -> AppEventV {
    AppEventV {
        kind: ADAPTER_STATE@,
        timestamp: now,
        data: JsonV::Object(json::no_fields().insert("state"@, JsonV::Text(state))),
    }
}

/// The event that tells of a session going up or down.
pub fn publish_state(state: &str, now: Timestamp) -> (r: AppEvent)
    ensures
        r@ == state_event(state@, now),
{
    let mut m = json::new_object();
    json::insert(&mut m, "state", json::text(state));
    AppEvent::new(ADAPTER_STATE, json::object_value(m), now)
}

// ---------------------------------------------------------------------------
// The lifecycle
// ---------------------------------------------------------------------------

/// Where the supervisor stands.
#[derive(Debug, Clone, Copy, PartialEq, Eq, Structural)]
pub enum SupervisorState {
    /// A session is to be opened, unless the process shuts down.
    Start,
    /// libcec is being initialised.
    Opening,
    /// Adapters are being searched.
    Searching,
    /// An adapter is being opened.
    Attaching,
    /// The session is live.
    Live,
    /// A failure is waited out.
    BackingOff,
    /// The pause before a requested reopening.
    Pausing,
    /// The process shuts down.
    Stopped,
}

/// What the supervisor asks for.
#[derive(Debug)]
pub enum SupervisorAction {
    /// Initialise libcec.
    OpenSession { config: Configuration },
    /// Search for adapters.
    FindAdapters,
    /// Open an adapter.
    OpenAdapter { path: String },
    /// The session is live: switch monitoring, publish the handle and the event, deliver events,
    /// and wait for a signal.
    GoLive { monitor: bool, ring_cap: usize },
    /// Close the session if there is one, then sleep and look for a shutdown.
    CloseAndSleep { secs: u64 },
    /// Take the session down: publish the event, withdraw the handle, close, then sleep and look
    /// for a shutdown.
    TearDownAndSleep { secs: u64 },
    /// Look for a shutdown.
    LookForShutdown,
    /// Take the session down and end.
    TearDownAndStop,
    /// End.
    Stop,
}

/// What happened to what the supervisor asked for.
#[derive(Debug)]
pub enum SupervisorEvent {
    /// The loop is at its top; whether the process shuts down.
    Top { shutdown: bool },
    /// Whether libcec could be initialised.
    SessionOpened { ok: bool },
    /// What the adapter search gave.
    AdaptersFound { found: Result<Vec<Adapter>, CecError> },
    /// Whether the adapter could be opened.
    AdapterOpened { ok: bool },
    /// Why the wait of a live session ended.
    Signal { reason: WaitReason },
    /// A sleep is over; whether the process shuts down.
    Slept { shutdown: bool },
}

/// The supervisor.
#[derive(Debug)]
pub struct Supervisor {
    pub device_name: String,
    pub requested_adapter: String,
    pub monitor_from_flag: bool,
    pub backoff_secs: u64,
    pub state: SupervisorState,
}

/// Whether an event can come in a state.
pub open spec fn expected_event(state: SupervisorState, event: SupervisorEvent) -> bool {
    match event {
        SupervisorEvent::Top { .. } => state == SupervisorState::Start,
        SupervisorEvent::SessionOpened { .. } => state == SupervisorState::Opening,
        SupervisorEvent::AdaptersFound { .. } => state == SupervisorState::Searching,
        SupervisorEvent::AdapterOpened { .. } => state == SupervisorState::Attaching,
        SupervisorEvent::Signal { .. } => state == SupervisorState::Live,
        SupervisorEvent::Slept { .. } => state == SupervisorState::BackingOff || state
            == SupervisorState::Pausing,
    }
}

/// The backoff after a failure.
pub open spec fn backed_off(cur: u64) -> u64 {
    if cur * 2 < MAX_BACKOFF_SECS {
        (cur * 2) as u64
    } else {
        MAX_BACKOFF_SECS
    }
}

impl Supervisor {
    /// The backoff is within its bounds.
    pub open spec fn wf(&self) -> bool {
        MIN_BACKOFF_SECS <= self.backoff_secs <= MAX_BACKOFF_SECS
    }

    /// The failure of an attempt: the session is closed, the current backoff is waited out, and the
    /// next one is longer.
    pub open spec fn failed(
        old_state: Supervisor,
        new_state: Supervisor,
        action: SupervisorAction,
    ) -> bool {
        &&& action == (SupervisorAction::CloseAndSleep { secs: old_state.backoff_secs })
        &&& new_state.backoff_secs == backed_off(old_state.backoff_secs)
        &&& new_state.state == SupervisorState::BackingOff
    }

    /// What an event leads to.
    pub open spec fn follows(
        old_state: Supervisor,
        event: SupervisorEvent,
        cfg: ConfigV,
        new_state: Supervisor,
        action: SupervisorAction,
    ) -> bool {
        &&& new_state.device_name == old_state.device_name
        &&& new_state.requested_adapter == old_state.requested_adapter
        &&& new_state.monitor_from_flag == old_state.monitor_from_flag
        &&& match event {
            SupervisorEvent::Top { shutdown } => new_state.backoff_secs == old_state.backoff_secs
                && if shutdown {
                action == SupervisorAction::Stop && new_state.state == SupervisorState::Stopped
            } else {
                (action matches SupervisorAction::OpenSession { config } && session_config(
                    old_state.device_name@,
                    cfg.cec,
                    config,
                )) && new_state.state == SupervisorState::Opening
            },
            SupervisorEvent::SessionOpened { ok } => if !ok {
                Self::failed(old_state, new_state, action)
            } else if old_state.requested_adapter@.len() > 0 {
                (action matches SupervisorAction::OpenAdapter { path } && path@
                    == old_state.requested_adapter@) && new_state.state
                    == SupervisorState::Attaching && new_state.backoff_secs
                    == old_state.backoff_secs
            } else {
                action == SupervisorAction::FindAdapters && new_state.state
                    == SupervisorState::Searching && new_state.backoff_secs
                    == old_state.backoff_secs
            },
            SupervisorEvent::AdaptersFound { found } => match picked_adapter(
                old_state.requested_adapter@,
                search_view(found),
            ) {
                Ok(p) => (action matches SupervisorAction::OpenAdapter { path } && path@ == p)
                    && new_state.state == SupervisorState::Attaching && new_state.backoff_secs
                    == old_state.backoff_secs,
                Err(_) => Self::failed(old_state, new_state, action),
            },
            SupervisorEvent::AdapterOpened { ok } => if !ok {
                Self::failed(old_state, new_state, action)
            } else {
                &&& action == (SupervisorAction::GoLive {
                    monitor: match cfg.bus.monitor {
                        Some(v) => v,
                        None => old_state.monitor_from_flag,
                    },
                    ring_cap: ring_capacity(cfg.bus.frame_ring_size),
                })
                &&& new_state.state == SupervisorState::Live
                &&& new_state.backoff_secs == MIN_BACKOFF_SECS
            },
            SupervisorEvent::Signal { reason } => new_state.backoff_secs == old_state.backoff_secs
                && match reason {
                WaitReason::Timeout => action == SupervisorAction::LookForShutdown
                    && new_state.state == SupervisorState::Start,
                WaitReason::Shutdown => action == SupervisorAction::TearDownAndStop
                    && new_state.state == SupervisorState::Stopped,
                WaitReason::Reconnect => action == (SupervisorAction::TearDownAndSleep {
                    secs: RECONNECT_PAUSE_SECS,
                }) && new_state.state == SupervisorState::Pausing,
            },
            SupervisorEvent::Slept { shutdown } => new_state.backoff_secs
                == old_state.backoff_secs && if shutdown {
                action == SupervisorAction::Stop && new_state.state == SupervisorState::Stopped
            } else {
                (action matches SupervisorAction::OpenSession { config } && session_config(
                    old_state.device_name@,
                    cfg.cec,
                    config,
                )) && new_state.state == SupervisorState::Opening
            },
        }
    }

    pub fn new(device_name: &str, requested_adapter: &str, monitor_from_flag: bool) -> (r:
        Supervisor)
        ensures
            r.wf(),
            r.device_name@ == device_name@,
            r.requested_adapter@ == requested_adapter@,
            r.monitor_from_flag == monitor_from_flag,
            r.backoff_secs == MIN_BACKOFF_SECS,
            r.state == SupervisorState::Start,
    {
        Supervisor {
            device_name: device_name.to_owned(),
            requested_adapter: requested_adapter.to_owned(),
            monitor_from_flag,
            backoff_secs: MIN_BACKOFF_SECS,
            state: SupervisorState::Start,
        }
    }

    fn configuration(&self, cfg: &Config) -> (r: Configuration)
        ensures
            session_config(self.device_name@, cfg@.cec, r),
    {
        Configuration {
            device_name: self.device_name.clone(),
            device_type: DeviceType(DeviceType::RECORDING),
            physical_address: 0xFFFF,
            base_device: LogicalAddress(LogicalAddress::TV),
            hdmi_port: 1,
            monitor_only: cfg.cec.monitor_only,
            activate_source: cfg.cec.activate_source,
            wake_devices: clamp_addrs(&cfg.cec.wake_on_connect),
            power_off_devices: clamp_addrs(&cfg.cec.power_off_on_disconnect),
        }
    }

    fn fail(&mut self) -> (r: SupervisorAction)
        requires
            old(self).wf(),
        ensures
            final(self).wf(),
            final(self).device_name == old(self).device_name,
            final(self).requested_adapter == old(self).requested_adapter,
            final(self).monitor_from_flag == old(self).monitor_from_flag,
            Supervisor::failed(*old(self), *final(self), r),
    {
        let secs: u64 = self.backoff_secs;
        self.backoff_secs = next_backoff(secs);
        self.state = SupervisorState::BackingOff;
        SupervisorAction::CloseAndSleep { secs }
    }

    fn reopen(&mut self, shutdown: bool, cfg: &Config) -> (r: SupervisorAction)
        requires
            old(self).wf(),
        ensures
            final(self).wf(),
            final(self).device_name == old(self).device_name,
            final(self).requested_adapter == old(self).requested_adapter,
            final(self).monitor_from_flag == old(self).monitor_from_flag,
            final(self).backoff_secs == old(self).backoff_secs,
            if shutdown {
                r == SupervisorAction::Stop && final(self).state == SupervisorState::Stopped
            } else {
                (r matches SupervisorAction::OpenSession { config } && session_config(
                    old(self).device_name@,
                    cfg@.cec,
                    config,
                )) && final(self).state == SupervisorState::Opening
            },
    {
        if shutdown {
            self.state = SupervisorState::Stopped;
            return SupervisorAction::Stop;
        }
        self.state = SupervisorState::Opening;
        SupervisorAction::OpenSession { config: self.configuration(cfg) }
    }

    /// Takes in what happened and says what to do next.
    pub fn step(&mut self, event: SupervisorEvent, cfg: &Config) -> (r: SupervisorAction)
        requires
            old(self).wf(),
            expected_event(old(self).state, event),
        ensures
            final(self).wf(),
            Supervisor::follows(*old(self), event, cfg@, *final(self), r),
    {
        match event {
            SupervisorEvent::Top { shutdown } => self.reopen(shutdown, cfg),
            SupervisorEvent::SessionOpened { ok } => {
                if !ok {
                    self.fail()
                } else if !self.requested_adapter.as_str().is_empty() {
                    self.state = SupervisorState::Attaching;
                    SupervisorAction::OpenAdapter { path: self.requested_adapter.clone() }
                } else {
                    self.state = SupervisorState::Searching;
                    SupervisorAction::FindAdapters
                }
            },
            SupervisorEvent::AdaptersFound { found } => {
                match pick_adapter(self.requested_adapter.as_str(), &found) {
                    Ok(path) => {
                        self.state = SupervisorState::Attaching;
                        SupervisorAction::OpenAdapter { path }
                    },
                    Err(_) => self.fail(),
                }
            },
            SupervisorEvent::AdapterOpened { ok } => {
                if !ok {
                    self.fail()
                } else {
                    self.backoff_secs = MIN_BACKOFF_SECS;
                    self.state = SupervisorState::Live;
                    let monitor = match cfg.bus.monitor {
                        Some(v) => v,
                        None => self.monitor_from_flag,
                    };
                    SupervisorAction::GoLive { monitor, ring_cap: cfg.bus.frame_ring_size() }
                }
            },
            SupervisorEvent::Signal { reason } => match reason {
                WaitReason::Timeout => {
                    self.state = SupervisorState::Start;
                    SupervisorAction::LookForShutdown
                },
                WaitReason::Shutdown => {
                    self.state = SupervisorState::Stopped;
                    SupervisorAction::TearDownAndStop
                },
                WaitReason::Reconnect => {
                    self.state = SupervisorState::Pausing;
                    SupervisorAction::TearDownAndSleep { secs: RECONNECT_PAUSE_SECS }
                },
            },
            SupervisorEvent::Slept { shutdown } => self.reopen(shutdown, cfg),
        }
    }
}

/// The frame ring size that a configured value stands for.
pub open spec fn ring_capacity(configured: int) -> usize {
    if configured < 0 {
        0
    } else if configured == 0 {
        256
    } else {
        configured as usize
    }
}

/// Marks the bus live: ready, with the configured frame ring.
pub fn bus_up(bus: &mut BusState, ring_cap: usize)
    requires
        old(bus).wf(),
    ensures
        final(bus).wf(),
        final(bus)@ == (BusV {
            cec_ready: true,
            ring_cap: ring_cap as nat,
            ring: if ring_cap == 0 {
                Seq::empty()
            } else {
                old(bus)@.ring
            },
            ..old(bus)@
        }),
{
    bus.set_frame_ring_capacity(ring_cap);
    bus.set_cec_ready(true);
}

/// Marks the bus down: not ready, with the frame ring off and empty.
pub fn bus_down(bus: &mut BusState)
    requires
        old(bus).wf(),
    ensures
        final(bus).wf(),
        final(bus)@ == (BusV {
            cec_ready: false,
            ring_cap: 0,
            ring: Seq::empty(),
            ..old(bus)@
        }),
{
    bus.set_cec_ready(false);
    bus.set_frame_ring_capacity(0);
}

/// The backoff doubles with each failure and never exceeds a minute, nor does it get shorter before
/// that.
pub proof fn law_backoff_is_bounded(cur: u64)
    ensures
        backed_off(cur) <= MAX_BACKOFF_SECS,
        backed_off(cur) == 2 * cur || backed_off(cur) == MAX_BACKOFF_SECS,
        cur <= MAX_BACKOFF_SECS ==> cur <= backed_off(cur),
{
}

/// Of a configured list of addresses those are taken that a device can have, in order.
pub proof fn law_device_addresses_are_taken(v: Seq<i32>, a: i32)
    ensures
        0 <= a <= 14 ==> device_addresses(v.push(a)) == device_addresses(v).push(a as u8),
        !(0 <= a <= 14) ==> device_addresses(v.push(a)) == device_addresses(v),
        device_addresses(Seq::empty()).len() == 0,
{
    assert(v.push(a).drop_last() =~= v);
}

/// The adapter that was asked for is opened, whatever a search finds; else the first one that was
/// found, by its device file where it has one. There is none exactly where none was asked for and
/// the search failed or found nothing.
pub proof fn law_adapter_is_asked_for_or_found(
    requested: Seq<char>,
    found: Result<Seq<(Seq<char>, Seq<char>)>, Seq<char>>,
)
    ensures
        requested.len() > 0 ==> picked_adapter(requested, found) == Ok::<Seq<char>, Seq<char>>(
            requested,
        ),
        requested.len() == 0 && (found matches Ok(l) && l.len() > 0) ==> (picked_adapter(
            requested,
            found,
        ) matches Ok(p) && (p == found->Ok_0[0].0 || p == found->Ok_0[0].1) && (text::starts_with(
            found->Ok_0[0].1,
            "/dev/"@,
        ) ==> p == found->Ok_0[0].1) && (!text::starts_with(found->Ok_0[0].1, "/dev/"@) ==> p
            == found->Ok_0[0].0)),
        (picked_adapter(requested, found) is Err) == (requested.len() == 0 && match found {
            Ok(l) => l.len() == 0,
            Err(_) => true,
        }),
{
}

/// A shutdown ends the supervisor wherever it looks for one, and takes a live session down; no
/// session is opened after it.
pub proof fn law_shutdown_ends_the_supervisor(
    before: Supervisor,
    event: SupervisorEvent,
    cfg: ConfigV,
    after: Supervisor,
    action: SupervisorAction,
)
    requires
        Supervisor::follows(before, event, cfg, after, action),
        event == (SupervisorEvent::Top { shutdown: true }) || event == (SupervisorEvent::Slept {
            shutdown: true,
        }) || event == (SupervisorEvent::Signal { reason: WaitReason::Shutdown }),
    ensures
        after.state == SupervisorState::Stopped,
        action == SupervisorAction::Stop || action == SupervisorAction::TearDownAndStop,
        event is Signal ==> action == SupervisorAction::TearDownAndStop,
{
}

/// A session goes live only after its adapter was opened, and then the wait after failures starts
/// again from its shortest. Whether it listens only is what is configured, else what the command
/// line says.
pub proof fn law_sessions_go_live_with_an_adapter(
    before: Supervisor,
    event: SupervisorEvent,
    cfg: ConfigV,
    after: Supervisor,
    action: SupervisorAction,
)
    requires
        Supervisor::follows(before, event, cfg, after, action),
    ensures
        (action is GoLive) == (event == SupervisorEvent::AdapterOpened { ok: true }),
        (after.state == SupervisorState::Live) == (action is GoLive),
        action matches SupervisorAction::GoLive { monitor, .. } ==> after.backoff_secs == 3 && (
        cfg.bus.monitor matches Some(m) ==> monitor == m) && (cfg.bus.monitor is None ==> monitor
            == before.monitor_from_flag),
{
}

/// Whatever fails on the way to a live session, the session is closed and the next attempt comes
/// after the wait that is due; the wait after that is twice as long, up to a minute. Nothing else
/// makes the wait longer.
pub proof fn law_failures_are_waited_out(
    before: Supervisor,
    event: SupervisorEvent,
    cfg: ConfigV,
    after: Supervisor,
    action: SupervisorAction,
)
    requires
        before.wf(),
        Supervisor::follows(before, event, cfg, after, action),
    ensures
        event == (SupervisorEvent::SessionOpened { ok: false }) || event
            == (SupervisorEvent::AdapterOpened { ok: false }) ==> action is CloseAndSleep,
        action matches SupervisorAction::CloseAndSleep { secs } ==> secs == before.backoff_secs
            && after.state == SupervisorState::BackingOff && (after.backoff_secs == 60
            || after.backoff_secs == 2 * before.backoff_secs) && after.backoff_secs
            >= before.backoff_secs,
        !(action is CloseAndSleep) ==> after.backoff_secs <= before.backoff_secs,
        (event == SupervisorEvent::Slept { shutdown: false }) ==> action is OpenSession,
{
}

/// A reconnect takes the session down and opens it again after a short pause.
pub proof fn law_reconnect_reopens(
    before: Supervisor,
    cfg: ConfigV,
    after: Supervisor,
    action: SupervisorAction,
)
    requires
        Supervisor::follows(
            before,
            (SupervisorEvent::Signal { reason: WaitReason::Reconnect }),
            cfg,
            after,
            action,
        ),
    ensures
        action == (SupervisorAction::TearDownAndSleep { secs: 1 }),
        expected_event(after.state, (SupervisorEvent::Slept { shutdown: false })),
        after.backoff_secs == before.backoff_secs,
{
}

/// The session is opened under the configured name as a recording device, and with the lists of
/// devices to wake and to turn off that are configured.
pub proof fn law_session_is_opened_as_configured(
    name: Seq<char>,
    cec: CecConfigV,
    c: Configuration,
)
    requires
        session_config(name, cec, c),
    ensures
        c.device_name@ == name,
        c.device_type.0 == 1,
        c.physical_address == 0xFFFF,
        c.base_device.0 == 0,
        c.hdmi_port == 1,
        c.monitor_only == cec.monitor_only,
        c.activate_source == cec.activate_source,
        c.wake_devices@ == device_addresses(cec.wake_on_connect),
        c.power_off_devices@ == device_addresses(cec.power_off_on_disconnect),
{
}

/// The ring holds as many frames as are configured, 256 where nothing is, and none where the number
/// is negative.
pub proof fn law_ring_size(configured: int)
    ensures
        configured < 0 ==> ring_capacity(configured) == 0,
        configured == 0 ==> ring_capacity(configured) == 256,
        0 < configured <= u32::MAX ==> ring_capacity(configured) == configured,
{
}

/// Going up and down is told by the name of the state.
pub proof fn law_state_events_tell_the_state(state: Seq<char>, now: Timestamp)
    ensures
        json::text_field(state_event(state, now).data, "state"@) == Some(state),
        state_event(state, now).timestamp == now,
        state_event(state, now).kind == ADAPTER_STATE@,
{
}

} // verus!
