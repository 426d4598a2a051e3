//! One libcec session: which calls may be made in which state, with which arguments, and what the
//! answers of libcec mean. The calls themselves are made by the caller, one per [`CecCall`].

use crate::cec::types::{
    is_failed_call, is_invalid_params, sanitize_device_name, sanitized, without_nuls, transmit_fault,
    validate_transmit, CecError, Command, CommandV, Configuration, DeviceType, DisplayControl,
    Keycode, LogicalAddress, Opcode,
};
use crate::text;
use vstd::prelude::*;

verus! {

/// How long a close waits for callbacks that still run, in milliseconds.
pub const CLOSE_DRAIN_TIMEOUT_MS: u64 = 5000;

/// A call into libcec.
#[derive(Debug)]
pub enum CecCall {
    FindAdapters,
    OpenAdapter { path: String },
    PowerOn { address: u8 },
    Standby { address: u8 },
    SetActiveSource { device_type: u8 },
    SetInactiveView,
    VolumeUp { send_release: bool },
    VolumeDown { send_release: bool },
    AudioToggleMute,
    AudioMute,
    AudioUnmute,
    AudioStatus,
    PowerStatus { address: u8 },
    ActiveSource,
    IsActiveSource { address: u8 },
    VendorId { address: u8 },
    PhysicalAddress { address: u8 },
    OsdName { address: u8 },
    MenuLanguage { address: u8 },
    CecVersion { address: u8 },
    ActiveDevices,
    IsActiveDevice { address: u8 },
    Transmit { command: Command },
    SendKeypress { address: u8, key: u8, wait: bool },
    SendKeyRelease { address: u8, wait: bool },
    SetOsdString { address: u8, duration: u8, message: String },
    SwitchMonitoring { enable: bool },
    LibInfo,
    SetConfiguration { config: InitParams },
    CurrentConfiguration,
    PollDevice { address: u8 },
    SetHdmiPort { base_device: u8, port: u8 },
    RescanDevices,
    LogicalAddresses,
}

/// What libcec is initialised with.
#[derive(Debug)]
pub struct InitParams {
    pub device_name: String,
    pub device_type: u8,
    pub physical_address: u16,
    pub base_device: u8,
    pub hdmi_port: u8,
    pub monitor_only: bool,
    pub activate_source: bool,
    pub wake: Vec<u8>,
    pub power_off: Vec<u8>,
}

/// The addresses of a list that are real device addresses.
pub open spec fn valid_only(v: Seq<u8>) -> Seq<u8> {
    v.filter(|a: u8| a <= 14)
}

fn valid_addresses(v: &Vec<u8>) -> (r: Vec<u8>)
    ensures
        r@ == valid_only(v@),
{
    let mut out: Vec<u8> = Vec::new();
    let mut i: usize = 0;
    let ghost p = |a: u8| a <= 14;
    proof {
        reveal(Seq::filter);
        assert(v@.take(0).filter(p) =~= Seq::<u8>::empty());
    }
    while i < v.len()
        invariant
            i <= v@.len(),
            p == (|a: u8| a <= 14),
            out@ == v@.take(i as int).filter(p),
        decreases v@.len() - i,
    {
        proof {
            reveal(Seq::filter);
            assert(v@.take(i as int + 1).drop_last() =~= v@.take(i as int));
        }
        if LogicalAddress(v[i]).is_valid() {
            out.push(v[i]);
        }
        i += 1;
    }
    assert(v@.take(i as int) =~= v@);
    out
}

/// What libcec is handed for a configuration: the device name cut to fit, the address lists
/// without invalid addresses, the other fields as they are.
pub open spec fn init_matches(c: Configuration, p: InitParams) -> bool {
    &&& sanitized(without_nuls(c.device_name@), p.device_name@)
    &&& p.device_type == c.device_type.0
    &&& p.physical_address == c.physical_address
    &&& p.base_device == c.base_device.0
    &&& p.hdmi_port == c.hdmi_port
    &&& p.monitor_only == c.monitor_only
    &&& p.activate_source == c.activate_source
    &&& p.wake@ == valid_only(c.wake_devices@)
    &&& p.power_off@ == valid_only(c.power_off_devices@)
}

fn init_params(config: &Configuration) -> (r: InitParams)
    ensures
        init_matches(*config, r),
{
    InitParams {
        device_name: sanitize_device_name(config.device_name.as_str()),
        device_type: config.device_type.0,
        physical_address: config.physical_address,
        base_device: config.base_device.0,
        hdmi_port: config.hdmi_port,
        monitor_only: config.monitor_only,
        activate_source: config.activate_source,
        wake: valid_addresses(&config.wake_devices),
        power_off: valid_addresses(&config.power_off_devices),
    }
}

// ---------------------------------------------------------------------------
// The session registry
// ---------------------------------------------------------------------------

/// The sessions that callbacks can reach, by id. A callback that carries an unknown id is dropped.
#[derive(Debug)]
pub struct Sessions {
    ids: Vec<u64>,
    next_id: u64,
}

impl Sessions {
    /// The registered ids.
    pub closed spec fn view(&self) -> Set<u64> {
        self.ids@.to_set()
    }

    /// The id that the next session gets.
    pub closed spec fn next(&self) -> u64 {
        self.next_id
    }

    /// No id is registered twice, and every registered id is a past one; 0 is never an id.
    pub closed spec fn wf(&self) -> bool {
        &&& self.next_id >= 1
        &&& self.ids@.no_duplicates()
        &&& forall|i: int| 0 <= i < self.ids@.len() ==> 1 <= #[trigger] self.ids@[i] < self.next_id
    }

    pub fn new() -> (r: Sessions)
        ensures
            r.wf(),
            r@ == Set::<u64>::empty(),
            r.next() == 1,
    {
        let r = Sessions { ids: Vec::new(), next_id: 1 };
        assert(r@ =~= Set::<u64>::empty());
        r
    }

    /// Whether a callback with this id reaches a session.
    pub fn contains(&self, id: u64) -> (r: bool)
        requires
            self.wf(),
        ensures
            r == self@.contains(id),
            id == 0 ==> !r,
    {
        let mut i: usize = 0;
        while i < self.ids.len()
            invariant
                i <= self.ids@.len(),
                self.wf(),
                forall|j: int| 0 <= j < i ==> self.ids@[j] != id,
            decreases self.ids@.len() - i,
        {
            if self.ids[i] == id {
                assert(self.ids@.contains(id));
                return true;
            }
            i += 1;
        }
        assert(!self.ids@.contains(id));
        false
    }

    /// Registers a new session under a fresh id.
    pub fn register(&mut self) -> (id: u64)
        requires
            old(self).wf(),
            old(self).next() < u64::MAX,
        ensures
            final(self).wf(),
            id == old(self).next(),
            id >= 1,
            !old(self)@.contains(id),
            final(self)@ == old(self)@.insert(id),
            final(self).next() == id + 1,
    {
        let id: u64 = self.next_id;
        let ghost before = self.ids@;
        proof {
            if before.contains(id) {
                let k = before.index_of(id);
                assert(before[k] < self.next_id);
            }
        }
        self.ids.push(id);
        self.next_id = id + 1;
        proof {
            assert(self.ids@ =~= before.push(id));
            assert forall|x: u64| self@.contains(x) <==> before.to_set().insert(id).contains(x) by {
                if self.ids@.contains(x) {
                    let k = self.ids@.index_of(x);
                    if k < before.len() {
                        assert(before[k] == x);
                    }
                }
                if before.contains(x) {
                    let k = before.index_of(x);
                    assert(self.ids@[k] == x);
                }
                assert(self.ids@[before.len() as int] == id);
            }
            assert(self@ =~= before.to_set().insert(id));
        }
        id
    }

    /// Forgets a session: later callbacks with its id are dropped.
    pub fn remove(&mut self, id: u64)
        requires
            old(self).wf(),
        ensures
            final(self).wf(),
            final(self)@ == old(self)@.remove(id),
            final(self).next() == old(self).next(),
    {
        let ghost before = self.ids@;
        let mut i: usize = 0;
        while i < self.ids.len()
            invariant
                i <= self.ids@.len(),
                self.ids@ == before,
                before == old(self).ids@,
                self.wf(),
                self.next_id == old(self).next_id,
                forall|j: int| 0 <= j < i ==> before[j] != id,
            decreases self.ids@.len() - i,
        {
            if self.ids[i] == id {
                self.ids.remove(i);
                proof {
                    assert(self.ids@ =~= before.remove(i as int));
                    assert forall|j: int| 0 <= j < self.ids@.len() implies 1
                        <= #[trigger] self.ids@[j] < self.next_id by {
                        assert(self.ids@[j] == before[if j < i { j } else { j + 1 }]);
                    }
                    assert forall|x: u64| self@.contains(x) <==> before.to_set().remove(
                        id,
                    ).contains(x) by {
                        if self.ids@.contains(x) {
                            let k = self.ids@.index_of(x);
                            let m = if k < i { k } else { k + 1 };
                            assert(before[m] == x);
                            assert(m != i);
                        }
                        if before.contains(x) && x != id {
                            let k = before.index_of(x);
                            let m = if k < i { k } else { k - 1 };
                            assert(self.ids@[m] == x);
                        }
                    }
                    assert(self@ =~= before.to_set().remove(id));
                }
                return;
            }
            i += 1;
        }
        proof {
            assert(!before.contains(id));
            assert(self@ =~= before.to_set().remove(id));
        }
    }
}

// ---------------------------------------------------------------------------
// Connection
// ---------------------------------------------------------------------------

/// What [`Connection::close`] asks for next.
#[derive(Debug, Clone, Copy, PartialEq, Eq, Structural)]
pub enum CloseStep {
    /// The session is torn down, or another close does it.
    Done,
    /// Call `libcec_close`, forget the session, wait for running callbacks, then destroy.
    CloseAndDrain,
    /// There was no handle: only forget the session.
    Forget,
}

/// What a close that waits for running callbacks does next.
#[derive(Debug, Clone, Copy, PartialEq, Eq, Structural)]
pub enum DrainStep {
    /// Wait a millisecond and look again.
    Wait,
    /// Call `libcec_destroy`.
    Destroy,
}

/// The state of one libcec session.
///
/// `opened` is set by a successful adapter open; calls that touch the bus are refused before it,
/// because libcec crashes on several of them when no adapter has been opened.
#[derive(Debug)]
pub struct Connection {
    pub id: u64,
    pub live: bool,
    pub closed: bool,
    pub opened: bool,
    pub closing: bool,
    pub inflight: u64,
    pub monitor_only: bool,
}

impl Connection {
    /// The state of a session right after libcec was initialised.
    pub open spec fn fresh(id: u64, monitor_only: bool) -> Connection {
        Connection {
            id,
            live: true,
            closed: false,
            opened: false,
            closing: false,
            inflight: 0,
            monitor_only,
        }
    }

    /// A closed session has no handle, no adapter, and lets no callback in.
    pub open spec fn wf(&self) -> bool {
        self.closed ==> !self.live && !self.opened && self.closing
    }

    /// Why a call is refused that needs a session.
    pub open spec fn api_fault(&self) -> Option<CecError> {
        if self.closed {
            Some(CecError::Closed)
        } else {
            None
        }
    }

    /// Why a call is refused that needs an opened adapter. Closed takes precedence over not
    /// opened.
    pub open spec fn bus_fault(&self) -> Option<CecError> {
        if self.closed {
            Some(CecError::Closed)
        } else if !self.opened {
            Some(CecError::AdapterNotOpen)
        } else {
            None
        }
    }

    /// Why a call is refused that needs an opened adapter and a real device address.
    pub open spec fn device_fault(&self, address: LogicalAddress) -> Option<CecError> {
        if address.0 > 14 {
            Some(CecError::InvalidLogicalAddress)
        } else {
            self.bus_fault()
        }
    }

    /// Why a call is refused that puts a frame on the bus for a device.
    pub open spec fn send_fault(&self, address: LogicalAddress) -> Option<CecError> {
        if address.0 > 14 {
            Some(CecError::InvalidLogicalAddress)
        } else if self.monitor_only {
            Some(CecError::MonitorOnly)
        } else {
            self.bus_fault()
        }
    }

    /// Whether a callback of this session is let in.
    pub open spec fn lets_in(self) -> bool {
        !self.closing && !self.closed
    }

    /// The session after a close.
    pub open spec fn torn_down(self) -> Connection {
        if self.closed {
            self
        } else {
            Connection { closed: true, opened: false, closing: true, live: false, ..self }
        }
    }

    /// What a close that has waited `waited_ms` for running callbacks does next.
    pub open spec fn drain_step(self, waited_ms: u64) -> DrainStep {
        if self.inflight > 0 && waited_ms < CLOSE_DRAIN_TIMEOUT_MS {
            DrainStep::Wait
        } else {
            DrainStep::Destroy
        }
    }

    /// What to initialise libcec with.
    pub fn open(config: &Configuration) -> (r: InitParams)
        ensures
            init_matches(*config, r),
    {
        init_params(config)
    }

    /// The session after `libcec_initialise`: an error if libcec gave no handle.
    pub fn opened_session(id: u64, config: &Configuration, got_handle: bool) -> (r: Result<
        Connection,
        CecError,
    >)
        ensures
            match r {
                Ok(c) => got_handle && c == Connection::fresh(id, config.monitor_only) && c.wf(),
                Err(e) => !got_handle && is_failed_call(e, "libcec_initialise"@),
            },
    {
        if !got_handle {
            return Err(CecError::LibcecCall("libcec_initialise".to_owned()));
        }
        Ok(
            Connection {
                id,
                live: true,
                closed: false,
                opened: false,
                closing: false,
                inflight: 0,
                monitor_only: config.monitor_only,
            },
        )
    }

    fn lock_api(&self) -> (r: Result<(), CecError>)
        ensures
            match r {
                Ok(()) => self.api_fault() is None,
                Err(e) => self.api_fault() == Some(e),
            },
    {
        if self.closed {
            return Err(CecError::Closed);
        }
        Ok(())
    }

    fn lock_bus(&self) -> (r: Result<(), CecError>)
        ensures
            match r {
                Ok(()) => self.bus_fault() is None,
                Err(e) => self.bus_fault() == Some(e),
            },
    {
        if self.closed {
            return Err(CecError::Closed);
        }
        if !self.opened {
            return Err(CecError::AdapterNotOpen);
        }
        self.lock_api()
    }

    fn lock_device(&self, address: LogicalAddress) -> (r: Result<(), CecError>)
        ensures
            match r {
                Ok(()) => self.device_fault(address) is None,
                Err(e) => self.device_fault(address) == Some(e),
            },
    {
        if !address.is_valid() {
            return Err(CecError::InvalidLogicalAddress);
        }
        self.lock_bus()
    }

    fn lock_send(&self, address: LogicalAddress) -> (r: Result<(), CecError>)
        ensures
            match r {
                Ok(()) => self.send_fault(address) is None,
                Err(e) => self.send_fault(address) == Some(e),
            },
    {
        if !address.is_valid() {
            return Err(CecError::InvalidLogicalAddress);
        }
        if self.monitor_only {
            return Err(CecError::MonitorOnly);
        }
        self.lock_bus()
    }

    // -- callbacks ----------------------------------------------------------

    /// Lets a callback in, unless the session is closing or closed.
    pub fn begin_callback(&mut self) -> (r: bool)
        requires
            old(self).inflight < u64::MAX,
        ensures
            r == old(self).lets_in(),
            *final(self) == (Connection {
                inflight: (old(self).inflight + if r { 1int } else { 0int }) as u64,
                ..*old(self)
            }),
    {
        if self.closing || self.closed {
            return false;
        }
        self.inflight = self.inflight + 1;
        true
    }

    /// Notes that a callback that was let in has returned.
    pub fn end_callback(&mut self)
        requires
            old(self).inflight > 0,
        ensures
            *final(self) == (Connection { inflight: (old(self).inflight - 1) as u64, ..*old(self) }),
    {
        self.inflight = self.inflight - 1;
    }

    // -- lifecycle ----------------------------------------------------------

    /// Begins a close. Idempotent: a later close has nothing to do.
    pub fn close(&mut self) -> (r: CloseStep)
        requires
            old(self).wf(),
        ensures
            final(self).wf(),
            *final(self) == old(self).torn_down(),
            r == (if old(self).closed {
                CloseStep::Done
            } else if old(self).live {
                CloseStep::CloseAndDrain
            } else {
                CloseStep::Forget
            }),
    {
        if self.closed {
            return CloseStep::Done;
        }
        self.closed = true;
        self.opened = false;
        self.closing = true;
        let had_handle = self.live;
        self.live = false;
        if had_handle {
            CloseStep::CloseAndDrain
        } else {
            CloseStep::Forget
        }
    }

    /// Whether a closing session may be destroyed after waiting `waited_ms`: once no callback
    /// runs, or once the wait is over (a wedged callback does not hang the close).
    pub fn drain(&self, waited_ms: u64) -> (r: DrainStep)
        ensures
            r == self.drain_step(waited_ms),
    {
        if self.inflight > 0 && waited_ms < CLOSE_DRAIN_TIMEOUT_MS {
            DrainStep::Wait
        } else {
            DrainStep::Destroy
        }
    }

    pub fn is_closed(&self) -> (r: bool)
        ensures
            r == self.closed,
    {
        self.closed
    }

    /// The id that callbacks of this session carry.
    pub fn session_id(&self) -> (r: u64)
        ensures
            r == self.id,
    {
        self.id
    }

    /// Whether this session was opened to listen only. Transmits and key sends are refused then.
    pub fn is_monitor_only(&self) -> (r: bool)
        ensures
            r == self.monitor_only,
    {
        self.monitor_only
    }

    // -- adapter ------------------------------------------------------------

    /// Lists the adapters that this session can reach.
    pub fn find_adapters(&self) -> (r: Result<CecCall, CecError>)
        ensures
            match r {
                Ok(c) => self.api_fault() is None && c == CecCall::FindAdapters,
                Err(e) => self.api_fault() == Some(e),
            },
    {
        match self.lock_api() {
            Ok(()) => Ok(CecCall::FindAdapters),
            Err(e) => Err(e),
        }
    }

    /// Opens an adapter; an adapter that is open is closed first.
    pub fn open_adapter(&self, adapter_path: &str) -> (r: Result<CecCall, CecError>)
        ensures
            match r {
                Ok(c) => self.api_fault() is None && !adapter_path@.contains('\0')
                    && (c matches CecCall::OpenAdapter { path } && path@ == adapter_path@),
                Err(e) => if self.api_fault() is Some {
                    self.api_fault() == Some(e)
                } else {
                    adapter_path@.contains('\0') && is_invalid_params(
                        e,
                        "adapter path contains NUL"@,
                    )
                },
            },
    {
        match self.lock_api() {
            Ok(()) => {},
            Err(e) => {
                return Err(e);
            },
        }
        if has_nul(adapter_path) {
            return Err(CecError::InvalidParams("adapter path contains NUL".to_owned()));
        }
        Ok(CecCall::OpenAdapter { path: adapter_path.to_owned() })
    }

    /// Notes how an adapter open went.
    pub fn adapter_opened(&mut self, rc: i32) -> (r: Result<(), CecError>)
        requires
            old(self).wf(),
            !old(self).closed,
        ensures
            final(self).wf(),
            *final(self) == (Connection { opened: rc != 0, ..*old(self) }),
            match r {
                Ok(()) => rc != 0,
                Err(e) => rc == 0 && e == CecError::AdapterNotOpen,
            },
    {
        if rc == 0 {
            self.opened = false;
            return Err(CecError::AdapterNotOpen);
        }
        self.opened = true;
        Ok(())
    }

    // -- power and source ---------------------------------------------------

    /// Powers on a device. The address must be 0..=14.
    pub fn power_on(&self, address: LogicalAddress) -> (r: Result<CecCall, CecError>)
        ensures
            match r {
                Ok(c) => self.device_fault(address) is None && c == (CecCall::PowerOn {
                    address: address.0,
                }),
                Err(e) => self.device_fault(address) == Some(e),
            },
    {
        match self.lock_device(address) {
            Ok(()) => Ok(CecCall::PowerOn { address: address.0 }),
            Err(e) => Err(e),
        }
    }

    /// Puts a device in standby. The address must be 0..=14.
    pub fn standby(&self, address: LogicalAddress) -> (r: Result<CecCall, CecError>)
        ensures
            match r {
                Ok(c) => self.device_fault(address) is None && c == (CecCall::Standby {
                    address: address.0,
                }),
                Err(e) => self.device_fault(address) == Some(e),
            },
    {
        match self.lock_device(address) {
            Ok(()) => Ok(CecCall::Standby { address: address.0 }),
            Err(e) => Err(e),
        }
    }

    /// Declares the local device of the given type to be the active source.
    pub fn set_active_source(&self, device_type: DeviceType) -> (r: Result<CecCall, CecError>)
        ensures
            match r {
                Ok(c) => self.bus_fault() is None && c == (CecCall::SetActiveSource {
                    device_type: device_type.0,
                }),
                Err(e) => self.bus_fault() == Some(e),
            },
    {
        match self.lock_bus() {
            Ok(()) => Ok(CecCall::SetActiveSource { device_type: device_type.0 }),
            Err(e) => Err(e),
        }
    }

    /// Marks the local device as inactive view.
    pub fn set_inactive_view(&self) -> (r: Result<CecCall, CecError>)
        ensures
            match r {
                Ok(c) => self.bus_fault() is None && c == CecCall::SetInactiveView,
                Err(e) => self.bus_fault() == Some(e),
            },
    {
        match self.lock_bus() {
            Ok(()) => Ok(CecCall::SetInactiveView),
            Err(e) => Err(e),
        }
    }

    // -- volume and audio ---------------------------------------------------

    pub fn volume_up(&self, send_release: bool) -> (r: Result<CecCall, CecError>)
        ensures
            match r {
                Ok(c) => self.bus_fault() is None && c == (CecCall::VolumeUp { send_release }),
                Err(e) => self.bus_fault() == Some(e),
            },
    {
        match self.lock_bus() {
            Ok(()) => Ok(CecCall::VolumeUp { send_release }),
            Err(e) => Err(e),
        }
    }

    pub fn volume_down(&self, send_release: bool) -> (r: Result<CecCall, CecError>)
        ensures
            match r {
                Ok(c) => self.bus_fault() is None && c == (CecCall::VolumeDown { send_release }),
                Err(e) => self.bus_fault() == Some(e),
            },
    {
        match self.lock_bus() {
            Ok(()) => Ok(CecCall::VolumeDown { send_release }),
            Err(e) => Err(e),
        }
    }

    pub fn audio_toggle_mute(&self) -> (r: Result<CecCall, CecError>)
        ensures
            match r {
                Ok(c) => self.bus_fault() is None && c == CecCall::AudioToggleMute,
                Err(e) => self.bus_fault() == Some(e),
            },
    {
        match self.lock_bus() {
            Ok(()) => Ok(CecCall::AudioToggleMute),
            Err(e) => Err(e),
        }
    }

    pub fn audio_mute(&self) -> (r: Result<CecCall, CecError>)
        ensures
            match r {
                Ok(c) => self.bus_fault() is None && c == CecCall::AudioMute,
                Err(e) => self.bus_fault() == Some(e),
            },
    {
        match self.lock_bus() {
            Ok(()) => Ok(CecCall::AudioMute),
            Err(e) => Err(e),
        }
    }

    pub fn audio_unmute(&self) -> (r: Result<CecCall, CecError>)
        ensures
            match r {
                Ok(c) => self.bus_fault() is None && c == CecCall::AudioUnmute,
                Err(e) => self.bus_fault() == Some(e),
            },
    {
        match self.lock_bus() {
            Ok(()) => Ok(CecCall::AudioUnmute),
            Err(e) => Err(e),
        }
    }

    pub fn get_audio_status(&self) -> (r: Result<CecCall, CecError>)
        ensures
            match r {
                Ok(c) => self.bus_fault() is None && c == CecCall::AudioStatus,
                Err(e) => self.bus_fault() == Some(e),
            },
    {
        match self.lock_bus() {
            Ok(()) => Ok(CecCall::AudioStatus),
            Err(e) => Err(e),
        }
    }

    // -- queries ------------------------------------------------------------

    pub fn get_device_power_status(&self, address: LogicalAddress) -> (r: Result<CecCall, CecError>)
        ensures
            match r {
                Ok(c) => self.device_fault(address) is None && c == (CecCall::PowerStatus {
                    address: address.0,
                }),
                Err(e) => self.device_fault(address) == Some(e),
            },
    {
        match self.lock_device(address) {
            Ok(()) => Ok(CecCall::PowerStatus { address: address.0 }),
            Err(e) => Err(e),
        }
    }

    /// Cheapest health check: the power status of the TV.
    pub fn ping_tv(&self) -> (r: Result<CecCall, CecError>)
        ensures
            match r {
                Ok(c) => self.bus_fault() is None && c == (CecCall::PowerStatus { address: 0 }),
                Err(e) => self.bus_fault() == Some(e),
            },
    {
        self.get_device_power_status(LogicalAddress(LogicalAddress::TV))
    }

    pub fn get_active_source(&self) -> (r: Result<CecCall, CecError>)
        ensures
            match r {
                Ok(c) => self.bus_fault() is None && c == CecCall::ActiveSource,
                Err(e) => self.bus_fault() == Some(e),
            },
    {
        match self.lock_bus() {
            Ok(()) => Ok(CecCall::ActiveSource),
            Err(e) => Err(e),
        }
    }

    /// `None` stands for "no" without asking libcec.
    pub fn is_active_source(&self, address: LogicalAddress) -> (r: Option<CecCall>)
        ensures
            r == (if address.0 <= 14 && !self.closed {
                Some(CecCall::IsActiveSource { address: address.0 })
            } else {
                None
            }),
    {
        if !address.is_valid() || self.closed {
            return None;
        }
        Some(CecCall::IsActiveSource { address: address.0 })
    }

    pub fn get_device_vendor_id(&self, address: LogicalAddress) -> (r: Result<CecCall, CecError>)
        ensures
            match r {
                Ok(c) => self.device_fault(address) is None && c == (CecCall::VendorId {
                    address: address.0,
                }),
                Err(e) => self.device_fault(address) == Some(e),
            },
    {
        match self.lock_device(address) {
            Ok(()) => Ok(CecCall::VendorId { address: address.0 }),
            Err(e) => Err(e),
        }
    }

    pub fn get_device_physical_address(&self, address: LogicalAddress) -> (r: Result<
        CecCall,
        CecError,
    >)
        ensures
            match r {
                Ok(c) => self.device_fault(address) is None && c == (CecCall::PhysicalAddress {
                    address: address.0,
                }),
                Err(e) => self.device_fault(address) == Some(e),
            },
    {
        match self.lock_device(address) {
            Ok(()) => Ok(CecCall::PhysicalAddress { address: address.0 }),
            Err(e) => Err(e),
        }
    }

    pub fn get_device_osd_name(&self, address: LogicalAddress) -> (r: Result<CecCall, CecError>)
        ensures
            match r {
                Ok(c) => self.device_fault(address) is None && c == (CecCall::OsdName {
                    address: address.0,
                }),
                Err(e) => self.device_fault(address) == Some(e),
            },
    {
        match self.lock_device(address) {
            Ok(()) => Ok(CecCall::OsdName { address: address.0 }),
            Err(e) => Err(e),
        }
    }

    pub fn get_device_menu_language(&self, address: LogicalAddress) -> (r: Result<
        CecCall,
        CecError,
    >)
        ensures
            match r {
                Ok(c) => self.device_fault(address) is None && c == (CecCall::MenuLanguage {
                    address: address.0,
                }),
                Err(e) => self.device_fault(address) == Some(e),
            },
    {
        match self.lock_device(address) {
            Ok(()) => Ok(CecCall::MenuLanguage { address: address.0 }),
            Err(e) => Err(e),
        }
    }

    pub fn get_device_cec_version(&self, address: LogicalAddress) -> (r: Result<CecCall, CecError>)
        ensures
            match r {
                Ok(c) => self.device_fault(address) is None && c == (CecCall::CecVersion {
                    address: address.0,
                }),
                Err(e) => self.device_fault(address) == Some(e),
            },
    {
        match self.lock_device(address) {
            Ok(()) => Ok(CecCall::CecVersion { address: address.0 }),
            Err(e) => Err(e),
        }
    }

    pub fn get_active_devices(&self) -> (r: Result<CecCall, CecError>)
        ensures
            match r {
                Ok(c) => self.bus_fault() is None && c == CecCall::ActiveDevices,
                Err(e) => self.bus_fault() == Some(e),
            },
    {
        match self.lock_bus() {
            Ok(()) => Ok(CecCall::ActiveDevices),
            Err(e) => Err(e),
        }
    }

    /// `None` stands for "no" without asking libcec.
    pub fn is_active_device(&self, address: LogicalAddress) -> (r: Option<CecCall>)
        ensures
            r == (if address.0 <= 14 && !self.closed {
                Some(CecCall::IsActiveDevice { address: address.0 })
            } else {
                None
            }),
    {
        if !address.is_valid() || self.closed {
            return None;
        }
        Some(CecCall::IsActiveDevice { address: address.0 })
    }

    pub fn get_logical_addresses(&self) -> (r: Result<CecCall, CecError>)
        ensures
            match r {
                Ok(c) => self.bus_fault() is None && c == CecCall::LogicalAddresses,
                Err(e) => self.bus_fault() == Some(e),
            },
    {
        match self.lock_bus() {
            Ok(()) => Ok(CecCall::LogicalAddresses),
            Err(e) => Err(e),
        }
    }

    /// `None` stands for "no answer" without asking libcec.
    pub fn poll_device(&self, address: LogicalAddress) -> (r: Option<CecCall>)
        ensures
            r == (if address.0 <= 14 && !self.closed {
                Some(CecCall::PollDevice { address: address.0 })
            } else {
                None
            }),
    {
        if !address.is_valid() || self.closed {
            return None;
        }
        Some(CecCall::PollDevice { address: address.0 })
    }

    // -- transmit -----------------------------------------------------------

    /// Sends a raw CEC command frame. More than 64 parameter bytes and invalid addresses are
    /// rejected; refused in monitor-only mode.
    pub fn transmit(&self, cmd: &Command) -> (r: Result<CecCall, CecError>)
        ensures
            match r {
                Ok(c) => transmit_fault(cmd@) is None && !self.monitor_only && self.bus_fault()
                    is None && (c matches CecCall::Transmit { command } && command@ == cmd@),
                Err(e) => if transmit_fault(cmd@) is Some {
                    e matches CecError::InvalidParams(m) && transmit_fault(cmd@) == Some(m@)
                } else if self.monitor_only {
                    e == CecError::MonitorOnly
                } else {
                    self.bus_fault() == Some(e)
                },
            },
    {
        match validate_transmit(cmd) {
            Ok(()) => {},
            Err(e) => {
                return Err(e);
            },
        }
        if self.monitor_only {
            return Err(CecError::MonitorOnly);
        }
        match self.lock_bus() {
            Ok(()) => Ok(CecCall::Transmit { command: cmd.clone() }),
            Err(e) => Err(e),
        }
    }

    /// Enables or disables System Audio Mode by transmitting opcode 0x72 to the TV, from
    /// `first_address` or, where the adapter has none, from the free-use address.
    pub fn set_system_audio_mode(&self, enable: bool, first_address: Option<LogicalAddress>) -> (r:
        Result<CecCall, CecError>)
        requires
            first_address matches Some(a) ==> a.0 <= 15,
        ensures
            match r {
                Ok(c) => !self.monitor_only && self.bus_fault() is None && (
                c matches CecCall::Transmit { command } && command@ == audio_mode_command(
                    enable,
                    first_address,
                )),
                Err(e) => if self.monitor_only {
                    e == CecError::MonitorOnly
                } else {
                    self.bus_fault() == Some(e)
                },
            },
    {
        let initiator = match first_address {
            Some(a) => a,
            None => LogicalAddress(LogicalAddress::FREE_USE),
        };
        let mut parameters: Vec<u8> = Vec::new();
        parameters.push(if enable { 1 } else { 0 });
        let cmd = Command {
            initiator,
            destination: LogicalAddress(LogicalAddress::TV),
            opcode: Opcode(Opcode::SET_SYSTEM_AUDIO_MODE),
            opcode_set: true,
            parameters,
            ack: false,
            eom: true,
        };
        assert(cmd@.parameters =~= audio_mode_command(enable, first_address).parameters);
        self.transmit(&cmd)
    }

    /// Sends a remote-control key press. Refused in monitor-only mode.
    pub fn send_keypress(&self, address: LogicalAddress, key: Keycode, wait: bool) -> (r: Result<
        CecCall,
        CecError,
    >)
        ensures
            match r {
                Ok(c) => self.send_fault(address) is None && c == (CecCall::SendKeypress {
                    address: address.0,
                    key: key.0,
                    wait,
                }),
                Err(e) => self.send_fault(address) == Some(e),
            },
    {
        match self.lock_send(address) {
            Ok(()) => Ok(CecCall::SendKeypress { address: address.0, key: key.0, wait }),
            Err(e) => Err(e),
        }
    }

    /// Sends a remote-control key release. Refused in monitor-only mode.
    pub fn send_key_release(&self, address: LogicalAddress, wait: bool) -> (r: Result<
        CecCall,
        CecError,
    >)
        ensures
            match r {
                Ok(c) => self.send_fault(address) is None && c == (CecCall::SendKeyRelease {
                    address: address.0,
                    wait,
                }),
                Err(e) => self.send_fault(address) == Some(e),
            },
    {
        match self.lock_send(address) {
            Ok(()) => Ok(CecCall::SendKeyRelease { address: address.0, wait }),
            Err(e) => Err(e),
        }
    }

    /// Displays an OSD string on a device.
    pub fn set_osd_string(
        &self,
        address: LogicalAddress,
        duration: DisplayControl,
        message: &str,
    ) -> (r: Result<CecCall, CecError>)
        ensures
            match r {
                Ok(c) => self.device_fault(address) is None && !message@.contains('\0')
                    && (c matches CecCall::SetOsdString { address: a, duration: d, message: m } && a
                    == address.0 && d == duration.0 && m@ == message@),
                Err(e) => if self.device_fault(address) is Some {
                    self.device_fault(address) == Some(e)
                } else {
                    message@.contains('\0') && is_invalid_params(e, "OSD message contains NUL"@)
                },
            },
    {
        match self.lock_device(address) {
            Ok(()) => {},
            Err(e) => {
                return Err(e);
            },
        }
        if has_nul(message) {
            return Err(CecError::InvalidParams("OSD message contains NUL".to_owned()));
        }
        Ok(
            CecCall::SetOsdString {
                address: address.0,
                duration: duration.0,
                message: message.to_owned(),
            },
        )
    }

    // -- misc ---------------------------------------------------------------

    /// Toggles libcec's monitoring mode.
    pub fn switch_monitoring(&self, enable: bool) -> (r: Result<CecCall, CecError>)
        ensures
            match r {
                Ok(c) => self.bus_fault() is None && c == (CecCall::SwitchMonitoring { enable }),
                Err(e) => self.bus_fault() == Some(e),
            },
    {
        match self.lock_bus() {
            Ok(()) => Ok(CecCall::SwitchMonitoring { enable }),
            Err(e) => Err(e),
        }
    }

    pub fn get_lib_info(&self) -> (r: Result<CecCall, CecError>)
        ensures
            match r {
                Ok(c) => self.api_fault() is None && c == CecCall::LibInfo,
                Err(e) => self.api_fault() == Some(e),
            },
    {
        match self.lock_api() {
            Ok(()) => Ok(CecCall::LibInfo),
            Err(e) => Err(e),
        }
    }

    /// Replaces the running configuration.
    pub fn set_configuration(&self, config: &Configuration) -> (r: Result<CecCall, CecError>)
        ensures
            match r {
                Ok(c) => self.api_fault() is None && (c matches CecCall::SetConfiguration {
                    config: p,
                } && init_matches(*config, p)),
                Err(e) => self.api_fault() == Some(e),
            },
    {
        match self.lock_api() {
            Ok(()) => Ok(CecCall::SetConfiguration { config: init_params(config) }),
            Err(e) => Err(e),
        }
    }

    /// Notes how a configuration change went: the monitor-only flag follows it when it succeeded.
    pub fn configuration_set(&mut self, config: &Configuration, rc: i32) -> (r: Result<
        (),
        CecError,
    >)
        ensures
            match r {
                Ok(()) => rc != 0 && *final(self) == (Connection {
                    monitor_only: config.monitor_only,
                    ..*old(self)
                }),
                Err(e) => rc == 0 && *final(self) == *old(self) && is_failed_call(
                    e,
                    "set configuration"@,
                ),
            },
    {
        if rc == 0 {
            return Err(CecError::LibcecCall("set configuration".to_owned()));
        }
        self.monitor_only = config.monitor_only;
        Ok(())
    }

    pub fn get_current_configuration(&self) -> (r: Result<CecCall, CecError>)
        ensures
            match r {
                Ok(c) => self.api_fault() is None && c == CecCall::CurrentConfiguration,
                Err(e) => self.api_fault() == Some(e),
            },
    {
        match self.lock_api() {
            Ok(()) => Ok(CecCall::CurrentConfiguration),
            Err(e) => Err(e),
        }
    }

    /// The libcec version is read from the running configuration.
    pub fn server_version(&self) -> (r: Result<CecCall, CecError>)
        ensures
            match r {
                Ok(c) => self.api_fault() is None && c == CecCall::CurrentConfiguration,
                Err(e) => self.api_fault() == Some(e),
            },
    {
        self.get_current_configuration()
    }

    /// Switches the input of the base device to an HDMI port (1..=15).
    pub fn set_hdmi_port(&self, base_device: LogicalAddress, port: u8) -> (r: Result<
        CecCall,
        CecError,
    >)
        ensures
            match r {
                Ok(c) => 1 <= port <= 15 && self.bus_fault() is None && c == (
                CecCall::SetHdmiPort { base_device: base_device.0, port }),
                Err(e) => if 1 <= port <= 15 {
                    self.bus_fault() == Some(e)
                } else {
                    e == CecError::InvalidHdmiPort
                },
            },
    {
        if !(1 <= port && port <= 15) {
            return Err(CecError::InvalidHdmiPort);
        }
        match self.lock_bus() {
            Ok(()) => Ok(CecCall::SetHdmiPort { base_device: base_device.0, port }),
            Err(e) => Err(e),
        }
    }

    /// Asks libcec to discover the devices on the bus again. The caller then waits for the settle
    /// time without holding the session.
    pub fn rescan_devices(&self) -> (r: Result<CecCall, CecError>)
        ensures
            match r {
                Ok(c) => self.bus_fault() is None && c == CecCall::RescanDevices,
                Err(e) => self.bus_fault() == Some(e),
            },
    {
        match self.lock_bus() {
            Ok(()) => Ok(CecCall::RescanDevices),
            Err(e) => Err(e),
        }
    }
}

/// The frame that switches System Audio Mode.
pub open spec fn audio_mode_command(enable: bool, first_address: Option<LogicalAddress>) -> CommandV {
    CommandV {
        initiator: match first_address {
            Some(a) => a.0,
            None => LogicalAddress::FREE_USE,
        },
        destination: LogicalAddress::TV,
        opcode: Opcode::SET_SYSTEM_AUDIO_MODE,
        opcode_set: true,
        parameters: seq![if enable { 1u8 } else { 0u8 }],
        ack: false,
        eom: true,
    }
}

fn has_nul(s: &str) -> (r: bool)
    ensures
        r == s@.contains('\0'),
{
    let cs = text::chars_of(s);
    match text::find_char(&cs, 0, '\0') {
        Some(i) => {
            assert(s@[i as int] == '\0');
            true
        },
        None => false,
    }
}

// ---------------------------------------------------------------------------
// Laws
// ---------------------------------------------------------------------------

/// After a close every request of the session is refused as closed, whether or not an adapter was
/// opened, and no callback is let in.
pub proof fn law_closed_session_refuses_all(c: Connection, address: LogicalAddress)
    requires
        c.wf(),
    ensures
        ({
            let t = c.torn_down();
            &&& t.wf()
            &&& !t.lets_in()
            &&& t.api_fault() == Some(CecError::Closed)
            &&& t.bus_fault() == Some(CecError::Closed)
            &&& address.0 <= 14 ==> t.device_fault(address) == Some(CecError::Closed)
            &&& address.0 <= 14 && !t.monitor_only ==> t.send_fault(address) == Some(
                CecError::Closed,
            )
        }),
{
}

/// A second close changes nothing.
pub proof fn law_close_is_idempotent(c: Connection)
    ensures
        c.torn_down().torn_down() == c.torn_down(),
{
}

/// A session is not destroyed under a running callback before the wait is over, and once it is
/// over it is destroyed.
pub proof fn law_destroy_waits_for_callbacks(c: Connection, waited_ms: u64)
    ensures
        c.drain_step(waited_ms) == DrainStep::Destroy <==> c.inflight == 0 || waited_ms
            >= CLOSE_DRAIN_TIMEOUT_MS,
{
}

/// Before an adapter is opened no request that touches the bus is made.
pub proof fn law_no_bus_call_before_open(c: Connection, address: LogicalAddress)
    requires
        !c.opened,
    ensures
        c.bus_fault() is Some,
        c.device_fault(address) is Some,
        c.send_fault(address) is Some,
{
}

/// A session that only listens sends nothing to a device.
pub proof fn law_monitor_only_sends_nothing(c: Connection, address: LogicalAddress)
    requires
        c.monitor_only,
        address.0 <= 14,
    ensures
        c.send_fault(address) == Some(CecError::MonitorOnly),
{
}

/// A call on the bus is let through exactly on a session that is not closed and has an open adapter;
/// one for a device needs an address from 0 to 14 too, and one that puts a frame on the bus a session
/// that does not only listen.
pub proof fn law_what_is_let_through(c: Connection, address: LogicalAddress)
    ensures
        c.bus_fault() is None <==> c.opened && !c.closed,
        c.api_fault() is None <==> !c.closed,
        c.device_fault(address) is None <==> c.opened && !c.closed && address.0 <= 14,
        c.send_fault(address) is None <==> c.opened && !c.closed && address.0 <= 14
            && !c.monitor_only,
        address.0 > 14 ==> c.device_fault(address) == Some(CecError::InvalidLogicalAddress)
            && c.send_fault(address) == Some(CecError::InvalidLogicalAddress),
        c.closed ==> c.bus_fault() == Some(CecError::Closed),
        !c.closed && !c.opened ==> c.bus_fault() == Some(CecError::AdapterNotOpen),
{
}

/// System Audio Mode is switched at the display, on with 1 and off with 0.
pub proof fn law_audio_mode_is_switched_at_the_display(enable: bool, first: Option<LogicalAddress>)
    ensures
        ({
            let cmd = audio_mode_command(enable, first);
            &&& cmd.opcode_set && cmd.opcode == 0x72
            &&& cmd.destination == 0
            &&& cmd.parameters.len() == 1
            &&& (cmd.parameters[0] == 1) == enable && (cmd.parameters[0] == 0) == !enable
            &&& first matches Some(a) ==> cmd.initiator == a.0
            &&& cmd.eom && !cmd.ack
        }),
{
}

/// A closed session has no handle and lets nothing in; closing keeps its id and what it was opened
/// for.
pub proof fn law_closing_ends_the_session(c: Connection)
    requires
        c.wf(),
    ensures
        c.torn_down().closed && !c.torn_down().opened && !c.torn_down().live,
        !c.torn_down().lets_in(),
        c.torn_down().id == c.id && c.torn_down().monitor_only == c.monitor_only
            && c.torn_down().inflight == c.inflight,
{
}

/// What a session is opened with: the name cut to fit, the lists without what is no device, and
/// everything else as configured.
pub proof fn law_session_parameters(c: Configuration, p: InitParams, a: u8)
    requires
        init_matches(c, p),
    ensures
        p.wake@.contains(a) <==> c.wake_devices@.contains(a) && a <= 14,
        p.power_off@.contains(a) <==> c.power_off_devices@.contains(a) && a <= 14,
        p.monitor_only == c.monitor_only,
        p.activate_source == c.activate_source,
        p.hdmi_port == c.hdmi_port,
        p.device_type == c.device_type.0,
        vstd::utf8::encode_utf8(p.device_name@).len() <= 13,
{
    lemma_valid_only(c.wake_devices@, a);
    lemma_valid_only(c.power_off_devices@, a);
}

proof fn lemma_valid_only(v: Seq<u8>, a: u8)
    ensures
        valid_only(v).contains(a) <==> v.contains(a) && a <= 14,
    decreases v.len(),
{
    reveal(Seq::filter);
    if v.len() > 0 {
        let init = v.drop_last();
        lemma_valid_only(init, a);
        assert(v[v.len() - 1] == v.last());
        if init.contains(a) {
            let k = init.index_of(a);
            assert(v[k] == a);
        }
        if v.contains(a) && a != v.last() {
            let k = v.index_of(a);
            assert(init[k] == a);
        }
        let rest = valid_only(init);
        if v.last() <= 14 {
            assert(valid_only(v) == rest.push(v.last()));
            assert(valid_only(v)[rest.len() as int] == v.last());
            if rest.contains(a) {
                let k = rest.index_of(a);
                assert(valid_only(v)[k] == a);
            }
            if valid_only(v).contains(a) && a != v.last() {
                let k = valid_only(v).index_of(a);
                assert(rest[k] == a);
            }
        }
    }
}

/// A fresh session is live and in the mode that was asked for, but not open: no call on the bus
/// goes through before it is opened.
pub proof fn law_fresh_sessions_are_not_open(id: u64, monitor_only: bool, address: LogicalAddress)
    ensures
        ({
            let c = Connection::fresh(id, monitor_only);
            &&& c.id == id
            &&& c.live
            &&& !c.opened
            &&& !c.closed
            &&& !c.closing
            &&& c.inflight == 0
            &&& c.monitor_only == monitor_only
            &&& c.send_fault(address) is Some
            &&& c.lets_in()
        }),
{
}

/// Callbacks are let in until the session begins to close, and never again.
pub proof fn law_closing_shuts_callbacks_out(c: Connection)
    ensures
        c.closing ==> !c.lets_in(),
        c.closed ==> !c.lets_in(),
        !c.closing && !c.closed ==> c.lets_in(),
{
}

} // verus!
