//! Command helpers shared by the JSON API, the UI actions and MQTT, so that every path applies the
//! same checks and the same per-vendor strategies.

use crate::busstate::BusState;
use crate::cec::session::{CecCall, Connection};
use crate::cec::tables::{
    law_key_names_resolve, lemma_key_names_differ, lemma_key_place, lemma_nav_names_are_no_keys,
};
use crate::cec::types::{
    cec_error_text, key_code, keycode_from_name, power_status_display, CecError, Command, CommandV, Keycode, LogicalAddress, Opcode, physical_address_text, PowerStatus, KEY_NAMES,
};
use crate::json;
use crate::json::JsonV;
use crate::steward::{JobKind, Steward};
use crate::strategies::{
    action_at, action_form, action_index, action_named, action_text, default_chain_of,
    lemma_action_place, lemma_plain_form, plain_name, step_views, strategy_views, underscore, Action, Registry, RunOptions,
    Step, StepKind, StepV, StratResult, StratResultV, StratStatus, Strategy, StrategyV,
    ACTION_NAMES,
};
use crate::strategy_run::{skipped, step_target, strat_result_views, ChainRun};
use crate::text;
use crate::time::Timestamp;
use crate::topology::{law_port_of_a_physical_address, port_at};
use vstd::prelude::*;

verus! {

/// How long a registry action may take, in seconds.
pub const ACTION_TIMEOUT_SECS: u64 = 5;

/// Why a command was not carried out.
#[derive(Debug)]
pub enum ExecError {
    AdapterUnavailable,
    InvalidLogicalAddress,
    InvalidHdmiPort,
    InvalidKey,
    /// Neither key nor keycode supplied (keycode 0 means select and must be sent by name).
    MissingKey,
    Cec(CecError),
    Other(String),
}

/// The display text of an error.
pub open spec fn exec_error_text(e: ExecError) -> Seq<char> {
    match e {
        ExecError::AdapterUnavailable => "CEC adapter not available"@,
        ExecError::InvalidLogicalAddress => "invalid logical address"@,
        ExecError::InvalidHdmiPort => "invalid HDMI port"@,
        ExecError::InvalidKey => "invalid key"@,
        ExecError::MissingKey =>
            "either 'key' or 'keycode' must be provided (keycode 0 = select; use key:\"select\")"@,
        ExecError::Cec(e) => cec_error_text(e),
        ExecError::Other(s) => s@,
    }
}

impl ExecError {
    /// The display text.
    pub fn to_string(&self) -> (r: String)
        ensures
            r@ == exec_error_text(*self),
    {
        match self {
            ExecError::AdapterUnavailable => "CEC adapter not available".to_owned(),
            ExecError::InvalidLogicalAddress => "invalid logical address".to_owned(),
            ExecError::InvalidHdmiPort => "invalid HDMI port".to_owned(),
            ExecError::InvalidKey => "invalid key".to_owned(),
            ExecError::MissingKey =>
                "either 'key' or 'keycode' must be provided (keycode 0 = select; use key:\"select\")".to_owned(),
            ExecError::Cec(e) => e.to_string(),
            ExecError::Other(s) => s.clone(),
        }
    }
}

// ---------------------------------------------------------------------------
// Registry actions
// ---------------------------------------------------------------------------

/// The vendor ID of the first cached device with an address, from device `i` on.
pub open spec fn vendor_from(devices: Seq<JsonV>, target: u8, i: int) -> Seq<char>
    decreases devices.len() - i,
{
    if i < 0 || i >= devices.len() {
        Seq::empty()
    } else if json::int_field(devices[i], "logical_address"@) == Some(target as int) {
        match json::text_field(devices[i], "vendor_id"@) {
            Some(v) => v,
            None => Seq::empty(),
        }
    } else {
        vendor_from(devices, target, i + 1)
    }
}

/// The vendor ID of a device; empty where it is not known.
pub open spec fn vendor_of_target(devices: Seq<JsonV>, target: LogicalAddress) -> Seq<char> {
    if target.0 <= 14 {
        vendor_from(devices, target.0, 0)
    } else {
        Seq::empty()
    }
}

/// The vendor ID of a device, out of the cached devices.
pub fn vendor_id_for_target(bus: &BusState, target: LogicalAddress, now: Timestamp) -> (r: String)
    ensures
        r@ == vendor_of_target(bus@.devices, target),
{
    if !target.is_valid() {
        return String::new();
    }
    let snap = bus.copy_snapshot(now);
    let ghost all = bus@.devices;
    let mut i: usize = 0;
    while i < snap.devices.len()
        invariant
            i <= snap.devices@.len(),
            target.0 <= 14,
            all == bus@.devices,
            all == json::jsons(snap.devices@),
            vendor_from(all, target.0, 0) == vendor_from(all, target.0, i as int),
        decreases snap.devices@.len() - i,
    {
        assert(all[i as int] == json::json(snap.devices@[i as int]));
        let d = &snap.devices[i];
        let la: i64 = match json::get_i64(d, "logical_address") {
            Some(la) => la,
            None => -1,
        };
        if la == target.0 as i64 {
            return match json::get_str(d, "vendor_id") {
                Some(v) => v.to_owned(),
                None => String::new(),
            };
        }
        i += 1;
    }
    String::new()
}

/// The vendor whose strategies count for a target.
pub open spec fn action_vendor(devices: Seq<JsonV>, target: Option<LogicalAddress>) -> Seq<char> {
    match target {
        Some(t) => vendor_of_target(devices, t),
        None => Seq::empty(),
    }
}

/// The options that an action is run with: the vendor of the target counts, and the chain ends at
/// the first strategy that works.
pub fn action_options(bus: &BusState, target: Option<LogicalAddress>, now: Timestamp) -> (r:
    RunOptions)
    ensures
        r.vendor@ == action_vendor(bus@.devices, target),
        r.target == target,
        !r.all_strategies,
        r.observe_override_ms == 0,
{
    let vendor = match target {
        Some(t) => vendor_id_for_target(bus, t, now),
        None => String::new(),
    };
    RunOptions { vendor, target, all_strategies: false, observe_override_ms: 0 }
}

/// Begins the run of an action: the chain to run, or the results of a run that is not made.
pub fn run_action(
    monitor_only: bool,
    bus: &BusState,
    registry: &Registry,
    action: Action,
    target: Option<LogicalAddress>,
    now: Timestamp,
) -> (r: Result<ChainRun, Vec<StratResult>>)
    requires
        registry.wf(),
    ensures
        ({
            let chain = registry.chain_for(action_vendor(bus@.devices, target), action);
            match r {
                Ok(c) => !monitor_only && chain.len() > 0 && strategy_views(c.chain@) == chain
                    && c.target == target && c.observe_override_ms == 0 && c.limit_secs
                    == ACTION_TIMEOUT_SECS && !c.all_strategies && c.results@.len() == 0,
                Err(v) => if monitor_only {
                    strat_result_views(v@) == seq![
                        skipped("monitor-only"@, "connection is monitor-only"@),
                    ]
                } else {
                    chain.len() == 0 && strat_result_views(v@) == seq![
                        skipped(
                            action_text(action),
                            "no strategies registered for "@ + action_text(action),
                        ),
                    ]
                },
            }
        }),
{
    let opts = action_options(bus, target, now);
    registry.run(monitor_only, action, &opts, ACTION_TIMEOUT_SECS)
}

/// The name of a status in a summary.
pub open spec fn status_name(s: StratStatus) -> Seq<char> {
    match s {
        StratStatus::Confirmed => "Ok"@,
        StratStatus::AckedNoReply => "AckedNoReply"@,
        StratStatus::FeatureAborted => "FeatureAborted"@,
        StratStatus::NoAck => "NoAck"@,
        StratStatus::Error => "Error"@,
        StratStatus::Skipped => "Skipped"@,
    }
}

fn name_of_status(s: StratStatus) -> (r: &'static str)
    ensures
        r@ == status_name(s),
{
    match s {
        StratStatus::Confirmed => "Ok",
        StratStatus::AckedNoReply => "AckedNoReply",
        StratStatus::FeatureAborted => "FeatureAborted",
        StratStatus::NoAck => "NoAck",
        StratStatus::Error => "Error",
        StratStatus::Skipped => "Skipped",
    }
}

/// The position of the first result that worked, from result `i` on.
pub open spec fn first_confirmed(results: Seq<StratResultV>, i: int) -> Option<int>
    decreases results.len() - i,
{
    if i < 0 || i >= results.len() {
        None
    } else if results[i].status == StratStatus::Confirmed {
        Some(i)
    } else {
        first_confirmed(results, i + 1)
    }
}

/// What is told of the results of an action; nothing where there are none.
pub open spec fn summary(action: Action, results: Seq<StratResultV>) -> Option<Seq<char>> {
    match first_confirmed(results, 0) {
        Some(i) => Some(
            action_text(action) + " ok via "@ + results[i].strategy + " (reply "@
                + results[i].reply_name + ")"@,
        ),
        None => if results.len() == 0 {
            None
        } else {
            Some(
                action_text(action) + " tried "@ + text::dec(results.len())
                    + " strategies; last status="@ + status_name(results.last().status)
                    + " strategy="@ + results.last().strategy,
            )
        },
    }
}

/// A human summary of the results of an action.
pub fn action_summary(action: Action, results: &Vec<StratResult>) -> (r: Result<String, ExecError>)
    ensures
        match r {
            Ok(s) => summary(action, strat_result_views(results@)) == Some(s@),
            Err(e) => summary(action, strat_result_views(results@)) is None && (
            e matches ExecError::Other(m) && m@ == "no strategies for "@ + action_text(action)),
        },
{
    let ghost rv = strat_result_views(results@);
    let mut i: usize = 0;
    while i < results.len()
        invariant
            i <= results@.len(),
            rv == strat_result_views(results@),
            first_confirmed(rv, 0) == first_confirmed(rv, i as int),
        decreases results@.len() - i,
    {
        assert(rv[i as int] == results@[i as int]@);
        if let StratStatus::Confirmed = results[i].status {
            let mut m = text::concat3(action.as_str(), " ok via ", results[i].strategy.as_str());
            m.append(" (reply ");
            m.append(results[i].reply_name.as_str());
            m.append(")");
            return Ok(m);
        }
        i += 1;
    }
    let n: usize = results.len();
    if n == 0 {
        return Err(ExecError::Other(text::concat("no strategies for ", action.as_str())));
    }
    assert(rv.last() == results@[n - 1]@);
    let mut m = text::concat3(action.as_str(), " tried ", text::dec_u64(n as u64).as_str());
    m.append(" strategies; last status=");
    m.append(name_of_status(results[n - 1].status));
    m.append(" strategy=");
    m.append(results[n - 1].strategy.as_str());
    Ok(m)
}

/// Asks for a light rebuild after a command.
pub fn post_command_refresh(steward: &mut Steward)
    requires
        old(steward).wf(),
    ensures
        final(steward).wf(),
        final(steward)@ == old(steward)@.offered(JobKind::Light),
{
    let _queued = steward.enqueue(JobKind::Light);
}

// ---------------------------------------------------------------------------
// Single commands
// ---------------------------------------------------------------------------

/// Why a command for a device is refused before the session is asked.
pub open spec fn device_refusal(session: Option<Connection>, addr: i32) -> Option<ExecError> {
    if !(0 <= addr <= 14) {
        Some(ExecError::InvalidLogicalAddress)
    } else if session is None {
        Some(ExecError::AdapterUnavailable)
    } else {
        None
    }
}

/// `r` is the call that a device command makes, or the reason why it is refused.
pub open spec fn device_command(
    session: Option<Connection>,
    addr: i32,
    call: CecCall,
    r: Result<CecCall, ExecError>,
) -> bool {
    match device_refusal(session, addr) {
        Some(e) => r == Err::<CecCall, ExecError>(e),
        None => match session->0.device_fault(LogicalAddress(addr as u8)) {
            Some(e) => r == Err::<CecCall, ExecError>(ExecError::Cec(e)),
            None => r == Ok::<CecCall, ExecError>(call),
        },
    }
}

/// What a session holds, where there is one.
pub open spec fn session_view(session: Option<&Connection>) -> Option<Connection> {
    match session {
        Some(c) => Some(*c),
        None => None,
    }
}

fn live<'a>(session: Option<&'a Connection>, addr: i32) -> (r: Result<
    (&'a Connection, LogicalAddress),
    ExecError,
>)
    ensures
        match r {
            Ok((c, a)) => device_refusal(session_view(session), addr) is None && session == Some(c)
                && a.0 == addr as u8 && a.0 <= 14,
            Err(e) => device_refusal(session_view(session), addr) == Some(e),
        },
{
    if !(0 <= addr && addr <= 14) {
        return Err(ExecError::InvalidLogicalAddress);
    }
    match session {
        Some(c) => Ok((c, LogicalAddress(addr as u8))),
        None => Err(ExecError::AdapterUnavailable),
    }
}

fn exec_result(r: Result<CecCall, CecError>) -> (o: Result<CecCall, ExecError>)
    ensures
        match r {
            Ok(c) => o == Ok::<CecCall, ExecError>(c),
            Err(e) => o == Err::<CecCall, ExecError>(ExecError::Cec(e)),
        },
{
    match r {
        Ok(c) => Ok(c),
        Err(e) => Err(ExecError::Cec(e)),
    }
}

/// Powers on a device.
pub fn power_on(session: Option<&Connection>, addr: i32) -> (r: Result<CecCall, ExecError>)
    ensures
        device_command(
            session_view(session),
            addr,
            (CecCall::PowerOn { address: addr as u8 }),
            r,
        ),
{
    match live(session, addr) {
        Ok((c, a)) => exec_result(c.power_on(a)),
        Err(e) => Err(e),
    }
}

/// Puts a device in standby.
pub fn power_off(session: Option<&Connection>, addr: i32) -> (r: Result<CecCall, ExecError>)
    ensures
        device_command(
            session_view(session),
            addr,
            (CecCall::Standby { address: addr as u8 }),
            r,
        ),
{
    match live(session, addr) {
        Ok((c, a)) => exec_result(c.standby(a)),
        Err(e) => Err(e),
    }
}

/// Asks for the power status of a device.
pub fn power_status(session: Option<&Connection>, addr: i32) -> (r: Result<CecCall, ExecError>)
    ensures
        device_command(
            session_view(session),
            addr,
            (CecCall::PowerStatus { address: addr as u8 }),
            r,
        ),
{
    match live(session, addr) {
        Ok((c, a)) => exec_result(c.get_device_power_status(a)),
        Err(e) => Err(e),
    }
}

/// The text of a power status that came back.
pub fn power_status_reply(status: Result<PowerStatus, CecError>) -> (r: Result<String, ExecError>)
    ensures
        match (status, r) {
            (Ok(p), Ok(s)) => s@ == power_status_display(p.0),
            (Err(e), Err(x)) => x == ExecError::Cec(e),
            _ => false,
        },
{
    match status {
        Ok(p) => Ok(p.to_string()),
        Err(e) => Err(ExecError::Cec(e)),
    }
}

/// The target of a volume action: none for the default chain, or a device address.
pub fn volume_target(addr: Option<i32>) -> (r: Result<Option<LogicalAddress>, ExecError>)
    ensures
        match addr {
            None => r == Ok::<Option<LogicalAddress>, ExecError>(None),
            Some(a) => if 0 <= a <= 14 {
                r == Ok::<Option<LogicalAddress>, ExecError>(Some(LogicalAddress(a as u8)))
            } else {
                r == Err::<Option<LogicalAddress>, ExecError>(ExecError::InvalidLogicalAddress)
            },
        },
{
    match addr {
        None => Ok(None),
        Some(a) => {
            if !(0 <= a && a <= 14) {
                return Err(ExecError::InvalidLogicalAddress);
            }
            Ok(Some(LogicalAddress(a as u8)))
        },
    }
}

/// Whether the steps of a kind address a device.
pub open spec fn addresses_device(kind: StepKind) -> bool {
    match kind {
        StepKind::SendUserControl | StepKind::Transmit | StepKind::LibcecPowerOn
        | StepKind::LibcecStandby => true,
        _ => false,
    }
}

/// A step sent to a device, where it addresses one.
pub open spec fn forced_step(st: StepV, a: u8) -> StepV {
    if addresses_device(st.kind) {
        StepV { target: a, ..st }
    } else {
        st
    }
}

/// A chain with every step that addresses a device sent to the given one.
pub open spec fn forced_chain(chain: Seq<StrategyV>, a: u8) -> Seq<StrategyV> {
    chain.map_values(
        |s: StrategyV|
            StrategyV { steps: s.steps.map_values(|st: StepV| forced_step(st, a)), ..s },
    )
}

fn force_steps(steps: &Vec<Step>, a: LogicalAddress) -> (r: Vec<Step>)
    ensures
        step_views(r@) == step_views(steps@).map_values(|st: StepV| forced_step(st, a.0)),
{
    let ghost all = step_views(steps@).map_values(|st: StepV| forced_step(st, a.0));
    let mut out: Vec<Step> = Vec::new();
    let mut i: usize = 0;
    while i < steps.len()
        invariant
            i <= steps@.len(),
            all == step_views(steps@).map_values(|st: StepV| forced_step(st, a.0)),
            step_views(out@) == all.take(i as int),
        decreases steps@.len() - i,
    {
        let ghost before = step_views(out@);
        let mut st = steps[i].clone();
        match st.kind {
            StepKind::SendUserControl | StepKind::Transmit | StepKind::LibcecPowerOn
            | StepKind::LibcecStandby => {
                st.target = a;
            },
            _ => {},
        }
        let ghost sv = st@;
        assert(sv == all[i as int]);
        out.push(st);
        i += 1;
        assert(step_views(out@) =~= before.push(sv));
        assert(step_views(out@) =~= all.take(i as int));
    }
    assert(all.take(i as int) =~= all);
    out
}

fn force_target(chain: &Vec<Strategy>, a: LogicalAddress) -> (r: Vec<Strategy>)
    ensures
        strategy_views(r@) == forced_chain(strategy_views(chain@), a.0),
{
    let ghost all = forced_chain(strategy_views(chain@), a.0);
    let mut out: Vec<Strategy> = Vec::new();
    let mut i: usize = 0;
    while i < chain.len()
        invariant
            i <= chain@.len(),
            all == forced_chain(strategy_views(chain@), a.0),
            strategy_views(out@) == all.take(i as int),
        decreases chain@.len() - i,
    {
        let ghost before = strategy_views(out@);
        let s = Strategy {
            name: chain[i].name.clone(),
            steps: force_steps(&chain[i].steps, a),
            observe_ms: chain[i].observe_ms,
        };
        let ghost sv = s@;
        assert(sv == all[i as int]);
        out.push(s);
        i += 1;
        assert(strategy_views(out@) =~= before.push(sv));
        assert(strategy_views(out@) =~= all.take(i as int));
    }
    assert(all.take(i as int) =~= all);
    out
}

/// Begins a volume or mute action. Without an address the default chain is run as it is; an
/// address forces the target: every step that addresses a device goes to it.
pub fn volume_action(
    monitor_only: bool,
    bus: &BusState,
    registry: &Registry,
    action: Action,
    addr: Option<i32>,
    now: Timestamp,
) -> (r: Result<Result<ChainRun, Vec<StratResult>>, ExecError>)
    requires
        registry.wf(),
    ensures
        ({
            let target = match addr {
                Some(a) => Some(LogicalAddress(a as u8)),
                None => None,
            };
            let chain = registry.chain_for(action_vendor(bus@.devices, target), action);
            match r {
                Err(e) => (addr matches Some(a) && !(0 <= a <= 14)) && e
                    == ExecError::InvalidLogicalAddress,
                Ok(run) => (addr matches Some(a) ==> 0 <= a <= 14) && match run {
                    Ok(c) => !monitor_only && chain.len() > 0 && strategy_views(c.chain@) == (
                    match addr {
                        Some(a) => forced_chain(chain, a as u8),
                        None => chain,
                    }) && c.target == target && c.observe_override_ms == 0 && c.limit_secs
                        == ACTION_TIMEOUT_SECS && !c.all_strategies && c.results@.len() == 0,
                    Err(v) => strat_result_views(v@) == seq![
                        if monitor_only {
                            skipped("monitor-only"@, "connection is monitor-only"@)
                        } else {
                            skipped(
                                action_text(action),
                                "no strategies registered for "@ + action_text(action),
                            )
                        },
                    ] && (monitor_only || chain.len() == 0),
                },
            }
        }),
{
    let target = match volume_target(addr) {
        Ok(target) => target,
        Err(e) => {
            return Err(e);
        },
    };
    match run_action(monitor_only, bus, registry, action, target, now) {
        Ok(c) => match target {
            Some(a) => {
                let chain = force_target(&c.chain, a);
                Ok(Ok(ChainRun { chain, ..c }))
            },
            None => Ok(Ok(c)),
        },
        Err(v) => Ok(Err(v)),
    }
}

/// A volume or mute action with an address puts nothing on the bus for any other device: every
/// step that addresses a device addresses that one, whatever the chain of the vendor names.
pub proof fn law_volume_address_forces_the_target(chain: Seq<StrategyV>, a: u8, i: int, j: int)
    requires
        0 <= i < chain.len(),
        0 <= j < chain[i].steps.len(),
        a <= 14,
        addresses_device(chain[i].steps[j].kind),
    ensures
        forced_chain(chain, a).len() == chain.len(),
        forced_chain(chain, a)[i].name == chain[i].name,
        forced_chain(chain, a)[i].steps.len() == chain[i].steps.len(),
        step_target(forced_chain(chain, a)[i].steps[j], Some(a)) == a,
{
}

/// Begins a switch to a device: its physical address is asked for first.
pub fn set_active_source(session: Option<&Connection>, addr: i32) -> (r: Result<CecCall, ExecError>)
    ensures
        device_command(
            session_view(session),
            addr,
            (CecCall::PhysicalAddress { address: addr as u8 }),
            r,
        ),
{
    match live(session, addr) {
        Ok((c, a)) => exec_result(switch_to_device(c, a)),
        Err(e) => Err(e),
    }
}

/// Begins a switch of the display to an HDMI port.
pub fn hdmi_port(session: Option<&Connection>, port: i32) -> (r: Result<CecCall, ExecError>)
    ensures
        if !(1 <= port <= 15) {
            r == Err::<CecCall, ExecError>(ExecError::InvalidHdmiPort)
        } else {
            match session_view(session) {
                None => r == Err::<CecCall, ExecError>(ExecError::AdapterUnavailable),
                Some(c) => match port_fault(c) {
                    Some(e) => r == Err::<CecCall, ExecError>(ExecError::Cec(e)),
                    None => r == Ok::<CecCall, ExecError>(
                        CecCall::SetHdmiPort { base_device: 0, port: port as u8 },
                    ),
                },
            }
        },
{
    if !(1 <= port && port <= 15) {
        return Err(ExecError::InvalidHdmiPort);
    }
    match session {
        Some(c) => exec_result(switch_to_hdmi_port(c, port as u8)),
        None => Err(ExecError::AdapterUnavailable),
    }
}

/// Why neither way to switch the display to a port is open: what the second way is refused for,
/// where the first is refused.
pub open spec fn port_fault(c: Connection) -> Option<CecError> {
    match c.bus_fault() {
        Some(e) => Some(
            if c.monitor_only {
                CecError::MonitorOnly
            } else {
                e
            },
        ),
        None => None,
    }
}

/// The first way to switch the display to a port: libcec's own port switch.
pub fn switch_to_hdmi_port(c: &Connection, port: u8) -> (r: Result<CecCall, CecError>)
    ensures
        match r {
            Ok(call) => 1 <= port <= 15 && c.bus_fault() is None && call == (CecCall::SetHdmiPort {
                base_device: 0,
                port,
            }),
            Err(e) => if 1 <= port <= 15 {
                port_fault(*c) == Some(e)
            } else {
                e == CecError::InvalidHdmiPort
            },
        },
{
    match c.set_hdmi_port(LogicalAddress(LogicalAddress::TV), port) {
        Ok(call) => Ok(call),
        Err(e) => if 1 <= port && port <= 15 && c.is_monitor_only() {
            Err(CecError::MonitorOnly)
        } else {
            Err(e)
        },
    }
}

/// The broadcast that makes the device at a physical address the active source.
pub open spec fn active_source_command(phys: u16, first: Option<LogicalAddress>) -> CommandV {
    CommandV {
        initiator: match first {
            Some(a) => a.0,
            None => LogicalAddress::FREE_USE,
        },
        destination: LogicalAddress::BROADCAST,
        opcode: Opcode::ACTIVE_SOURCE,
        opcode_set: true,
        parameters: seq![(phys / 256) as u8, (phys % 256) as u8],
        ack: false,
        eom: true,
    }
}

fn announce_source(c: &Connection, phys: u16, first: Option<LogicalAddress>) -> (r: Result<
    CecCall,
    CecError,
>)
    requires
        first matches Some(a) ==> a.0 <= 15,
    ensures
        match r {
            Ok(call) => !c.monitor_only && c.bus_fault() is None && (
            call matches CecCall::Transmit { command } && command@ == active_source_command(
                phys,
                first,
            )),
            Err(e) => if c.monitor_only {
                e == CecError::MonitorOnly
            } else {
                c.bus_fault() == Some(e)
            },
        },
{
    let initiator = match first {
        Some(a) => a,
        None => LogicalAddress(LogicalAddress::FREE_USE),
    };
    let mut parameters: Vec<u8> = Vec::new();
    parameters.push((phys / 256) as u8);
    parameters.push((phys % 256) as u8);
    let cmd = Command {
        initiator,
        destination: LogicalAddress(LogicalAddress::BROADCAST),
        opcode: Opcode(Opcode::ACTIVE_SOURCE),
        opcode_set: true,
        parameters,
        ack: false,
        eom: true,
    };
    assert(cmd@.parameters =~= active_source_command(phys, first).parameters);
    c.transmit(&cmd)
}

/// The physical address of what is plugged into a port of the display.
pub open spec fn port_address(port: u8) -> u16 {
    (port * 4096) as u16
}

/// The second way to switch the display to a port, where the first failed: an active-source
/// broadcast for the port. `first` is the adapter's primary address.
pub fn hdmi_port_fallback(c: &Connection, port: u8, first: Option<LogicalAddress>) -> (r: Result<
    CecCall,
    CecError,
>)
    requires
        1 <= port <= 15,
        first matches Some(a) ==> a.0 <= 15,
    ensures
        match r {
            Ok(call) => !c.monitor_only && c.bus_fault() is None && (
            call matches CecCall::Transmit { command } && command@ == active_source_command(
                port_address(port),
                first,
            )),
            Err(e) => if c.monitor_only {
                e == CecError::MonitorOnly
            } else {
                c.bus_fault() == Some(e)
            },
        },
{
    announce_source(c, port as u16 * 4096, first)
}

/// What follows the first way to switch the display to a port: nothing where it went well, the
/// second way where it did not.
pub fn after_port_switch(
    c: &Connection,
    port: u8,
    first: Option<LogicalAddress>,
    outcome: Result<(), CecError>,
) -> (r: Result<Option<CecCall>, CecError>)
    requires
        1 <= port <= 15,
        first matches Some(a) ==> a.0 <= 15,
    ensures
        match (outcome, r) {
            (Ok(()), Ok(None)) => true,
            (Err(_), Ok(Some(call))) => !c.monitor_only && c.bus_fault() is None && (
            call matches CecCall::Transmit { command } && command@ == active_source_command(
                port_address(port),
                first,
            )),
            (Err(_), Err(e)) => if c.monitor_only {
                e == CecError::MonitorOnly
            } else {
                c.bus_fault() == Some(e)
            },
            _ => false,
        },
{
    match outcome {
        Ok(()) => Ok(None),
        Err(_) => match hdmi_port_fallback(c, port, first) {
            Ok(call) => Ok(Some(call)),
            Err(e) => Err(e),
        },
    }
}

/// Begins a switch to a device: its physical address is asked for first.
pub fn switch_to_device(c: &Connection, address: LogicalAddress) -> (r: Result<CecCall, CecError>)
    ensures
        match r {
            Ok(call) => c.device_fault(address) is None && call == (CecCall::PhysicalAddress {
                address: address.0,
            }),
            Err(e) => c.device_fault(address) == Some(e),
        },
{
    c.get_device_physical_address(address)
}

/// Ends a switch to a device: an active-source broadcast of its physical address.
pub fn switch_to_physical(c: &Connection, phys: u16, first: Option<LogicalAddress>) -> (r: Result<
    CecCall,
    CecError,
>)
    requires
        first matches Some(a) ==> a.0 <= 15,
    ensures
        match r {
            Ok(call) => !c.monitor_only && c.bus_fault() is None && (
            call matches CecCall::Transmit { command } && command@ == active_source_command(
                phys,
                first,
            )),
            Err(e) => if c.monitor_only {
                e == CecError::MonitorOnly
            } else {
                c.bus_fault() == Some(e)
            },
        },
{
    announce_source(c, phys, first)
}

// ---------------------------------------------------------------------------
// Keys
// ---------------------------------------------------------------------------

/// The action that a key in canonical form stands for.
pub open spec fn action_of_key(n: Seq<char>) -> Option<Action> {
    if n == "volume_up"@ {
        Some(Action::VolumeUp)
    } else if n == "volume_down"@ {
        Some(Action::VolumeDown)
    } else if n == "mute"@ {
        Some(Action::Mute)
    } else if n == "up"@ || n == "nav_up"@ {
        Some(Action::NavUp)
    } else if n == "down"@ || n == "nav_down"@ {
        Some(Action::NavDown)
    } else if n == "left"@ || n == "nav_left"@ {
        Some(Action::NavLeft)
    } else if n == "right"@ || n == "nav_right"@ {
        Some(Action::NavRight)
    } else if n == "select"@ || n == "enter"@ {
        Some(Action::Select)
    } else if n == "back"@ || n == "exit"@ {
        Some(Action::Back)
    } else if n == "home"@ || n == "root_menu"@ {
        Some(Action::Home)
    } else if n == "menu"@ || n == "setup_menu"@ {
        Some(Action::Menu)
    } else if n == "channel_up"@ {
        Some(Action::ChannelUp)
    } else if n == "channel_down"@ {
        Some(Action::ChannelDown)
    } else if n == "play"@ {
        Some(Action::Play)
    } else if n == "pause"@ {
        Some(Action::Pause)
    } else if n == "stop"@ {
        Some(Action::Stop)
    } else if n == "fast_forward"@ {
        Some(Action::FastForward)
    } else if n == "rewind"@ {
        Some(Action::Rewind)
    } else if n == "record"@ {
        Some(Action::Record)
    } else {
        None
    }
}

fn action_of(n: &str) -> (r: Option<Action>)
    ensures
        r == action_of_key(n@),
{
    if text::str_eq(n, "volume_up") {
        Some(Action::VolumeUp)
    } else if text::str_eq(n, "volume_down") {
        Some(Action::VolumeDown)
    } else if text::str_eq(n, "mute") {
        Some(Action::Mute)
    } else if text::str_eq(n, "up") || text::str_eq(n, "nav_up") {
        Some(Action::NavUp)
    } else if text::str_eq(n, "down") || text::str_eq(n, "nav_down") {
        Some(Action::NavDown)
    } else if text::str_eq(n, "left") || text::str_eq(n, "nav_left") {
        Some(Action::NavLeft)
    } else if text::str_eq(n, "right") || text::str_eq(n, "nav_right") {
        Some(Action::NavRight)
    } else if text::str_eq(n, "select") || text::str_eq(n, "enter") {
        Some(Action::Select)
    } else if text::str_eq(n, "back") || text::str_eq(n, "exit") {
        Some(Action::Back)
    } else if text::str_eq(n, "home") || text::str_eq(n, "root_menu") {
        Some(Action::Home)
    } else if text::str_eq(n, "menu") || text::str_eq(n, "setup_menu") {
        Some(Action::Menu)
    } else if text::str_eq(n, "channel_up") {
        Some(Action::ChannelUp)
    } else if text::str_eq(n, "channel_down") {
        Some(Action::ChannelDown)
    } else if text::str_eq(n, "play") {
        Some(Action::Play)
    } else if text::str_eq(n, "pause") {
        Some(Action::Pause)
    } else if text::str_eq(n, "stop") {
        Some(Action::Stop)
    } else if text::str_eq(n, "fast_forward") {
        Some(Action::FastForward)
    } else if text::str_eq(n, "rewind") {
        Some(Action::Rewind)
    } else if text::str_eq(n, "record") {
        Some(Action::Record)
    } else {
        None
    }
}

/// The action that a key stands for: such a key is sent by the strategies of the action.
pub fn key_to_action(name: &str) -> (r: Option<Action>)
    ensures
        r == action_of_key(action_form(name@)),
{
    let n = underscore(text::to_lowercase(text::trim(name)).as_str());
    action_of(n.as_str())
}

/// Why key arguments are refused.
pub open spec fn key_fault(addr: i32, key_name: Seq<char>, keycode: i32) -> Option<ExecError> {
    if !(0 <= addr <= 14) {
        Some(ExecError::InvalidLogicalAddress)
    } else if key_name.len() > 0 {
        if action_of_key(action_form(key_name)) is Some || key_code(key_name) is Some {
            None
        } else {
            Some(ExecError::InvalidKey)
        }
    } else if keycode == 0 {
        Some(ExecError::MissingKey)
    } else if 0 <= keycode <= 255 {
        None
    } else {
        Some(ExecError::InvalidKey)
    }
}

/// Checks key arguments without touching the adapter, so that a request with bad arguments is
/// refused as such even when the bus is down.
pub fn validate_key_args(addr: i32, key_name: &str, keycode: i32) -> (r: Result<(), ExecError>)
    ensures
        match r {
            Ok(()) => key_fault(addr, key_name@, keycode) is None,
            Err(e) => key_fault(addr, key_name@, keycode) == Some(e),
        },
{
    if !(0 <= addr && addr <= 14) {
        return Err(ExecError::InvalidLogicalAddress);
    }
    if !key_name.is_empty() {
        if key_to_action(key_name).is_some() || keycode_from_name(key_name).is_some() {
            return Ok(());
        }
        return Err(ExecError::InvalidKey);
    }
    if keycode != 0 {
        if !(0 <= keycode && keycode <= 255) {
            return Err(ExecError::InvalidKey);
        }
        return Ok(());
    }
    Err(ExecError::MissingKey)
}

/// How a key is sent.
#[derive(Debug)]
pub enum KeyPlan {
    /// By the strategies of an action.
    Run { action: Action, target: LogicalAddress },
    /// By a single call; the answer is "key sent".
    Press { call: CecCall },
}

/// The code that a key is sent with where it stands for no action: by its name, or the given one.
pub open spec fn sent_code(key_name: Seq<char>, keycode: i32) -> Keycode {
    if key_name.len() > 0 {
        key_code(key_name)->0
    } else {
        Keycode(keycode as u8)
    }
}

/// How a key is sent, by its name or by a raw keycode. Keycode 0 is rejected: it means select and
/// must be sent by name.
pub fn send_key(session: Option<&Connection>, addr: i32, key_name: &str, keycode: i32) -> (r:
    Result<KeyPlan, ExecError>)
    ensures
        match key_fault(addr, key_name@, keycode) {
            Some(e) => r == Err::<KeyPlan, ExecError>(e),
            None => match session_view(session) {
                None => r == Err::<KeyPlan, ExecError>(ExecError::AdapterUnavailable),
                Some(c) => match action_of_key(action_form(key_name@)) {
                    Some(action) if key_name@.len() > 0 => r == Ok::<KeyPlan, ExecError>(
                        KeyPlan::Run { action, target: LogicalAddress(addr as u8) },
                    ),
                    _ => match c.send_fault(LogicalAddress(addr as u8)) {
                        Some(e) => r == Err::<KeyPlan, ExecError>(ExecError::Cec(e)),
                        None => r == Ok::<KeyPlan, ExecError>(
                            KeyPlan::Press {
                                call: CecCall::SendKeypress {
                                    address: addr as u8,
                                    key: sent_code(key_name@, keycode).0,
                                    wait: true,
                                },
                            },
                        ),
                    },
                },
            },
        },
{
    match validate_key_args(addr, key_name, keycode) {
        Ok(()) => {},
        Err(e) => {
            return Err(e);
        },
    }
    let conn = match session {
        Some(c) => c,
        None => {
            return Err(ExecError::AdapterUnavailable);
        },
    };
    let target = LogicalAddress(addr as u8);
    let key = if !key_name.is_empty() {
        if let Some(action) = key_to_action(key_name) {
            return Ok(KeyPlan::Run { action, target });
        }
        match keycode_from_name(key_name) {
            Some(k) => k,
            None => {
                return Err(ExecError::InvalidKey);
            },
        }
    } else {
        Keycode(keycode as u8)
    };
    match conn.send_keypress(target, key, true) {
        Ok(call) => Ok(KeyPlan::Press { call }),
        Err(e) => Err(ExecError::Cec(e)),
    }
}

/// Keycode 0 is never sent as a raw code: it is refused, whatever the session.
pub proof fn law_keycode_zero_is_rejected(addr: i32)
    requires
        0 <= addr <= 14,
    ensures
        key_fault(addr, Seq::empty(), 0) == Some(ExecError::MissingKey),
{
}

/// Volume level, mute flag and raw byte of the audio status that came back; zeros where none did.
pub fn audio_status(reply: Option<(u8, bool, u8)>) -> (r: (u8, bool, u8))
    ensures
        r == (match reply {
            Some(t) => t,
            None => (0u8, false, 0u8),
        }),
{
    match reply {
        Some(t) => t,
        None => (0, false, 0),
    }
}

// ---------------------------------------------------------------------------
// Laws of switching
// ---------------------------------------------------------------------------

/// A switch tells every device on the bus which physical address is the active source: the two
/// parameters of the broadcast, read as one number, are that address, so that different addresses
/// are told apart.
pub proof fn law_switch_announces_the_address(phys: u16, other: u16, first: Option<LogicalAddress>)
    ensures
        ({
            let cmd = active_source_command(phys, first);
            &&& cmd.parameters.len() == 2
            &&& cmd.parameters[0] * 256 + cmd.parameters[1] == phys
            &&& cmd.destination == 15
            &&& cmd.opcode_set && cmd.opcode == 0x82
            &&& first matches Some(a) ==> cmd.initiator == a.0
            &&& cmd.parameters == active_source_command(other, first).parameters ==> phys == other
        }),
{
    let o = active_source_command(other, first).parameters;
    assert(o[0] * 256 + o[1] == other);
}

// ---------------------------------------------------------------------------
// Laws of keys
// ---------------------------------------------------------------------------

/// The action of the entry `i` of the key table.
spec fn key_action(i: int) -> Option<Action> {
        if i == 0 || i == 17 {
            Some(Action::Select)
        } else if i == 1 {
            Some(Action::NavUp)
        } else if i == 2 {
            Some(Action::NavDown)
        } else if i == 3 {
            Some(Action::NavLeft)
        } else if i == 4 {
            Some(Action::NavRight)
        } else if i == 9 || i == 10 {
            Some(Action::Home)
        } else if i == 11 || i == 12 {
            Some(Action::Menu)
        } else if i == 15 || i == 16 {
            Some(Action::Back)
        } else if i == 30 {
            Some(Action::ChannelUp)
        } else if i == 31 {
            Some(Action::ChannelDown)
        } else if i == 40 {
            Some(Action::VolumeUp)
        } else if i == 41 {
            Some(Action::VolumeDown)
        } else if i == 42 {
            Some(Action::Mute)
        } else if i == 43 {
            Some(Action::Play)
        } else if i == 44 {
            Some(Action::Stop)
        } else if i == 45 {
            Some(Action::Pause)
        } else if i == 46 {
            Some(Action::Record)
        } else if i == 47 {
            Some(Action::Rewind)
        } else if i == 48 {
            Some(Action::FastForward)
        } else {
            None
        }
}

proof fn lemma_key_action(n: Seq<char>, i: int)
    requires
        0 <= i < 59,
        KEY_NAMES@[i].0@ == n,
        key_code(n) is Some,
    ensures
        action_of_key(n) == key_action(i),
{
    if n == "nav_up"@ || n == "nav_down"@ || n == "nav_left"@ || n == "nav_right"@ {
        lemma_nav_names_are_no_keys(n);
    }
    assert(KEY_NAMES@[0].0@ == "select"@);
    if n == "select"@ {
        lemma_key_names_differ(i, 0);
    }
    assert(KEY_NAMES@[1].0@ == "up"@);
    if n == "up"@ {
        lemma_key_names_differ(i, 1);
    }
    assert(KEY_NAMES@[2].0@ == "down"@);
    if n == "down"@ {
        lemma_key_names_differ(i, 2);
    }
    assert(KEY_NAMES@[3].0@ == "left"@);
    if n == "left"@ {
        lemma_key_names_differ(i, 3);
    }
    assert(KEY_NAMES@[4].0@ == "right"@);
    if n == "right"@ {
        lemma_key_names_differ(i, 4);
    }
    assert(KEY_NAMES@[9].0@ == "root_menu"@);
    if n == "root_menu"@ {
        lemma_key_names_differ(i, 9);
    }
    assert(KEY_NAMES@[10].0@ == "home"@);
    if n == "home"@ {
        lemma_key_names_differ(i, 10);
    }
    assert(KEY_NAMES@[11].0@ == "setup_menu"@);
    if n == "setup_menu"@ {
        lemma_key_names_differ(i, 11);
    }
    assert(KEY_NAMES@[12].0@ == "menu"@);
    if n == "menu"@ {
        lemma_key_names_differ(i, 12);
    }
    assert(KEY_NAMES@[15].0@ == "exit"@);
    if n == "exit"@ {
        lemma_key_names_differ(i, 15);
    }
    assert(KEY_NAMES@[16].0@ == "back"@);
    if n == "back"@ {
        lemma_key_names_differ(i, 16);
    }
    assert(KEY_NAMES@[17].0@ == "enter"@);
    if n == "enter"@ {
        lemma_key_names_differ(i, 17);
    }
    assert(KEY_NAMES@[30].0@ == "channel_up"@);
    if n == "channel_up"@ {
        lemma_key_names_differ(i, 30);
    }
    assert(KEY_NAMES@[31].0@ == "channel_down"@);
    if n == "channel_down"@ {
        lemma_key_names_differ(i, 31);
    }
    assert(KEY_NAMES@[40].0@ == "volume_up"@);
    if n == "volume_up"@ {
        lemma_key_names_differ(i, 40);
    }
    assert(KEY_NAMES@[41].0@ == "volume_down"@);
    if n == "volume_down"@ {
        lemma_key_names_differ(i, 41);
    }
    assert(KEY_NAMES@[42].0@ == "mute"@);
    if n == "mute"@ {
        lemma_key_names_differ(i, 42);
    }
    assert(KEY_NAMES@[43].0@ == "play"@);
    if n == "play"@ {
        lemma_key_names_differ(i, 43);
    }
    assert(KEY_NAMES@[44].0@ == "stop"@);
    if n == "stop"@ {
        lemma_key_names_differ(i, 44);
    }
    assert(KEY_NAMES@[45].0@ == "pause"@);
    if n == "pause"@ {
        lemma_key_names_differ(i, 45);
    }
    assert(KEY_NAMES@[46].0@ == "record"@);
    if n == "record"@ {
        lemma_key_names_differ(i, 46);
    }
    assert(KEY_NAMES@[47].0@ == "rewind"@);
    if n == "rewind"@ {
        lemma_key_names_differ(i, 47);
    }
    assert(KEY_NAMES@[48].0@ == "fast_forward"@);
    if n == "fast_forward"@ {
        lemma_key_names_differ(i, 48);
    }
}

/// Whether the keys that a chain of strategies presses are all of one code.
pub open spec fn presses_only(chain: Seq<StrategyV>, code: u8) -> bool {
    forall|i: int, j: int|
        0 <= i < chain.len() && 0 <= j < chain[i].steps.len() && (#[trigger] chain[i].steps[j]).kind
            == StepKind::SendUserControl ==> chain[i].steps[j].key == code
}

/// Whether a chain of strategies presses a key of a code first.
pub open spec fn presses_first(chain: Seq<StrategyV>, code: u8) -> bool {
    chain.len() > 0 && chain[0].steps.len() > 0 && chain[0].steps[0].kind
        == StepKind::SendUserControl && chain[0].steps[0].key == code
}

proof fn lemma_action_codes(i: int)
    requires
        0 <= i < 59,
        key_action(i) is Some,
        i != 17,
    ensures
        presses_only(default_chain_of(key_action(i)->0), KEY_NAMES@[i].1),
        presses_first(default_chain_of(key_action(i)->0), KEY_NAMES@[i].1),
{
    if i == 0 {
        assert(KEY_NAMES@[0].1 == Keycode::SELECT);
    } else if i == 1 {
        assert(KEY_NAMES@[1].1 == Keycode::UP);
    } else if i == 2 {
        assert(KEY_NAMES@[2].1 == Keycode::DOWN);
    } else if i == 3 {
        assert(KEY_NAMES@[3].1 == Keycode::LEFT);
    } else if i == 4 {
        assert(KEY_NAMES@[4].1 == Keycode::RIGHT);
    } else if i == 9 {
        assert(KEY_NAMES@[9].1 == Keycode::ROOT_MENU);
    } else if i == 10 {
        assert(KEY_NAMES@[10].1 == Keycode::ROOT_MENU);
    } else if i == 11 {
        assert(KEY_NAMES@[11].1 == Keycode::SETUP_MENU);
    } else if i == 12 {
        assert(KEY_NAMES@[12].1 == Keycode::SETUP_MENU);
    } else if i == 15 {
        assert(KEY_NAMES@[15].1 == Keycode::EXIT);
    } else if i == 16 {
        assert(KEY_NAMES@[16].1 == Keycode::EXIT);
    } else if i == 17 {
        assert(KEY_NAMES@[17].1 == Keycode::ENTER);
    } else if i == 30 {
        assert(KEY_NAMES@[30].1 == Keycode::CHANNEL_UP);
    } else if i == 31 {
        assert(KEY_NAMES@[31].1 == Keycode::CHANNEL_DOWN);
    } else if i == 40 {
        assert(KEY_NAMES@[40].1 == Keycode::VOLUME_UP);
    } else if i == 41 {
        assert(KEY_NAMES@[41].1 == Keycode::VOLUME_DOWN);
    } else if i == 42 {
        assert(KEY_NAMES@[42].1 == Keycode::MUTE);
    } else if i == 43 {
        assert(KEY_NAMES@[43].1 == Keycode::PLAY);
    } else if i == 44 {
        assert(KEY_NAMES@[44].1 == Keycode::STOP);
    } else if i == 45 {
        assert(KEY_NAMES@[45].1 == Keycode::PAUSE);
    } else if i == 46 {
        assert(KEY_NAMES@[46].1 == Keycode::RECORD);
    } else if i == 47 {
        assert(KEY_NAMES@[47].1 == Keycode::REWIND);
    } else if i == 48 {
        assert(KEY_NAMES@[48].1 == Keycode::FAST_FORWARD);
    }
}

proof fn lemma_other_codes(i: int, a: Action)
    requires
        0 <= i < 59,
        key_action(i) is None,
        a != Action::Power,
        !(a is Number),
    ensures
        !presses_first(default_chain_of(a), KEY_NAMES@[i].1),
{
    if i == 5 {
        assert(KEY_NAMES@[5].1 == Keycode::RIGHT_UP);
    } else if i == 6 {
        assert(KEY_NAMES@[6].1 == Keycode::RIGHT_DOWN);
    } else if i == 7 {
        assert(KEY_NAMES@[7].1 == Keycode::LEFT_UP);
    } else if i == 8 {
        assert(KEY_NAMES@[8].1 == Keycode::LEFT_DOWN);
    } else if i == 13 {
        assert(KEY_NAMES@[13].1 == Keycode::CONTENTS_MENU);
    } else if i == 14 {
        assert(KEY_NAMES@[14].1 == Keycode::FAVORITE_MENU);
    } else if i == 18 {
        assert(KEY_NAMES@[18].1 == Keycode::CLEAR);
    } else if i == 19 {
        assert(KEY_NAMES@[19].1 == Keycode::K0);
    } else if i == 20 {
        assert(KEY_NAMES@[20].1 == Keycode::K1);
    } else if i == 21 {
        assert(KEY_NAMES@[21].1 == Keycode::K2);
    } else if i == 22 {
        assert(KEY_NAMES@[22].1 == Keycode::K3);
    } else if i == 23 {
        assert(KEY_NAMES@[23].1 == Keycode::K4);
    } else if i == 24 {
        assert(KEY_NAMES@[24].1 == Keycode::K5);
    } else if i == 25 {
        assert(KEY_NAMES@[25].1 == Keycode::K6);
    } else if i == 26 {
        assert(KEY_NAMES@[26].1 == Keycode::K7);
    } else if i == 27 {
        assert(KEY_NAMES@[27].1 == Keycode::K8);
    } else if i == 28 {
        assert(KEY_NAMES@[28].1 == Keycode::K9);
    } else if i == 29 {
        assert(KEY_NAMES@[29].1 == Keycode::DOT);
    } else if i == 32 {
        assert(KEY_NAMES@[32].1 == Keycode::PREVIOUS_CHANNEL);
    } else if i == 33 {
        assert(KEY_NAMES@[33].1 == Keycode::SOUND_SELECT);
    } else if i == 34 {
        assert(KEY_NAMES@[34].1 == Keycode::INPUT_SELECT);
    } else if i == 35 {
        assert(KEY_NAMES@[35].1 == Keycode::DISPLAY_INFORMATION);
    } else if i == 36 {
        assert(KEY_NAMES@[36].1 == Keycode::HELP);
    } else if i == 37 {
        assert(KEY_NAMES@[37].1 == Keycode::PAGE_UP);
    } else if i == 38 {
        assert(KEY_NAMES@[38].1 == Keycode::PAGE_DOWN);
    } else if i == 39 {
        assert(KEY_NAMES@[39].1 == Keycode::POWER);
    } else if i == 49 {
        assert(KEY_NAMES@[49].1 == Keycode::EJECT);
    } else if i == 50 {
        assert(KEY_NAMES@[50].1 == Keycode::FORWARD);
    } else if i == 51 {
        assert(KEY_NAMES@[51].1 == Keycode::BACKWARD);
    } else if i == 52 {
        assert(KEY_NAMES@[52].1 == Keycode::ANGLE);
    } else if i == 53 {
        assert(KEY_NAMES@[53].1 == Keycode::SUBPICTURE);
    } else if i == 54 {
        assert(KEY_NAMES@[54].1 == Keycode::F1_BLUE);
    } else if i == 55 {
        assert(KEY_NAMES@[55].1 == Keycode::F2_RED);
    } else if i == 56 {
        assert(KEY_NAMES@[56].1 == Keycode::F3_GREEN);
    } else if i == 57 {
        assert(KEY_NAMES@[57].1 == Keycode::F4_YELLOW);
    } else if i == 58 {
        assert(KEY_NAMES@[58].1 == Keycode::F5);
    }
}

proof fn lemma_actions_press_apart(a: Action, b: Action, code: u8)
    requires
        a != Action::Power && !(a is Number),
        b != Action::Power && !(b is Number),
        presses_first(default_chain_of(a), code),
        presses_first(default_chain_of(b), code),
    ensures
        a == b,
{
}

/// The table of actions and the table of key codes agree: a key name that stands for an action
/// stands for one whose own strategies press the code of that key, and nothing else. Only "enter"
/// is sent as another key: it stands for "select".
pub proof fn law_keys_press_their_codes(n: Seq<char>)
    ensures
        match (action_of_key(action_form(n)), key_code(n)) {
            (Some(a), Some(k)) => n != "enter"@ ==> presses_only(default_chain_of(a), k.0)
                && presses_first(default_chain_of(a), k.0),
            _ => true,
        },
        action_of_key(action_form("enter"@)) == action_of_key(action_form("select"@)),
        action_of_key(action_form("enter"@)) is Some,
{
    assert(KEY_NAMES@[17].0@ == "enter"@);
    assert(KEY_NAMES@[0].0@ == "select"@);
    law_key_names_resolve(17);
    law_key_names_resolve(0);
    lemma_key_action("enter"@, 17);
    lemma_key_action("select"@, 0);
    lemma_key_names_are_canonical("enter"@);
    lemma_key_names_are_canonical("select"@);
    if action_of_key(action_form(n)) is Some && key_code(n) is Some && n != "enter"@ {
        lemma_key_names_are_canonical(n);
        let i = lemma_key_place(n);
        lemma_key_action(n, i);
        lemma_action_codes(i);
    }
}

/// Every key whose code the strategies of an action press stands for that action, by whatever name:
/// "home" and "root_menu", "back" and "exit". A number or the power key is sent as a plain key.
pub proof fn law_keys_of_an_action_stand_for_it(n: Seq<char>, k: Keycode, a: Action)
    requires
        key_code(n) == Some(k),
        n != "enter"@,
        a != Action::Power,
        !(a is Number),
    ensures
        action_of_key(action_form(n)) == Some(a) <==> presses_first(default_chain_of(a), k.0),
{
    lemma_key_names_are_canonical(n);
    let i = lemma_key_place(n);
    lemma_key_action(n, i);
    if i == 17 {
        assert(KEY_NAMES@[17].0@ == "enter"@);
    }
    match key_action(i) {
        Some(b) => {
            lemma_action_codes(i);
            if presses_first(default_chain_of(a), k.0) {
                lemma_actions_press_apart(a, b, k.0);
            }
        },
        None => {
            lemma_other_codes(i, a);
        },
    }
}

/// An action goes by its own name as a key, except that numbers and power are no action as a key:
/// no name of an action stands for another one.
pub proof fn law_action_names_are_keys(a: Action)
    requires
        action_index(a) is Some,
    ensures
        action_of_key(action_text(a)) == (if a == Action::Power || a is Number {
            None
        } else {
            Some(a)
        }),
{
    lemma_own_names(action_index(a)->0);
}

/// What is typed as an action name and what is sent as a key of that name are the same action.
pub proof fn law_keys_and_actions_agree(name: Seq<char>)
    ensures
        match (action_of_key(action_form(name)), action_named(action_form(name))) {
            (Some(a), Some(b)) => a == b,
            _ => true,
        },
{
    let n = action_form(name);
    if action_named(n) is Some {
        let i = lemma_action_place(n);
        lemma_own_names(i);
    }
}

/// A number that tells names apart, read off their length and three of their characters.
spec fn name_mark(s: Seq<char>) -> int {
    s.len() * 1000000 + s[0] as int + s[s.len() as int / 2] as int * 11 + s.last() as int * 1000
}

proof fn lemma_name_marks()
    ensures
        name_mark("back"@) == 4108187,
        name_mark("channel_down"@) == 12111287,
        name_mark("channel_up"@) == 10113210,
        name_mark("down"@) == 4111409,
        name_mark("enter"@) == 5115377,
        name_mark("exit"@) == 4117256,
        name_mark("fast_forward"@) == 12101323,
        name_mark("home"@) == 4102303,
        name_mark("left"@) == 4117230,
        name_mark("menu"@) == 4118319,
        name_mark("mute"@) == 4102385,
        name_mark("nav_down"@) == 8111210,
        name_mark("nav_left"@) == 8117298,
        name_mark("nav_right"@) == 9117364,
        name_mark("nav_up"@) == 6113155,
        name_mark("pause"@) == 5102399,
        name_mark("play"@) == 4122179,
        name_mark("record"@) == 6101335,
        name_mark("rewind"@) == 6101269,
        name_mark("right"@) == 5117247,
        name_mark("root_menu"@) == 9118159,
        name_mark("select"@) == 6117226,
        name_mark("setup_menu"@) == 10118160,
        name_mark("stop"@) == 4113336,
        name_mark("up"@) == 2113349,
        name_mark("volume_down"@) == 11111229,
        name_mark("volume_up"@) == 9113317,
{
    reveal_strlit("back");
    reveal_strlit("channel_down");
    reveal_strlit("channel_up");
    reveal_strlit("down");
    reveal_strlit("enter");
    reveal_strlit("exit");
    reveal_strlit("fast_forward");
    reveal_strlit("home");
    reveal_strlit("left");
    reveal_strlit("menu");
    reveal_strlit("mute");
    reveal_strlit("nav_down");
    reveal_strlit("nav_left");
    reveal_strlit("nav_right");
    reveal_strlit("nav_up");
    reveal_strlit("pause");
    reveal_strlit("play");
    reveal_strlit("record");
    reveal_strlit("rewind");
    reveal_strlit("right");
    reveal_strlit("root_menu");
    reveal_strlit("select");
    reveal_strlit("setup_menu");
    reveal_strlit("stop");
    reveal_strlit("up");
    reveal_strlit("volume_down");
    reveal_strlit("volume_up");
}

proof fn lemma_own_names(i: int)
    requires
        0 <= i < 30,
    ensures
        action_of_key(ACTION_NAMES@[i]@) == (if i < 19 {
            Some(action_at(i))
        } else {
            None
        }),
{
    lemma_name_marks();
    if i == 0 {
        reveal_strlit("volume_up");
        assert(ACTION_NAMES@[0]@ == "volume_up"@);
        assert(name_mark("volume_up"@) == 9113317);
    } else if i == 1 {
        reveal_strlit("volume_down");
        assert(ACTION_NAMES@[1]@ == "volume_down"@);
        assert(name_mark("volume_down"@) == 11111229);
    } else if i == 2 {
        reveal_strlit("mute");
        assert(ACTION_NAMES@[2]@ == "mute"@);
        assert(name_mark("mute"@) == 4102385);
    } else if i == 3 {
        reveal_strlit("nav_up");
        assert(ACTION_NAMES@[3]@ == "nav_up"@);
        assert(name_mark("nav_up"@) == 6113155);
    } else if i == 4 {
        reveal_strlit("nav_down");
        assert(ACTION_NAMES@[4]@ == "nav_down"@);
        assert(name_mark("nav_down"@) == 8111210);
    } else if i == 5 {
        reveal_strlit("nav_left");
        assert(ACTION_NAMES@[5]@ == "nav_left"@);
        assert(name_mark("nav_left"@) == 8117298);
    } else if i == 6 {
        reveal_strlit("nav_right");
        assert(ACTION_NAMES@[6]@ == "nav_right"@);
        assert(name_mark("nav_right"@) == 9117364);
    } else if i == 7 {
        reveal_strlit("select");
        assert(ACTION_NAMES@[7]@ == "select"@);
        assert(name_mark("select"@) == 6117226);
    } else if i == 8 {
        reveal_strlit("back");
        assert(ACTION_NAMES@[8]@ == "back"@);
        assert(name_mark("back"@) == 4108187);
    } else if i == 9 {
        reveal_strlit("home");
        assert(ACTION_NAMES@[9]@ == "home"@);
        assert(name_mark("home"@) == 4102303);
    } else if i == 10 {
        reveal_strlit("menu");
        assert(ACTION_NAMES@[10]@ == "menu"@);
        assert(name_mark("menu"@) == 4118319);
    } else if i == 11 {
        reveal_strlit("channel_up");
        assert(ACTION_NAMES@[11]@ == "channel_up"@);
        assert(name_mark("channel_up"@) == 10113210);
    } else if i == 12 {
        reveal_strlit("channel_down");
        assert(ACTION_NAMES@[12]@ == "channel_down"@);
        assert(name_mark("channel_down"@) == 12111287);
    } else if i == 13 {
        reveal_strlit("play");
        assert(ACTION_NAMES@[13]@ == "play"@);
        assert(name_mark("play"@) == 4122179);
    } else if i == 14 {
        reveal_strlit("pause");
        assert(ACTION_NAMES@[14]@ == "pause"@);
        assert(name_mark("pause"@) == 5102399);
    } else if i == 15 {
        reveal_strlit("stop");
        assert(ACTION_NAMES@[15]@ == "stop"@);
        assert(name_mark("stop"@) == 4113336);
    } else if i == 16 {
        reveal_strlit("fast_forward");
        assert(ACTION_NAMES@[16]@ == "fast_forward"@);
        assert(name_mark("fast_forward"@) == 12101323);
    } else if i == 17 {
        reveal_strlit("rewind");
        assert(ACTION_NAMES@[17]@ == "rewind"@);
        assert(name_mark("rewind"@) == 6101269);
    } else if i == 18 {
        reveal_strlit("record");
        assert(ACTION_NAMES@[18]@ == "record"@);
        assert(name_mark("record"@) == 6101335);
    } else if i == 19 {
        reveal_strlit("power");
        assert(ACTION_NAMES@[19]@ == "power"@);
        assert(name_mark("power"@) == 5115421);
    } else if i == 20 {
        reveal_strlit("number_0");
        assert(ACTION_NAMES@[20]@ == "number_0"@);
        assert(name_mark("number_0"@) == 8049221);
    } else if i == 21 {
        reveal_strlit("number_1");
        assert(ACTION_NAMES@[21]@ == "number_1"@);
        assert(name_mark("number_1"@) == 8050221);
    } else if i == 22 {
        reveal_strlit("number_2");
        assert(ACTION_NAMES@[22]@ == "number_2"@);
        assert(name_mark("number_2"@) == 8051221);
    } else if i == 23 {
        reveal_strlit("number_3");
        assert(ACTION_NAMES@[23]@ == "number_3"@);
        assert(name_mark("number_3"@) == 8052221);
    } else if i == 24 {
        reveal_strlit("number_4");
        assert(ACTION_NAMES@[24]@ == "number_4"@);
        assert(name_mark("number_4"@) == 8053221);
    } else if i == 25 {
        reveal_strlit("number_5");
        assert(ACTION_NAMES@[25]@ == "number_5"@);
        assert(name_mark("number_5"@) == 8054221);
    } else if i == 26 {
        reveal_strlit("number_6");
        assert(ACTION_NAMES@[26]@ == "number_6"@);
        assert(name_mark("number_6"@) == 8055221);
    } else if i == 27 {
        reveal_strlit("number_7");
        assert(ACTION_NAMES@[27]@ == "number_7"@);
        assert(name_mark("number_7"@) == 8056221);
    } else if i == 28 {
        reveal_strlit("number_8");
        assert(ACTION_NAMES@[28]@ == "number_8"@);
        assert(name_mark("number_8"@) == 8057221);
    } else if i == 29 {
        reveal_strlit("number_9");
        assert(ACTION_NAMES@[29]@ == "number_9"@);
        assert(name_mark("number_9"@) == 8058221);
    }
}

proof fn lemma_key_names_are_plain_0(i: int)
    requires
        0 <= i < 20,
    ensures
        plain_name(KEY_NAMES@[i].0@),
{
    if i == 0 {
        reveal_strlit("select");
        assert(KEY_NAMES@[0].0@ == "select"@);
    } else if i == 1 {
        reveal_strlit("up");
        assert(KEY_NAMES@[1].0@ == "up"@);
    } else if i == 2 {
        reveal_strlit("down");
        assert(KEY_NAMES@[2].0@ == "down"@);
    } else if i == 3 {
        reveal_strlit("left");
        assert(KEY_NAMES@[3].0@ == "left"@);
    } else if i == 4 {
        reveal_strlit("right");
        assert(KEY_NAMES@[4].0@ == "right"@);
    } else if i == 5 {
        reveal_strlit("right_up");
        assert(KEY_NAMES@[5].0@ == "right_up"@);
    } else if i == 6 {
        reveal_strlit("right_down");
        assert(KEY_NAMES@[6].0@ == "right_down"@);
    } else if i == 7 {
        reveal_strlit("left_up");
        assert(KEY_NAMES@[7].0@ == "left_up"@);
    } else if i == 8 {
        reveal_strlit("left_down");
        assert(KEY_NAMES@[8].0@ == "left_down"@);
    } else if i == 9 {
        reveal_strlit("root_menu");
        assert(KEY_NAMES@[9].0@ == "root_menu"@);
    } else if i == 10 {
        reveal_strlit("home");
        assert(KEY_NAMES@[10].0@ == "home"@);
    } else if i == 11 {
        reveal_strlit("setup_menu");
        assert(KEY_NAMES@[11].0@ == "setup_menu"@);
    } else if i == 12 {
        reveal_strlit("menu");
        assert(KEY_NAMES@[12].0@ == "menu"@);
    } else if i == 13 {
        reveal_strlit("contents_menu");
        assert(KEY_NAMES@[13].0@ == "contents_menu"@);
    } else if i == 14 {
        reveal_strlit("favorite_menu");
        assert(KEY_NAMES@[14].0@ == "favorite_menu"@);
    } else if i == 15 {
        reveal_strlit("exit");
        assert(KEY_NAMES@[15].0@ == "exit"@);
    } else if i == 16 {
        reveal_strlit("back");
        assert(KEY_NAMES@[16].0@ == "back"@);
    } else if i == 17 {
        reveal_strlit("enter");
        assert(KEY_NAMES@[17].0@ == "enter"@);
    } else if i == 18 {
        reveal_strlit("clear");
        assert(KEY_NAMES@[18].0@ == "clear"@);
    } else if i == 19 {
        reveal_strlit("0");
        assert(KEY_NAMES@[19].0@ == "0"@);
    }
}

proof fn lemma_key_names_are_plain_20(i: int)
    requires
        20 <= i < 40,
    ensures
        plain_name(KEY_NAMES@[i].0@),
{
    if i == 20 {
        reveal_strlit("1");
        assert(KEY_NAMES@[20].0@ == "1"@);
    } else if i == 21 {
        reveal_strlit("2");
        assert(KEY_NAMES@[21].0@ == "2"@);
    } else if i == 22 {
        reveal_strlit("3");
        assert(KEY_NAMES@[22].0@ == "3"@);
    } else if i == 23 {
        reveal_strlit("4");
        assert(KEY_NAMES@[23].0@ == "4"@);
    } else if i == 24 {
        reveal_strlit("5");
        assert(KEY_NAMES@[24].0@ == "5"@);
    } else if i == 25 {
        reveal_strlit("6");
        assert(KEY_NAMES@[25].0@ == "6"@);
    } else if i == 26 {
        reveal_strlit("7");
        assert(KEY_NAMES@[26].0@ == "7"@);
    } else if i == 27 {
        reveal_strlit("8");
        assert(KEY_NAMES@[27].0@ == "8"@);
    } else if i == 28 {
        reveal_strlit("9");
        assert(KEY_NAMES@[28].0@ == "9"@);
    } else if i == 29 {
        reveal_strlit("dot");
        assert(KEY_NAMES@[29].0@ == "dot"@);
    } else if i == 30 {
        reveal_strlit("channel_up");
        assert(KEY_NAMES@[30].0@ == "channel_up"@);
    } else if i == 31 {
        reveal_strlit("channel_down");
        assert(KEY_NAMES@[31].0@ == "channel_down"@);
    } else if i == 32 {
        reveal_strlit("previous_channel");
        assert(KEY_NAMES@[32].0@ == "previous_channel"@);
    } else if i == 33 {
        reveal_strlit("sound_select");
        assert(KEY_NAMES@[33].0@ == "sound_select"@);
    } else if i == 34 {
        reveal_strlit("input_select");
        assert(KEY_NAMES@[34].0@ == "input_select"@);
    } else if i == 35 {
        reveal_strlit("display_information");
        assert(KEY_NAMES@[35].0@ == "display_information"@);
    } else if i == 36 {
        reveal_strlit("help");
        assert(KEY_NAMES@[36].0@ == "help"@);
    } else if i == 37 {
        reveal_strlit("page_up");
        assert(KEY_NAMES@[37].0@ == "page_up"@);
    } else if i == 38 {
        reveal_strlit("page_down");
        assert(KEY_NAMES@[38].0@ == "page_down"@);
    } else if i == 39 {
        reveal_strlit("power");
        assert(KEY_NAMES@[39].0@ == "power"@);
    }
}

proof fn lemma_key_names_are_plain_40(i: int)
    requires
        40 <= i < 59,
    ensures
        plain_name(KEY_NAMES@[i].0@),
{
    if i == 40 {
        reveal_strlit("volume_up");
        assert(KEY_NAMES@[40].0@ == "volume_up"@);
    } else if i == 41 {
        reveal_strlit("volume_down");
        assert(KEY_NAMES@[41].0@ == "volume_down"@);
    } else if i == 42 {
        reveal_strlit("mute");
        assert(KEY_NAMES@[42].0@ == "mute"@);
    } else if i == 43 {
        reveal_strlit("play");
        assert(KEY_NAMES@[43].0@ == "play"@);
    } else if i == 44 {
        reveal_strlit("stop");
        assert(KEY_NAMES@[44].0@ == "stop"@);
    } else if i == 45 {
        reveal_strlit("pause");
        assert(KEY_NAMES@[45].0@ == "pause"@);
    } else if i == 46 {
        reveal_strlit("record");
        assert(KEY_NAMES@[46].0@ == "record"@);
    } else if i == 47 {
        reveal_strlit("rewind");
        assert(KEY_NAMES@[47].0@ == "rewind"@);
    } else if i == 48 {
        reveal_strlit("fast_forward");
        assert(KEY_NAMES@[48].0@ == "fast_forward"@);
    } else if i == 49 {
        reveal_strlit("eject");
        assert(KEY_NAMES@[49].0@ == "eject"@);
    } else if i == 50 {
        reveal_strlit("forward");
        assert(KEY_NAMES@[50].0@ == "forward"@);
    } else if i == 51 {
        reveal_strlit("backward");
        assert(KEY_NAMES@[51].0@ == "backward"@);
    } else if i == 52 {
        reveal_strlit("angle");
        assert(KEY_NAMES@[52].0@ == "angle"@);
    } else if i == 53 {
        reveal_strlit("subpicture");
        assert(KEY_NAMES@[53].0@ == "subpicture"@);
    } else if i == 54 {
        reveal_strlit("f1_blue");
        assert(KEY_NAMES@[54].0@ == "f1_blue"@);
    } else if i == 55 {
        reveal_strlit("f2_red");
        assert(KEY_NAMES@[55].0@ == "f2_red"@);
    } else if i == 56 {
        reveal_strlit("f3_green");
        assert(KEY_NAMES@[56].0@ == "f3_green"@);
    } else if i == 57 {
        reveal_strlit("f4_yellow");
        assert(KEY_NAMES@[57].0@ == "f4_yellow"@);
    } else if i == 58 {
        reveal_strlit("f5");
        assert(KEY_NAMES@[58].0@ == "f5"@);
    }
}

/// A key name is already in the form in which action names are compared.
pub proof fn lemma_key_names_are_canonical(n: Seq<char>)
    requires
        key_code(n) is Some,
    ensures
        action_form(n) == n,
{
    let i = lemma_key_place(n);
    if i < 20 {
        lemma_key_names_are_plain_0(i);
    } else if i < 40 {
        lemma_key_names_are_plain_20(i);
    } else {
        lemma_key_names_are_plain_40(i);
    }
    lemma_plain_form(n);
}

/// Where a port is switched to by a broadcast, the address in it is that of the device at that port:
/// the topology shows it behind the same port.
pub proof fn law_port_switch_announces_the_port(port: u8, first: Option<LogicalAddress>)
    requires
        1 <= port <= 15,
    ensures
        port_at(physical_address_text(port_address(port))) == Some(port as int),
        port_address(port) % 4096 == 0,
        active_source_command(port_address(port), first).parameters[0] == port * 16,
        active_source_command(port_address(port), first).parameters[1] == 0,
{
    law_port_of_a_physical_address(port_address(port));
}

/// A volume or mute action with an address sends every key, frame and power call to that address,
/// and changes nothing else about the strategies: their order, names, keys, frames and times.
pub proof fn law_forced_steps_only_change_their_target(
    chain: Seq<StrategyV>,
    a: u8,
    i: int,
    j: int,
)
    requires
        0 <= i < chain.len(),
        0 <= j < chain[i].steps.len(),
    ensures
        ({
            let before = chain[i].steps[j];
            let after = forced_chain(chain, a)[i].steps[j];
            &&& forced_chain(chain, a)[i].observe_ms == chain[i].observe_ms
            &&& after == (StepV { target: after.target, ..before })
            &&& before.kind == StepKind::SendUserControl || before.kind == StepKind::Transmit
                || before.kind == StepKind::LibcecPowerOn || before.kind == StepKind::LibcecStandby
                ==> after.target == a
            &&& before.kind == StepKind::LibcecVolumeUp || before.kind == StepKind::LibcecVolumeDown
                || before.kind == StepKind::LibcecMute ==> after == before
        }),
{
}

/// The vendor of a device is that of the first cached device with its address, wherever it stands;
/// an address that no cached device has, or that no device can have, has none.
pub proof fn law_vendor_is_that_of_the_device(devices: Seq<JsonV>, target: LogicalAddress, k: int)
    ensures
        0 <= k < devices.len() && target.0 <= 14 && json::int_field(
            devices[k],
            "logical_address"@,
        ) == Some(target.0 as int) && (forall|j: int|
            0 <= j < k ==> json::int_field(#[trigger] devices[j], "logical_address"@) != Some(
                target.0 as int,
            )) ==> vendor_of_target(devices, target) == (match json::text_field(
            devices[k],
            "vendor_id"@,
        ) {
            Some(v) => v,
            None => Seq::empty(),
        }),
        (forall|j: int|
            0 <= j < devices.len() ==> json::int_field(#[trigger] devices[j], "logical_address"@)
                != Some(target.0 as int)) ==> vendor_of_target(devices, target).len() == 0,
        target.0 > 14 ==> vendor_of_target(devices, target).len() == 0,
{
    if target.0 <= 14 {
        if 0 <= k < devices.len() && (forall|j: int|
            0 <= j < k ==> json::int_field(#[trigger] devices[j], "logical_address"@) != Some(
                target.0 as int,
            )) {
            lemma_vendor_skips(devices, target.0, 0, k);
        }
        if forall|j: int|
            0 <= j < devices.len() ==> json::int_field(#[trigger] devices[j], "logical_address"@)
                != Some(target.0 as int) {
            lemma_vendor_skips(devices, target.0, 0, devices.len() as int);
        }
    }
}

proof fn lemma_vendor_skips(devices: Seq<JsonV>, target: u8, i: int, k: int)
    requires
        0 <= i <= k <= devices.len(),
        forall|j: int|
            i <= j < k ==> json::int_field(#[trigger] devices[j], "logical_address"@) != Some(
                target as int,
            ),
    ensures
        vendor_from(devices, target, i) == vendor_from(devices, target, k),
    decreases k - i,
{
    if i < k {
        assert(json::int_field(devices[i], "logical_address"@) != Some(target as int));
        lemma_vendor_skips(devices, target, i + 1, k);
    }
}

proof fn lemma_first_confirmed(results: Seq<StratResultV>, i: int)
    requires
        0 <= i,
    ensures
        match first_confirmed(results, i) {
            Some(k) => i <= k < results.len() && results[k].status == StratStatus::Confirmed
                && forall|j: int|
                i <= j < k ==> (#[trigger] results[j]).status != StratStatus::Confirmed,
            None => forall|j: int|
                i <= j < results.len() ==> (#[trigger] results[j]).status
                    != StratStatus::Confirmed,
        },
    decreases results.len() - i,
{
    if i < results.len() && results[i].status != StratStatus::Confirmed {
        lemma_first_confirmed(results, i + 1);
    }
}

/// The summary of an action tells of the strategy that worked, the first of them, with the name of
/// the answer; it says "ok" exactly where one worked. Otherwise it tells how many were tried and how
/// the last one went; there is no summary of nothing.
pub proof fn law_summary_tells_what_worked(action: Action, results: Seq<StratResultV>, k: int)
    ensures
        (summary(action, results) is None) == (results.len() == 0),
        0 <= k < results.len() && results[k].status == StratStatus::Confirmed && (forall|j: int|
            0 <= j < k ==> (#[trigger] results[j]).status != StratStatus::Confirmed) ==> summary(
            action,
            results,
        ) == Some(
            action_text(action) + " ok via "@ + results[k].strategy + " (reply "@
                + results[k].reply_name + ")"@,
        ),
        results.len() > 0 && (forall|j: int|
            0 <= j < results.len() ==> (#[trigger] results[j]).status != StratStatus::Confirmed)
            ==> summary(action, results) == Some(
            action_text(action) + " tried "@ + text::dec(results.len())
                + " strategies; last status="@ + status_name(results.last().status)
                + " strategy="@ + results.last().strategy,
        ),
{
    lemma_first_confirmed(results, 0);
    if let Some(m) = first_confirmed(results, 0) {
        if 0 <= k < results.len() && results[k].status == StratStatus::Confirmed {
            assert(m <= k);
            assert(results[m].status == StratStatus::Confirmed);
        }
    }
}

/// A command for a device is carried out exactly where the address is one of a device, from 0 to 14,
/// and there is a session with an open adapter; otherwise the reason is told, the address first.
pub proof fn law_device_commands_need_a_device_and_an_adapter(
    session: Option<Connection>,
    addr: i32,
    call: CecCall,
    r: Result<CecCall, ExecError>,
)
    requires
        device_command(session, addr, call, r),
    ensures
        (r is Ok) == (0 <= addr <= 14 && (session matches Some(c) && c.opened && !c.closed)),
        r matches Ok(made) ==> made == call,
        !(0 <= addr <= 14) ==> r == Err::<CecCall, ExecError>(ExecError::InvalidLogicalAddress),
        0 <= addr <= 14 && session is None ==> r == Err::<CecCall, ExecError>(
            ExecError::AdapterUnavailable,
        ),
        0 <= addr <= 14 && (session matches Some(c) && c.closed) ==> r == Err::<CecCall, ExecError>(
            ExecError::Cec(CecError::Closed),
        ),
{
}

/// Key arguments are good exactly where the address is that of a device and either a name is given
/// that is known as an action or as a key, whatever the code, or none is given and the code is from
/// 1 to 255.
pub proof fn law_key_arguments(addr: i32, name: Seq<char>, keycode: i32, other: i32)
    ensures
        !(0 <= addr <= 14) ==> key_fault(addr, name, keycode) == Some(
            ExecError::InvalidLogicalAddress,
        ),
        name.len() > 0 ==> key_fault(addr, name, keycode) == key_fault(addr, name, other),
        name.len() > 0 && 0 <= addr <= 14 ==> (key_fault(addr, name, keycode) is None) == (
        action_of_key(action_form(name)) is Some || key_code(name) is Some),
        name.len() == 0 && 0 <= addr <= 14 ==> (key_fault(addr, name, keycode) is None) == (1
            <= keycode <= 255),
        name.len() == 0 && 0 <= addr <= 14 && 0 <= keycode <= 255 && key_fault(addr, name, keycode)
            is None ==> sent_code(name, keycode).0 == keycode,
        name.len() > 0 ==> (key_code(name) matches Some(k) ==> sent_code(name, keycode) == k),
{
}

/// Why neither way to switch to a port is open: no open adapter. A session that only listens says so.
pub proof fn law_port_switch_needs_an_open_adapter(c: Connection)
    ensures
        (port_fault(c) is None) == (c.opened && !c.closed),
        port_fault(c) is Some && c.monitor_only ==> port_fault(c) == Some(CecError::MonitorOnly),
        c.closed && !c.monitor_only ==> port_fault(c) == Some(CecError::Closed),
        !c.closed && !c.opened && !c.monitor_only ==> port_fault(c) == Some(
            CecError::AdapterNotOpen,
        ),
{
}

/// Strategies for a device are those of its vendor; without a device no vendor counts.
pub proof fn law_strategies_are_those_of_the_vendor(devices: Seq<JsonV>, a: LogicalAddress)
    ensures
        action_vendor(devices, Some(a)) == vendor_of_target(devices, a),
        action_vendor(devices, None).len() == 0,
{
}

} // verus!
