//! What the answers of libcec mean.

use crate::cec::ffi::{
    CECDEVICE_UNKNOWN, CEC_ADAPTER_STR_SIZE, CEC_INVALID_PHYSICAL_ADDRESS, CEC_POWER_STATUS_UNKNOWN,
    CEC_VENDOR_UNKNOWN, CEC_VERSION_UNKNOWN, MAX_ADAPTERS,
};
use crate::cec::session::CecCall;
use crate::cec::types::{
    get_vendor_name, hdmi_port_of, is_failed_call, is_known_vendor, logical_address_text, vendor,
    vendor_text, Adapter, CECVersion, CecError, Configuration, DeviceInfo, DeviceInfoErrors,
    DeviceType, LogicalAddress, PowerStatus,
};
use crate::text;
use vstd::prelude::*;

verus! {

// ---------------------------------------------------------------------------
// Success and failure
// ---------------------------------------------------------------------------

/// The message for a call that failed, where the call can fail.
pub open spec fn failure_text(call: CecCall) -> Option<Seq<char>> {
    match call {
        CecCall::FindAdapters => Some("libcec_find_adapters"@),
        CecCall::PowerOn { address } => Some("power on "@ + text::dec(address as nat)),
        CecCall::Standby { address } => Some("standby "@ + text::dec(address as nat)),
        CecCall::SetActiveSource { .. } => Some("set active source"@),
        CecCall::SetInactiveView => Some("set inactive view"@),
        CecCall::VolumeUp { .. } => Some("volume up"@),
        CecCall::VolumeDown { .. } => Some("volume down"@),
        CecCall::AudioToggleMute => Some("audio toggle mute"@),
        CecCall::AudioMute => Some("audio mute"@),
        CecCall::AudioUnmute => Some("audio unmute"@),
        CecCall::PowerStatus { address } => Some("get power status "@ + text::dec(address as nat)),
        CecCall::VendorId { address } => Some("vendor id "@ + text::dec(address as nat)),
        CecCall::PhysicalAddress { address } => Some(
            "physical address "@ + text::dec(address as nat),
        ),
        CecCall::OsdName { address } => Some("osd name "@ + text::dec(address as nat)),
        CecCall::MenuLanguage { address } => Some("menu lang "@ + text::dec(address as nat)),
        CecCall::CecVersion { address } => Some("cec version "@ + text::dec(address as nat)),
        CecCall::Transmit { .. } => Some("transmit failed"@),
        CecCall::SendKeypress { address, .. } => Some(
            "send keypress "@ + text::dec(address as nat),
        ),
        CecCall::SendKeyRelease { address, .. } => Some(
            "send key release "@ + text::dec(address as nat),
        ),
        CecCall::SetOsdString { .. } => Some("set osd string"@),
        CecCall::SwitchMonitoring { .. } => Some("switch monitoring"@),
        CecCall::LibInfo => Some("get lib info"@),
        CecCall::SetConfiguration { .. } => Some("set configuration"@),
        CecCall::CurrentConfiguration => Some("get current configuration"@),
        CecCall::SetHdmiPort { port, .. } => Some("set hdmi port "@ + text::dec(port as nat)),
        _ => None,
    }
}

fn with_number(what: &str, n: u8) -> (r: Option<String>)
    ensures
        r matches Some(s) && s@ == what@ + text::dec(n as nat),
{
    Some(text::concat(what, text::dec_u64(n as u64).as_str()))
}

fn failure_message(call: &CecCall) -> (r: Option<String>)
    ensures
        match r {
            Some(s) => failure_text(*call) == Some(s@),
            None => failure_text(*call) is None,
        },
{
    match call {
        CecCall::FindAdapters => Some("libcec_find_adapters".to_owned()),
        CecCall::PowerOn { address } => with_number("power on ", *address),
        CecCall::Standby { address } => with_number("standby ", *address),
        CecCall::SetActiveSource { .. } => Some("set active source".to_owned()),
        CecCall::SetInactiveView => Some("set inactive view".to_owned()),
        CecCall::VolumeUp { .. } => Some("volume up".to_owned()),
        CecCall::VolumeDown { .. } => Some("volume down".to_owned()),
        CecCall::AudioToggleMute => Some("audio toggle mute".to_owned()),
        CecCall::AudioMute => Some("audio mute".to_owned()),
        CecCall::AudioUnmute => Some("audio unmute".to_owned()),
        CecCall::PowerStatus { address } => with_number("get power status ", *address),
        CecCall::VendorId { address } => with_number("vendor id ", *address),
        CecCall::PhysicalAddress { address } => with_number("physical address ", *address),
        CecCall::OsdName { address } => with_number("osd name ", *address),
        CecCall::MenuLanguage { address } => with_number("menu lang ", *address),
        CecCall::CecVersion { address } => with_number("cec version ", *address),
        CecCall::Transmit { .. } => Some("transmit failed".to_owned()),
        CecCall::SendKeypress { address, .. } => with_number("send keypress ", *address),
        CecCall::SendKeyRelease { address, .. } => with_number("send key release ", *address),
        CecCall::SetOsdString { .. } => Some("set osd string".to_owned()),
        CecCall::SwitchMonitoring { .. } => Some("switch monitoring".to_owned()),
        CecCall::LibInfo => Some("get lib info".to_owned()),
        CecCall::SetConfiguration { .. } => Some("set configuration".to_owned()),
        CecCall::CurrentConfiguration => Some("get current configuration".to_owned()),
        CecCall::SetHdmiPort { port, .. } => with_number("set hdmi port ", *port),
        _ => None,
    }
}

/// What a call's return code means: zero is a failure of a call that can fail.
pub fn complete(call: &CecCall, rc: i32) -> (r: Result<(), CecError>)
    ensures
        match r {
            Ok(()) => rc != 0 || failure_text(*call) is None,
            Err(e) => rc == 0 && (failure_text(*call) matches Some(m) && is_failed_call(e, m)),
        },
{
    if rc != 0 {
        return Ok(());
    }
    match failure_message(call) {
        Some(m) => Err(CecError::LibcecCall(m)),
        None => Ok(()),
    }
}

fn failed<T>(what: &str, address: LogicalAddress) -> (r: Result<T, CecError>)
    ensures
        r matches Err(e) && is_failed_call(e, what@ + text::dec(address.0 as nat)),
{
    Err(CecError::LibcecCall(text::concat(what, text::dec_u64(address.0 as u64).as_str())))
}

// ---------------------------------------------------------------------------
// Queries
// ---------------------------------------------------------------------------

/// Volume level, mute flag and raw byte of an audio status.
pub open spec fn audio_parts(status: u8) -> (u8, bool, u8) {
    (status % 128, status >= 128, status)
}

/// The audio status byte as `(volume, muted, raw)`: bit 7 is the mute flag, bits 0-6 the level.
pub fn audio_status(status: u8) -> (r: (u8, bool, u8))
    ensures
        r == audio_parts(status),
{
    (status % 128, status >= 128, status)
}

/// A power status, unless libcec does not know it.
pub fn power_status(address: LogicalAddress, status: i32) -> (r: Result<PowerStatus, CecError>)
    ensures
        match r {
            Ok(p) => status != CEC_POWER_STATUS_UNKNOWN && p.0 == status as u8,
            Err(e) => status == CEC_POWER_STATUS_UNKNOWN && is_failed_call(
                e,
                "get power status "@ + text::dec(address.0 as nat),
            ),
        },
{
    if status == CEC_POWER_STATUS_UNKNOWN {
        return failed("get power status ", address);
    }
    Ok(PowerStatus(#[verifier::truncate] (status as u8)))
}

/// The active source, if a device claims the role.
pub fn active_source(addr: i32) -> (r: Result<LogicalAddress, CecError>)
    ensures
        match r {
            Ok(a) => a.0 == addr as u8 && a.0 <= 14,
            Err(e) => (addr as u8) > 14 && e == CecError::NoActiveSource,
        },
{
    let la = LogicalAddress(#[verifier::truncate] (addr as u8));
    if !la.is_valid() {
        return Err(CecError::NoActiveSource);
    }
    Ok(la)
}

/// A vendor ID, unless libcec does not know it.
pub fn vendor_id(address: LogicalAddress, v: u32) -> (r: Result<u64, CecError>)
    ensures
        match r {
            Ok(id) => v != CEC_VENDOR_UNKNOWN && id == v,
            Err(e) => v == CEC_VENDOR_UNKNOWN && is_failed_call(
                e,
                "vendor id "@ + text::dec(address.0 as nat),
            ),
        },
{
    if v == CEC_VENDOR_UNKNOWN {
        return failed("vendor id ", address);
    }
    Ok(v as u64)
}

/// A physical address, unless it is the invalid one.
pub fn physical_address(address: LogicalAddress, a: u16) -> (r: Result<u16, CecError>)
    ensures
        match r {
            Ok(p) => a != CEC_INVALID_PHYSICAL_ADDRESS && p == a,
            Err(e) => a == CEC_INVALID_PHYSICAL_ADDRESS && is_failed_call(
                e,
                "physical address "@ + text::dec(address.0 as nat),
            ),
        },
{
    if a == CEC_INVALID_PHYSICAL_ADDRESS {
        return failed("physical address ", address);
    }
    Ok(a)
}

/// A CEC version, unless libcec does not know it.
pub fn cec_version(address: LogicalAddress, v: i32) -> (r: Result<CECVersion, CecError>)
    ensures
        match r {
            Ok(c) => v != CEC_VERSION_UNKNOWN && c.0 == v as u8,
            Err(e) => v == CEC_VERSION_UNKNOWN && is_failed_call(
                e,
                "cec version "@ + text::dec(address.0 as nat),
            ),
        },
{
    if v == CEC_VERSION_UNKNOWN {
        return failed("cec version ", address);
    }
    Ok(CECVersion(#[verifier::truncate] (v as u8)))
}

/// The bytes of a C string buffer before the first NUL, or all of them.
pub open spec fn before_nul(buf: Seq<u8>) -> Seq<u8>
    decreases buf.len(),
{
    if buf.len() == 0 || buf[0] == 0 {
        Seq::empty()
    } else {
        seq![buf[0]] + before_nul(buf.skip(1))
    }
}

proof fn lemma_before_nul(buf: Seq<u8>, n: int)
    requires
        0 <= n <= buf.len(),
        n == buf.len() || buf[n] == 0,
        forall|j: int| 0 <= j < n ==> #[trigger] buf[j] != 0,
    ensures
        before_nul(buf) == buf.take(n),
    decreases n,
{
    if n > 0 {
        assert(buf[0] != 0);
        assert forall|j: int| 0 <= j < n - 1 implies #[trigger] buf.skip(1)[j] != 0 by {
            assert(buf[j + 1] != 0);
        }
        lemma_before_nul(buf.skip(1), n - 1);
        assert(seq![buf[0]] + buf.skip(1).take(n - 1) =~= buf.take(n));
    } else {
        assert(before_nul(buf) =~= buf.take(0));
    }
}

/// The text in a C string buffer.
fn buffer_text(buf: &[u8]) -> (r: String)
    ensures
        r@ == text::lossy(before_nul(buf@)),
{
    let mut bytes: Vec<u8> = Vec::new();
    let mut n: usize = 0;
    while n < buf.len() && buf[n] != 0
        invariant
            n <= buf@.len(),
            bytes@ == buf@.take(n as int),
            forall|j: int| 0 <= j < n ==> #[trigger] buf@[j] != 0,
        decreases buf@.len() - n,
    {
        bytes.push(buf[n]);
        n += 1;
        assert(bytes@ =~= buf@.take(n as int));
    }
    proof {
        lemma_before_nul(buf@, n as int);
    }
    text::from_utf8_lossy(bytes.as_slice())
}

/// An OSD name out of the buffer that libcec filled.
pub fn osd_name(address: LogicalAddress, rc: i32, buf: &[u8]) -> (r: Result<String, CecError>)
    ensures
        match r {
            Ok(s) => rc != 0 && s@ == text::lossy(before_nul(buf@)),
            Err(e) => rc == 0 && is_failed_call(e, "osd name "@ + text::dec(address.0 as nat)),
        },
{
    if rc == 0 {
        return failed("osd name ", address);
    }
    Ok(buffer_text(buf))
}

/// A menu language out of the buffer that libcec filled.
pub fn menu_language(address: LogicalAddress, rc: i32, buf: &[u8]) -> (r: Result<String, CecError>)
    ensures
        match r {
            Ok(s) => rc != 0 && s@ == text::lossy(before_nul(buf@)),
            Err(e) => rc == 0 && is_failed_call(e, "menu lang "@ + text::dec(address.0 as nat)),
        },
{
    if rc == 0 {
        return failed("menu lang ", address);
    }
    Ok(buffer_text(buf))
}

// ---------------------------------------------------------------------------
// Address lists
// ---------------------------------------------------------------------------

/// All sixteen addresses in ascending order.
pub open spec fn all_addresses() -> Seq<u8> {
    Seq::new(16, |i: int| i as u8)
}

/// Whether a bit of an address mask is set.
pub open spec fn mask_bit(mask: u16, a: u8) -> bool {
    (mask >> a) & 1 == 1
}

/// The addresses of a mask, ascending.
pub open spec fn mask_addresses(mask: u16) -> Seq<u8> {
    all_addresses().filter(|a: u8| mask_bit(mask, a))
}

/// The bytes of a list of addresses.
pub open spec fn address_bytes(v: Seq<LogicalAddress>) -> Seq<u8> {
    v.map_values(|a: LogicalAddress| a.0)
}

/// The addresses whose bit is set, in ascending order.
pub fn mask_to_addresses(mask: u16) -> (r: Vec<LogicalAddress>)
    ensures
        address_bytes(r@) == mask_addresses(mask),
        address_list(r@),
{
    let mut out: Vec<LogicalAddress> = Vec::new();
    let mut i: u8 = 0;
    let ghost p = |a: u8| mask_bit(mask, a);
    proof {
        reveal(Seq::filter);
        assert(address_bytes(out@) =~= all_addresses().take(0).filter(p));
    }
    while i < 16
        invariant
            i <= 16,
            p == (|a: u8| mask_bit(mask, a)),
            address_bytes(out@) == all_addresses().take(i as int).filter(p),
            forall|j: int| 0 <= j < out@.len() ==> (#[trigger] out@[j]).0 < i,
            address_bytes(out@).no_duplicates(),
        decreases 16 - i,
    {
        let ghost before = out@;
        proof {
            reveal(Seq::filter);
            assert(all_addresses().take(i as int + 1).drop_last() =~= all_addresses().take(
                i as int,
            ));
            assert(all_addresses().take(i as int + 1).last() == i);
        }
        if (mask >> i) & 1 == 1 {
            out.push(LogicalAddress(i));
            proof {
                assert(address_bytes(out@) =~= address_bytes(before).push(i));
                assert forall|j: int| 0 <= j < before.len() implies #[trigger] address_bytes(
                    before,
                )[j] < i by {
                    assert(before[j].0 < i);
                }
            }
        }
        i += 1;
    }
    assert(all_addresses().take(16) =~= all_addresses());
    out
}

/// The addresses of this adapter: those of the mask, or the primary address where the mask is
/// empty and a primary address is known.
pub fn logical_addresses(mask: u16, primary: i32) -> (r: Vec<LogicalAddress>)
    ensures
        address_bytes(r@) == (if mask_addresses(mask).len() == 0 && primary != CECDEVICE_UNKNOWN {
            seq![primary as u8]
        } else {
            mask_addresses(mask)
        }),
{
    let mut out = mask_to_addresses(mask);
    if out.len() == 0 && primary != CECDEVICE_UNKNOWN {
        assert(address_bytes(out@).len() == 0);
        out.push(LogicalAddress(#[verifier::truncate] (primary as u8)));
        assert(address_bytes(out@) =~= seq![primary as u8]);
    }
    out
}

/// This adapter's primary logical address, if one is registered.
pub fn first_logical_address(addresses: &Vec<LogicalAddress>) -> (r: Option<LogicalAddress>)
    ensures
        r == (if addresses@.len() > 0 {
            Some(addresses@[0])
        } else {
            None
        }),
{
    if addresses.len() > 0 {
        Some(addresses[0])
    } else {
        None
    }
}

/// Whether an address is in a list.
pub fn lists(v: &Vec<LogicalAddress>, a: u8) -> (r: bool)
    ensures
        r == address_bytes(v@).contains(a),
{
    let mut i: usize = 0;
    while i < v.len()
        invariant
            i <= v@.len(),
            forall|j: int| 0 <= j < i ==> v@[j].0 != a,
        decreases v@.len() - i,
    {
        if v[i].0 == a {
            assert(address_bytes(v@)[i as int] == a);
            return true;
        }
        i += 1;
    }
    proof {
        if address_bytes(v@).contains(a) {
            let k = address_bytes(v@).index_of(a);
            assert(v@[k].0 == a);
        }
    }
    false
}

/// Whether a list holds addresses only, none of them twice.
pub open spec fn address_list(v: Seq<LogicalAddress>) -> bool {
    &&& address_bytes(v).no_duplicates()
    &&& forall|i: int| 0 <= i < v.len() ==> (#[trigger] v[i]).0 <= 15
}

/// The active addresses and, unless `active_only`, those of 0..=14 that answer a poll, ascending.
pub open spec fn with_polled(active: Seq<u8>, answers: Seq<bool>) -> Seq<u8> {
    all_addresses().filter(|a: u8| active.contains(a) || (a <= 14 && answers[a as int]))
}

/// The active addresses, together with every other address of 0..=14 that answered a poll
/// (`answers[a]` for address `a`). With `active_only` the polls do not count and the list stays
/// as it is; otherwise it is in ascending order.
pub fn logical_addresses_with_poll(
    active: Vec<LogicalAddress>,
    active_only: bool,
    answers: &Vec<bool>,
) -> (r: Vec<LogicalAddress>)
    requires
        address_list(active@),
        answers@.len() == 15,
    ensures
        active_only ==> r@ == active@,
        !active_only ==> address_bytes(r@) == with_polled(address_bytes(active@), answers@),
{
    if active_only {
        return active;
    }
    let mut out: Vec<LogicalAddress> = Vec::new();
    let mut i: u8 = 0;
    let ghost av = address_bytes(active@);
    let ghost p = |a: u8| av.contains(a) || (a <= 14 && answers@[a as int]);
    proof {
        reveal(Seq::filter);
        assert(address_bytes(out@) =~= all_addresses().take(0).filter(p));
    }
    while i < 16
        invariant
            i <= 16,
            answers@.len() == 15,
            av == address_bytes(active@),
            p == (|a: u8| av.contains(a) || (a <= 14 && answers@[a as int])),
            address_bytes(out@) == all_addresses().take(i as int).filter(p),
        decreases 16 - i,
    {
        let ghost before = out@;
        proof {
            reveal(Seq::filter);
            assert(all_addresses().take(i as int + 1).drop_last() =~= all_addresses().take(
                i as int,
            ));
            assert(all_addresses().take(i as int + 1).last() == i);
        }
        if lists(&active, i) || (i <= 14 && answers[i as usize]) {
            out.push(LogicalAddress(i));
            assert(address_bytes(out@) =~= address_bytes(before).push(i));
        }
        i += 1;
    }
    assert(all_addresses().take(16) =~= all_addresses());
    out
}

// ---------------------------------------------------------------------------
// Adapters and configuration
// ---------------------------------------------------------------------------

/// The bytes of slot `i` of an adapter search buffer.
pub open spec fn slot(buf: Seq<u8>, i: int) -> Seq<u8> {
    buf.subrange(i * CEC_ADAPTER_STR_SIZE, (i + 1) * CEC_ADAPTER_STR_SIZE)
}

fn slot_text(buf: &Vec<u8>, i: usize) -> (r: String)
    requires
        i < MAX_ADAPTERS,
        buf@.len() == MAX_ADAPTERS * CEC_ADAPTER_STR_SIZE,
    ensures
        r@ == text::lossy(before_nul(slot(buf@, i as int))),
{
    let start: usize = i * CEC_ADAPTER_STR_SIZE;
    let mut bytes: Vec<u8> = Vec::new();
    let mut k: usize = 0;
    while k < CEC_ADAPTER_STR_SIZE
        invariant
            k <= CEC_ADAPTER_STR_SIZE,
            start == i * CEC_ADAPTER_STR_SIZE,
            i < MAX_ADAPTERS,
            buf@.len() == MAX_ADAPTERS * CEC_ADAPTER_STR_SIZE,
            bytes@ == slot(buf@, i as int).take(k as int),
        decreases CEC_ADAPTER_STR_SIZE - k,
    {
        bytes.push(buf[start + k]);
        k += 1;
        assert(bytes@ =~= slot(buf@, i as int).take(k as int));
    }
    assert(slot(buf@, i as int).take(k as int) =~= slot(buf@, i as int));
    buffer_text(bytes.as_slice())
}

/// The adapters that a search found, out of the buffers that it filled.
pub fn found_adapters(count: i8, paths: &Vec<u8>, comms: &Vec<u8>) -> (r: Result<
    Vec<Adapter>,
    CecError,
>)
    requires
        count <= MAX_ADAPTERS,
        paths@.len() == MAX_ADAPTERS * CEC_ADAPTER_STR_SIZE,
        comms@.len() == MAX_ADAPTERS * CEC_ADAPTER_STR_SIZE,
    ensures
        match r {
            Ok(v) => count >= 0 && v@.len() == count && forall|i: int|
                0 <= i < count ==> {
                    &&& (#[trigger] v@[i]).path@ == text::lossy(before_nul(slot(paths@, i)))
                    &&& v@[i].comm@ == text::lossy(before_nul(slot(comms@, i)))
                },
            Err(e) => count < 0 && is_failed_call(e, "libcec_find_adapters"@),
        },
{
    if count < 0 {
        return Err(CecError::LibcecCall("libcec_find_adapters".to_owned()));
    }
    let n: usize = count as usize;
    let mut out: Vec<Adapter> = Vec::new();
    let mut i: usize = 0;
    while i < n
        invariant
            i <= n <= MAX_ADAPTERS,
            out@.len() == i,
            paths@.len() == MAX_ADAPTERS * CEC_ADAPTER_STR_SIZE,
            comms@.len() == MAX_ADAPTERS * CEC_ADAPTER_STR_SIZE,
            forall|j: int|
                0 <= j < i ==> {
                    &&& (#[trigger] out@[j]).path@ == text::lossy(before_nul(slot(paths@, j)))
                    &&& out@[j].comm@ == text::lossy(before_nul(slot(comms@, j)))
                },
        decreases n - i,
    {
        let a = Adapter { path: slot_text(paths, i), comm: slot_text(comms, i) };
        out.push(a);
        i += 1;
    }
    Ok(out)
}

/// The running configuration as libcec reports it. Only the fields that libcec reports are filled
/// in; `monitor_only` is the session's own flag and the address lists read back empty.
pub fn current_configuration(
    rc: i32,
    device_name: &[u8],
    device_type: i32,
    physical_address: u16,
    base_device: i32,
    hdmi_port: u8,
    monitor_only: bool,
) -> (r: Result<Configuration, CecError>)
    ensures
        match r {
            Ok(c) => {
                &&& rc != 0
                &&& c.device_name@ == text::lossy(before_nul(device_name@))
                &&& c.device_type.0 == device_type as u8
                &&& c.physical_address == physical_address
                &&& c.base_device.0 == base_device as u8
                &&& c.hdmi_port == hdmi_port
                &&& c.monitor_only == monitor_only
                &&& !c.activate_source
                &&& c.wake_devices@.len() == 0
                &&& c.power_off_devices@.len() == 0
            },
            Err(e) => rc == 0 && is_failed_call(e, "get current configuration"@),
        },
{
    if rc == 0 {
        return Err(CecError::LibcecCall("get current configuration".to_owned()));
    }
    Ok(
        Configuration {
            device_name: buffer_text(device_name),
            device_type: DeviceType(#[verifier::truncate] (device_type as u8)),
            physical_address,
            base_device: LogicalAddress(#[verifier::truncate] (base_device as u8)),
            hdmi_port,
            monitor_only,
            activate_source: false,
            wake_devices: Vec::new(),
            power_off_devices: Vec::new(),
        },
    )
}

/// The device name that libcec reports for the session; empty where it reports none.
pub fn device_name(configuration: Result<Configuration, CecError>) -> (r: String)
    ensures
        r@ == (match configuration {
            Ok(c) => c.device_name@,
            Err(_) => Seq::empty(),
        }),
{
    match configuration {
        Ok(c) => c.device_name,
        Err(_) => String::new(),
    }
}

/// The major version in a libcec version number, e.g. 7 for libcec 7.x.
pub fn linked_libcec_major(client_version: u32) -> (r: u32)
    ensures
        r == client_version / 65536,
{
    client_version / 65536
}

// ---------------------------------------------------------------------------
// Device info
// ---------------------------------------------------------------------------

/// What the single queries about a device gave; `None` for a query that failed.
#[derive(Debug)]
pub struct DeviceReplies {
    pub is_active: bool,
    pub is_active_source: bool,
    pub physical_address: Option<u16>,
    pub vendor_id: Option<u64>,
    pub cec_version: Option<CECVersion>,
    pub power_status: Option<PowerStatus>,
    pub osd_name: Option<String>,
    pub menu_language: Option<String>,
}

impl DeviceReplies {
    /// No query was answered.
    pub open spec fn silent(&self) -> bool {
        &&& self.physical_address is None
        &&& self.vendor_id is None
        &&& self.cec_version is None
        &&& self.power_status is None
        &&& self.osd_name is None
        &&& self.menu_language is None
    }
}

/// `d` puts together what the queries about the device at `address` gave: the answered values
/// as they are, the others at their defaults and flagged.
pub open spec fn assembled(address: LogicalAddress, q: DeviceReplies, d: DeviceInfo) -> bool {
    let vid = match q.vendor_id {
        Some(v) => v,
        None => 0,
    };
    let phys = match q.physical_address {
        Some(p) => p,
        None => 0,
    };
    &&& d.logical_address == address
    &&& d.address_name@ == logical_address_text(address.0)
    &&& d.physical_address == phys
    &&& d.osd_name@ == (match q.osd_name {
        Some(s) => s@,
        None => Seq::empty(),
    })
    &&& d.menu_language@ == (match q.menu_language {
        Some(s) => s@,
        None => Seq::empty(),
    })
    &&& d.vendor_id == vid
    &&& d.vendor_name@ == vendor_text(vid)
    &&& d.vendor_known == vendor(vid) is Some
    &&& d.cec_version.0 == (match q.cec_version {
        Some(v) => v.0,
        None => CECVersion::UNKNOWN,
    })
    &&& d.power_status.0 == (match q.power_status {
        Some(p) => p.0,
        None => PowerStatus::UNKNOWN,
    })
    &&& d.hdmi_port == hdmi_port_of(phys)
    &&& d.is_active == q.is_active
    &&& d.is_active_source == q.is_active_source
    &&& d.errors == (DeviceInfoErrors {
        physical_address: q.physical_address is None,
        vendor_id: q.vendor_id is None,
        cec_version: q.cec_version is None,
        power_status: q.power_status is None,
        osd_name: q.osd_name is None,
        menu_language: q.menu_language is None,
    })
}

/// Aggregated device info: partial failures are flagged in `DeviceInfo.errors`; it is an error
/// only when every query failed (device unresponsive).
pub fn get_device_info(address: LogicalAddress, q: DeviceReplies) -> (r: Result<
    DeviceInfo,
    CecError,
>)
    ensures
        match r {
            Ok(d) => !q.silent() && assembled(address, q, d),
            Err(e) => q.silent() && is_failed_call(e, "device info: all sub-queries failed"@),
        },
{
    let errors = DeviceInfoErrors {
        physical_address: q.physical_address.is_none(),
        vendor_id: q.vendor_id.is_none(),
        cec_version: q.cec_version.is_none(),
        power_status: q.power_status.is_none(),
        osd_name: q.osd_name.is_none(),
        menu_language: q.menu_language.is_none(),
    };
    if errors.all() {
        return Err(CecError::LibcecCall("device info: all sub-queries failed".to_owned()));
    }
    let phys: u16 = match q.physical_address {
        Some(p) => p,
        None => 0,
    };
    let vid: u64 = match q.vendor_id {
        Some(v) => v,
        None => 0,
    };
    let osd_name = match q.osd_name {
        Some(s) => s,
        None => String::new(),
    };
    let menu_language = match q.menu_language {
        Some(s) => s,
        None => String::new(),
    };
    let cec_version = match q.cec_version {
        Some(v) => v,
        None => CECVersion(CECVersion::UNKNOWN),
    };
    let power_status = match q.power_status {
        Some(p) => p,
        None => PowerStatus(PowerStatus::UNKNOWN),
    };
    Ok(
        DeviceInfo {
            logical_address: address,
            address_name: address.to_string(),
            physical_address: phys,
            osd_name,
            menu_language,
            vendor_id: vid,
            vendor_name: get_vendor_name(vid),
            vendor_known: is_known_vendor(vid),
            cec_version,
            power_status,
            hdmi_port: DeviceInfo::derive_hdmi_port(phys),
            is_active: q.is_active,
            is_active_source: q.is_active_source,
            errors,
        },
    )
}

// ---------------------------------------------------------------------------
// Laws
// ---------------------------------------------------------------------------

/// Volume and mute flag make up the byte of an audio status: nothing is lost, and the volume is
/// from 0 to 127.
pub proof fn law_audio_status_parts_make_up_the_byte(status: u8)
    ensures
        ({
            let (volume, muted, raw) = audio_parts(status);
            &&& volume < 128
            &&& status == volume + (if muted {
                128int
            } else {
                0int
            })
            &&& raw == status
        }),
{
}

proof fn lemma_filter_addresses(p: spec_fn(u8) -> bool, n: int)
    requires
        0 <= n <= 16,
    ensures
        ({
            let f = all_addresses().take(n).filter(p);
            &&& forall|a: u8| #[trigger] f.contains(a) <==> a < n && p(a)
            &&& forall|i: int, j: int| 0 <= i < j < f.len() ==> #[trigger] f[i] < #[trigger] f[j]
        }),
    decreases n,
{
    reveal(Seq::filter);
    let t = all_addresses().take(n);
    let f = t.filter(p);
    if n > 0 {
        lemma_filter_addresses(p, n - 1);
        assert(t.drop_last() =~= all_addresses().take(n - 1));
        let g = t.drop_last().filter(p);
        let last = (n - 1) as u8;
        assert(t.last() == last);
        assert forall|i: int| 0 <= i < g.len() implies #[trigger] g[i] < n - 1 by {
            assert(g.contains(g[i]));
        }
        if p(last) {
            assert(f == g.push(last));
            assert(f[g.len() as int] == last);
            assert forall|a: u8| #[trigger] f.contains(a) <==> a < n && p(a) by {
                if g.contains(a) {
                    let k = g.index_of(a);
                    assert(f[k] == a);
                }
                if f.contains(a) {
                    let k = f.index_of(a);
                    if k < g.len() {
                        assert(g[k] == a);
                    }
                }
            }
        }
    } else {
        assert(t =~= Seq::<u8>::empty());
        assert(f =~= Seq::<u8>::empty());
    }
}

/// The addresses of a mask are those whose bits are set, each once, in ascending order.
pub proof fn law_mask_lists_its_bits(mask: u16, a: u8)
    ensures
        mask_addresses(mask).contains(a) <==> a < 16 && mask_bit(mask, a),
        mask_addresses(mask).no_duplicates(),
        forall|i: int, j: int|
            0 <= i < j < mask_addresses(mask).len() ==> #[trigger] mask_addresses(mask)[i]
                < #[trigger] mask_addresses(mask)[j],
{
    lemma_filter_addresses(|a: u8| mask_bit(mask, a), 16);
    assert(all_addresses().take(16) =~= all_addresses());
}

/// The bit of an address is its own: the mask of one address lists that address and no other, and
/// a mask that two masks make up lists what either lists.
pub proof fn law_each_address_has_its_bit(a: u8, b: u8, m: u16, n: u16)
    requires
        a < 16,
        b < 16,
    ensures
        mask_bit(1u16 << a, b) == (a == b),
        mask_bit(m | n, a) == (mask_bit(m, a) || mask_bit(n, a)),
        !mask_bit(0, a),
{
    assert((((1u16 << a) >> b) & 1 == 1) == (a == b)) by (bit_vector)
        requires
            a < 16,
            b < 16,
    ;
    assert((((m | n) >> a) & 1 == 1) == ((m >> a) & 1 == 1 || (n >> a) & 1 == 1)) by (bit_vector)
        requires
            a < 16,
    ;
    assert((0u16 >> a) & 1 == 0) by (bit_vector)
        requires
            a < 16,
    ;
}

/// A scan with polls lists every device that libcec lists and every other one that answers, each
/// once, in ascending order; an address without answer is not listed.
pub proof fn law_polls_add_the_devices_that_answer(active: Seq<u8>, answers: Seq<bool>, a: u8)
    requires
        answers.len() == 15,
        a < 16,
    ensures
        with_polled(active, answers).contains(a) <==> active.contains(a) || (a <= 14
            && answers[a as int]),
        forall|i: int, j: int|
            0 <= i < j < with_polled(active, answers).len() ==> #[trigger] with_polled(
                active,
                answers,
            )[i] < #[trigger] with_polled(active, answers)[j],
{
    lemma_filter_addresses(|a: u8| active.contains(a) || (a <= 14 && answers[a as int]), 16);
    assert(all_addresses().take(16) =~= all_addresses());
}

/// The text in a buffer ends at the first NUL, or with the buffer where there is none.
pub proof fn law_text_ends_at_the_first_nul(buf: Seq<u8>)
    ensures
        before_nul(buf).len() <= buf.len(),
        buf.take(before_nul(buf).len() as int) == before_nul(buf),
        !before_nul(buf).contains(0),
        before_nul(buf).len() < buf.len() ==> buf[before_nul(buf).len() as int] == 0,
    decreases buf.len(),
{
    let b = before_nul(buf);
    if buf.len() > 0 && buf[0] != 0 {
        let rest = before_nul(buf.skip(1));
        law_text_ends_at_the_first_nul(buf.skip(1));
        assert(b =~= seq![buf[0]] + rest);
        assert(buf.take(b.len() as int) =~= seq![buf[0]] + buf.skip(1).take(rest.len() as int));
        if b.contains(0) {
            let k = b.index_of(0);
            if k > 0 {
                assert(rest[k - 1] == 0);
            }
        }
        if b.len() < buf.len() {
            assert(buf.skip(1)[rest.len() as int] == 0);
        }
    } else {
        assert(buf.take(0) =~= b);
    }
}

/// What a device answered stands in its entry, and what it did not answer is flagged: a value is
/// never made up for an answer.
pub proof fn law_answers_stand_in_the_info(address: LogicalAddress, q: DeviceReplies, d: DeviceInfo)
    requires
        assembled(address, q, d),
    ensures
        d.logical_address == address,
        q.physical_address matches Some(p) ==> d.physical_address == p
            && !d.errors.physical_address,
        q.vendor_id matches Some(v) ==> d.vendor_id == v && !d.errors.vendor_id,
        q.cec_version matches Some(v) ==> d.cec_version.0 == v.0 && !d.errors.cec_version,
        q.power_status matches Some(p) ==> d.power_status.0 == p.0 && !d.errors.power_status,
        q.osd_name matches Some(s) ==> d.osd_name@ == s@ && !d.errors.osd_name,
        q.menu_language matches Some(s) ==> d.menu_language@ == s@ && !d.errors.menu_language,
        q.physical_address is None ==> d.errors.physical_address,
        q.vendor_id is None ==> d.errors.vendor_id,
        q.cec_version is None ==> d.errors.cec_version,
        q.power_status is None ==> d.errors.power_status,
        q.osd_name is None ==> d.errors.osd_name && d.osd_name@.len() == 0,
        q.menu_language is None ==> d.errors.menu_language && d.menu_language@.len() == 0,
        d.is_active == q.is_active,
        d.is_active_source == q.is_active_source,
{
}

/// A failed call is told with what was called: a call for a device names its address.
pub proof fn law_failures_name_the_device(address: u8)
    ensures
        failure_text(CecCall::PowerOn { address }) == Some(
            "power on "@ + text::dec(address as nat),
        ),
        failure_text(CecCall::Standby { address }) == Some("standby "@ + text::dec(address as nat)),
        failure_text(CecCall::PhysicalAddress { address }) == Some(
            "physical address "@ + text::dec(address as nat),
        ),
        failure_text(CecCall::PowerStatus { address }) == Some(
            "get power status "@ + text::dec(address as nat),
        ),
{
}

/// The slots of the search buffer lie side by side, each of the size of a name.
pub proof fn law_slots_lie_side_by_side(buf: Seq<u8>, i: int, k: int)
    requires
        0 <= i,
        (i + 1) * 1024 <= buf.len(),
        0 <= k < 1024,
    ensures
        slot(buf, i).len() == 1024,
        slot(buf, i)[k] == buf[i * 1024 + k],
{
}

} // verus!
