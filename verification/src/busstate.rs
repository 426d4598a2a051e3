//! Cached bus snapshot, passively observed device fields, and the frame ring.
//!
//! Frames carry increasing sequence numbers; what is new is told by sequence number, never by
//! position, so a ring that wrapped hides nothing.

use crate::assoc;
use crate::cec::types::{power_status_str, power_status_text, Command, CommandV, Opcode};
use crate::json;
use crate::json::JsonV;
use crate::strategies::{hex_byte_value, law_hexadecimal_bytes_read_back, settles};
use crate::text;
use crate::time::{Duration, Timestamp, NANOS_PER_SEC};
use crate::types::{frame_views, BusFrameEntry, FrameV};
use std::collections::VecDeque;
use vstd::prelude::*;

verus! {

// ---------------------------------------------------------------------------
// Model
// ---------------------------------------------------------------------------

/// What was seen of a device in passing.
pub struct ObservedV {
    pub fields: Map<Seq<char>, JsonV>,
    pub first_seen: Timestamp,
    pub last_seen: Timestamp,
}

/// What a [`BusState`] holds.
pub struct BusV {
    pub devices: Seq<JsonV>,
    pub addresses: Seq<i32>,
    pub active_source: int,
    pub cec_ready: bool,
    pub monitoring: bool,
    pub scan_in_progress: bool,
    pub last_full_scan_at: Option<Timestamp>,
    pub stale_threshold_sec: int,
    pub observed: Map<i32, ObservedV>,
    pub ring: Seq<(u64, FrameV)>,
    pub ring_cap: nat,
    pub generation: int,
    pub next_seq: nat,
    pub frames_captured: u64,
}

impl BusV {
    /// The sequence numbers begin with 1; those in the ring increase, and all are past ones.
    pub open spec fn ring_ordered(self) -> bool {
        &&& self.next_seq >= 1
        &&& forall|i: int|
            0 <= i < self.ring.len() ==> 1 <= (#[trigger] self.ring[i]).0 < self.next_seq
        &&& forall|i: int, j: int|
            0 <= i < j < self.ring.len() ==> (#[trigger] self.ring[i]).0 < (
            #[trigger] self.ring[j]).0
    }

    /// The bus after a device was seen: a first sighting begins an entry.
    pub open spec fn seen(self, addr: i32, now: Timestamp) -> BusV {
        let entry = if self.observed.contains_key(addr) {
            ObservedV { last_seen: now, ..self.observed[addr] }
        } else {
            ObservedV { fields: Map::empty(), first_seen: now, last_seen: now }
        };
        BusV { observed: self.observed.insert(addr, entry), ..self }
    }

    /// The bus after a field of a device was seen.
    pub open spec fn recorded(self, addr: i32, key: Seq<char>, value: JsonV, now: Timestamp) -> BusV {
        let s = self.seen(addr, now);
        BusV {
            observed: s.observed.insert(
                addr,
                ObservedV {
                    fields: s.observed[addr].fields.insert(key, value),
                    ..s.observed[addr]
                },
            ),
            ..s
        }
    }

    /// The text that was observed in a field of a device.
    pub open spec fn observed_text(self, addr: i32, key: Seq<char>) -> Option<Seq<char>> {
        if self.observed.contains_key(addr) && self.observed[addr].fields.contains_key(key) {
            match self.observed[addr].fields[key] {
                JsonV::Text(t) => Some(t),
                _ => None,
            }
        } else {
            None
        }
    }

    /// The bus after a command was seen: what the command says of its sender is on record.
    pub open spec fn with_command(self, cmd: CommandV, now: Timestamp) -> BusV {
        let addr = cmd.initiator as i32;
        let p = cmd.parameters;
        if cmd.opcode == Opcode::REPORT_POWER_STATUS {
            if p.len() > 0 {
                self.recorded(addr, "power_status"@, JsonV::Text(power_status_text(p[0])), now)
            } else {
                self
            }
        } else if cmd.opcode == Opcode::REPORT_AUDIO_STATUS {
            if p.len() > 0 {
                self.recorded(addr, "audio_volume_raw"@, JsonV::Int(p[0] as int % 128), now).recorded(
                    addr,
                    "audio_muted"@,
                    JsonV::Bool(p[0] >= 128),
                    now,
                )
            } else {
                self
            }
        } else if cmd.opcode == Opcode::SET_OSD_NAME {
            let name = text::without_trailing(text::lossy(p), '\0');
            if name.len() > 0 {
                self.recorded(addr, "osd_name_fragment"@, JsonV::Text(name), now)
            } else {
                self
            }
        } else if cmd.opcode == Opcode::FEATURE_ABORT {
            if p.len() > 1 {
                self.recorded(addr, "last_feature_abort_opcode"@, JsonV::Int(p[0] as int), now).recorded(
                    addr,
                    "last_feature_abort_reason"@,
                    JsonV::Int(p[1] as int),
                    now,
                )
            } else if p.len() > 0 {
                self.recorded(addr, "last_feature_abort_opcode"@, JsonV::Int(p[0] as int), now)
            } else {
                self
            }
        } else if cmd.opcode == Opcode::DEVICE_VENDOR_ID && p.len() >= 3 {
            self.recorded(addr, "vendor_id"@, JsonV::Text(vendor_id_text(p)), now)
        } else {
            self
        }
    }

    /// The bus after a frame was captured into a ring of `cap` frames.
    pub open spec fn with_frame(self, cmd: CommandV, cap: nat, now: Timestamp) -> BusV {
        if cap == 0 {
            self
        } else {
            let all = self.ring.push((self.next_seq as u64, frame_of(cmd, now)));
            BusV {
                ring: if all.len() > cap {
                    all.skip(all.len() - cap)
                } else {
                    all
                },
                next_seq: self.next_seq + 1,
                frames_captured: self.frames_captured.wrapping_add(1),
                ..self
            }
        }
    }

    /// The frames in the ring with a sequence number above `after`.
    pub open spec fn newer(self, after: u64) -> Seq<FrameV> {
        frames_above(self.ring, after)
    }
}

/// The text form of the vendor ID in the first three parameter bytes.
pub open spec fn vendor_id_text(p: Seq<u8>) -> Seq<char> {
    "0x"@ + text::hex((p[0] as int * 65536 + p[1] as int * 256 + p[2] as int) as nat, 6, false)
}

/// The captured form of a command.
pub open spec fn frame_of(cmd: CommandV, now: Timestamp) -> FrameV {
    FrameV {
        timestamp: now,
        initiator: cmd.initiator as int,
        destination: cmd.destination as int,
        opcode: "0x"@ + text::hex(cmd.opcode as nat, 2, false),
        ack: cmd.ack,
        eom: cmd.eom,
        opcode_set: cmd.opcode_set,
        params_hex: cmd.parameters.map_values(|b: u8| text::hex(b as nat, 2, true)),
    }
}

/// The frames of a ring whose sequence number is above `after`, in order.
pub open spec fn frames_above(ring: Seq<(u64, FrameV)>, after: u64) -> Seq<FrameV>
    decreases ring.len(),
{
    if ring.len() == 0 {
        Seq::empty()
    } else if ring.last().0 > after {
        frames_above(ring.drop_last(), after).push(ring.last().1)
    } else {
        frames_above(ring.drop_last(), after)
    }
}

/// The prefix of observed fields in a device object.
pub const OBSERVED_PREFIX: &'static str = "observed_";

/// A device object with the fields that were observed of the device, each under its prefixed name.
pub open spec fn with_observed_fields(
    o: Map<Seq<char>, JsonV>,
    fields: Map<Seq<char>, JsonV>,
) -> Map<Seq<char>, JsonV> {
    let n = OBSERVED_PREFIX@.len() as int;
    Map::new(
        |k: Seq<char>|
            o.contains_key(k) || (text::starts_with(k, OBSERVED_PREFIX@) && fields.contains_key(
                k.skip(n),
            )),
        |k: Seq<char>|
            if text::starts_with(k, OBSERVED_PREFIX@) && fields.contains_key(k.skip(n)) {
                fields[k.skip(n)]
            } else {
                o[k]
            },
    )
}

/// A device with what was observed of it.
pub open spec fn merged(d: JsonV, observed: Map<i32, ObservedV>) -> JsonV {
    match d {
        JsonV::Object(o) => match json::int_field(d, "logical_address"@) {
            Some(la) => if observed.contains_key(la as i32) {
                JsonV::Object(
                    with_observed_fields(o, observed[la as i32].fields).insert(
                        "observed_at"@,
                        JsonV::Text(observed[la as i32].last_seen.text()),
                    ),
                )
            } else {
                d
            },
            None => d,
        },
        _ => d,
    }
}

// ---------------------------------------------------------------------------
// State
// ---------------------------------------------------------------------------

/// A copy of the cached state of the bus.
#[derive(Debug)]
pub struct BusStateSnapshot {
    pub devices: Vec<serde_json::Value>,
    pub logical_addresses: Vec<i32>,
    pub active_source: i32,
    pub cec_ready: bool,
    pub monitoring: bool,
    pub scan_in_progress: bool,
    pub stale: bool,
    pub last_full_scan_at: Option<Timestamp>,
    pub stale_threshold_sec: i64,
    pub generation: i64,
}

#[derive(Debug)]
struct Observed {
    addr: i32,
    fields: Vec<(String, serde_json::Value)>,
    first_seen: Timestamp,
    last_seen: Timestamp,
}

spec fn field_pairs(v: Seq<(String, serde_json::Value)>) -> Seq<(Seq<char>, JsonV)> {
    v.map_values(|f: (String, serde_json::Value)| (f.0@, json::json(f.1)))
}

impl Observed {
    spec fn view(&self) -> ObservedV {
        ObservedV {
            fields: assoc::to_map(field_pairs(self.fields@)),
            first_seen: self.first_seen,
            last_seen: self.last_seen,
        }
    }
}

spec fn observed_pairs(v: Seq<Observed>) -> Seq<(i32, ObservedV)> {
    v.map_values(|o: Observed| (o.addr, o.view()))
}

/// What the frames with their sequence numbers hold.
pub open spec fn ring_view(v: Seq<(u64, BusFrameEntry)>) -> Seq<(u64, FrameV)> {
    v.map_values(|e: (u64, BusFrameEntry)| (e.0, e.1@))
}

/// The cached state of the bus.
#[derive(Debug)]
pub struct BusState {
    devices: Vec<serde_json::Value>,
    addresses: Vec<i32>,
    active_source: i32,
    cec_ready: bool,
    monitoring: bool,
    scan_in_progress: bool,
    last_full_scan_at: Option<Timestamp>,
    stale_threshold_sec: i64,
    observed: Vec<Observed>,
    ring: VecDeque<(u64, BusFrameEntry)>,
    ring_cap: usize,
    generation: i64,
    next_seq: u64,
    frames_captured: u64,
}

impl View for BusState {
    type V = BusV;

    closed spec fn view(&self) -> BusV {
        BusV {
            devices: json::jsons(self.devices@),
            addresses: self.addresses@,
            active_source: self.active_source as int,
            cec_ready: self.cec_ready,
            monitoring: self.monitoring,
            scan_in_progress: self.scan_in_progress,
            last_full_scan_at: self.last_full_scan_at,
            stale_threshold_sec: self.stale_threshold_sec as int,
            observed: assoc::to_map(observed_pairs(self.observed@)),
            ring: ring_view(self.ring@),
            ring_cap: self.ring_cap as nat,
            generation: self.generation as int,
            next_seq: self.next_seq as nat,
            frames_captured: self.frames_captured,
        }
    }
}

impl BusState {
    spec fn observed_unique(&self) -> bool {
        &&& assoc::unique_keys(observed_pairs(self.observed@))
        &&& forall|i: int|
            0 <= i < self.observed@.len() ==> assoc::unique_keys(
                field_pairs((#[trigger] self.observed@[i]).fields@),
            )
    }

    /// One entry for each observed device, one value for each observed field, and frames in the
    /// order of their sequence numbers.
    pub closed spec fn wf(&self) -> bool {
        self.observed_unique() && self@.ring_ordered()
    }

    pub fn new() -> (r: BusState)
        ensures
            r.wf(),
            r@ == (BusV {
                devices: Seq::empty(),
                addresses: Seq::empty(),
                active_source: -1,
                cec_ready: false,
                monitoring: false,
                scan_in_progress: false,
                last_full_scan_at: None,
                stale_threshold_sec: 180,
                observed: Map::empty(),
                ring: Seq::empty(),
                ring_cap: 0,
                generation: 0,
                next_seq: 1,
                frames_captured: 0,
            }),
    {
        let r = BusState {
            devices: Vec::new(),
            addresses: Vec::new(),
            active_source: -1,
            cec_ready: false,
            monitoring: false,
            scan_in_progress: false,
            last_full_scan_at: None,
            stale_threshold_sec: 180,
            observed: Vec::new(),
            ring: VecDeque::new(),
            ring_cap: 0,
            generation: 0,
            next_seq: 1,
            frames_captured: 0,
        };
        assert(r@.devices =~= Seq::empty());
        assert(r@.ring =~= Seq::empty());
        r
    }

    pub fn set_cec_ready(&mut self, on: bool)
        requires
            old(self).wf(),
        ensures
            final(self).wf(),
            final(self)@ == (BusV { cec_ready: on, ..old(self)@ }),
    {
        self.cec_ready = on;
    }

    pub fn set_monitoring(&mut self, on: bool)
        requires
            old(self).wf(),
        ensures
            final(self).wf(),
            final(self)@ == (BusV { monitoring: on, ..old(self)@ }),
    {
        self.monitoring = on;
    }

    pub fn set_scan_in_progress(&mut self, v: bool)
        requires
            old(self).wf(),
        ensures
            final(self).wf(),
            final(self)@ == (BusV { scan_in_progress: v, ..old(self)@ }),
    {
        self.scan_in_progress = v;
    }

    /// Sets the size of the frame ring; 0 switches it off and drops what it holds.
    pub fn set_frame_ring_capacity(&mut self, cap: usize)
        requires
            old(self).wf(),
        ensures
            final(self).wf(),
            final(self)@ == (BusV {
                ring_cap: cap as nat,
                ring: if cap == 0 {
                    Seq::empty()
                } else {
                    old(self)@.ring
                },
                ..old(self)@
            }),
    {
        self.ring_cap = cap;
        if cap == 0 {
            self.ring.clear();
            assert(ring_view(self.ring@) =~= Seq::empty());
        }
    }

    pub fn frame_ring_capacity(&self) -> (r: usize)
        ensures
            r == self@.ring_cap,
    {
        self.ring_cap
    }

    /// Frames captured since the start.
    pub fn frames_captured(&self) -> (r: u64)
        ensures
            r == self@.frames_captured,
    {
        self.frames_captured
    }

    /// Counts one more rebuild and gives the new count.
    pub fn bump_generation(&mut self) -> (r: i64)
        requires
            old(self).wf(),
            old(self)@.generation < i64::MAX,
        ensures
            final(self).wf(),
            r == old(self)@.generation + 1,
            final(self)@ == (BusV { generation: r as int, ..old(self)@ }),
    {
        self.generation = self.generation + 1;
        self.generation
    }

    /// Replaces the cached devices. The scan is over; the time of the last full scan stays where
    /// none is given.
    pub fn replace_snapshot(
        &mut self,
        devices: Vec<serde_json::Value>,
        addresses: Vec<i32>,
        active_source: i32,
        cec_ready: bool,
        monitoring: bool,
        last_full: Option<Timestamp>,
        stale_threshold_sec: i64,
        ring_cap: usize,
    )
        requires
            old(self).wf(),
        ensures
            final(self).wf(),
            final(self)@ == (BusV {
                devices: json::jsons(devices@),
                addresses: addresses@,
                active_source: active_source as int,
                cec_ready,
                monitoring,
                scan_in_progress: false,
                last_full_scan_at: if last_full is Some {
                    last_full
                } else {
                    old(self)@.last_full_scan_at
                },
                stale_threshold_sec: stale_threshold_sec as int,
                ring_cap: ring_cap as nat,
                ..old(self)@
            }),
    {
        self.devices = devices;
        self.addresses = addresses;
        self.active_source = active_source;
        self.cec_ready = cec_ready;
        self.monitoring = monitoring;
        self.scan_in_progress = false;
        if last_full.is_some() {
            self.last_full_scan_at = last_full;
        }
        self.stale_threshold_sec = stale_threshold_sec;
        self.ring_cap = ring_cap;
    }

    pub fn update_active_source_quick(&mut self, active: i32, cec_ready: bool)
        requires
            old(self).wf(),
        ensures
            final(self).wf(),
            final(self)@ == (BusV { active_source: active as int, cec_ready, ..old(self)@ }),
    {
        self.active_source = active;
        self.cec_ready = cec_ready;
    }

    /// A copy of the cached state. It is stale when no full scan has been made, or when the last
    /// one is older than the threshold (of at least a second).
    pub fn copy_snapshot(&self, now: Timestamp) -> (r: BusStateSnapshot)
        ensures
            json::jsons(r.devices@) == self@.devices,
            r.logical_addresses@ == self@.addresses,
            r.active_source == self@.active_source,
            r.cec_ready == self@.cec_ready,
            r.monitoring == self@.monitoring,
            r.scan_in_progress == self@.scan_in_progress,
            r.stale == stale_at(self@, now),
            r.last_full_scan_at == self@.last_full_scan_at,
            r.stale_threshold_sec == self@.stale_threshold_sec,
            r.generation == self@.generation,
    {
        let threshold: i64 = if self.stale_threshold_sec < 1 { 1 } else { self.stale_threshold_sec };
        let stale = match self.last_full_scan_at {
            Some(t) => now.later_than(t, threshold),
            None => true,
        };
        let mut addresses: Vec<i32> = Vec::new();
        let mut i: usize = 0;
        while i < self.addresses.len()
            invariant
                i <= self.addresses@.len(),
                addresses@ == self.addresses@.take(i as int),
            decreases self.addresses@.len() - i,
        {
            addresses.push(self.addresses[i]);
            i += 1;
            assert(addresses@ =~= self.addresses@.take(i as int));
        }
        assert(self.addresses@.take(i as int) =~= self.addresses@);
        BusStateSnapshot {
            devices: json::copy_all(&self.devices),
            logical_addresses: addresses,
            active_source: self.active_source,
            cec_ready: self.cec_ready,
            monitoring: self.monitoring,
            scan_in_progress: self.scan_in_progress,
            stale,
            last_full_scan_at: self.last_full_scan_at,
            stale_threshold_sec: self.stale_threshold_sec,
            generation: self.generation,
        }
    }

    // -- observed (passive) state -------------------------------------------

    fn observed_at(&self, addr: i32) -> (r: Option<usize>)
        requires
            self.observed_unique(),
        ensures
            match r {
                Some(i) => i < self.observed@.len() && self.observed@[i as int].addr == addr
                    && self@.observed.contains_key(addr) && self@.observed[addr]
                    == self.observed@[i as int].view(),
                None => !self@.observed.contains_key(addr) && forall|j: int|
                    0 <= j < self.observed@.len() ==> (#[trigger] self.observed@[j]).addr != addr,
            },
    {
        let ghost pairs = observed_pairs(self.observed@);
        let mut i: usize = 0;
        while i < self.observed.len()
            invariant
                self.observed_unique(),
                i <= self.observed@.len(),
                pairs == observed_pairs(self.observed@),
                forall|j: int| 0 <= j < i ==> (#[trigger] self.observed@[j]).addr != addr,
            decreases self.observed@.len() - i,
        {
            if self.observed[i].addr == addr {
                proof {
                    assert(pairs[i as int].0 == addr);
                    assoc::lemma_lookup(pairs, i as int);
                }
                return Some(i);
            }
            i += 1;
        }
        proof {
            assoc::lemma_domain(pairs, addr);
            assert forall|j: int| 0 <= j < pairs.len() implies (#[trigger] pairs[j]).0 != addr by {
                assert(self.observed@[j].addr != addr);
            }
        }
        None
    }

    /// Makes sure that a device has an entry that was last seen now, and gives its position.
    fn touch(&mut self, addr: i32, now: Timestamp) -> (i: usize)
        requires
            old(self).wf(),
        ensures
            final(self).wf(),
            final(self)@ == old(self)@.seen(addr, now),
            i < final(self).observed@.len(),
            final(self).observed@[i as int].addr == addr,
    {
        let ghost before = self.observed@;
        let ghost pairs = observed_pairs(before);
        match self.observed_at(addr) {
            Some(i) => {
                let o = &mut self.observed[i];
                o.last_seen = now;
                proof {
                    let nv = ObservedV { last_seen: now, ..before[i as int].view() };
                    assert(self.observed@[i as int].fields@ == before[i as int].fields@);
                    assert(self.observed@[i as int].view() == nv);
                    assert(pairs[i as int].0 == addr);
                    assert(observed_pairs(self.observed@) =~= pairs.update(i as int, (addr, nv)));
                    assoc::lemma_update(pairs, i as int, nv);
                }
                i
            },
            None => {
                let o = Observed { addr, fields: Vec::new(), first_seen: now, last_seen: now };
                let ghost nv = o.view();
                self.observed.push(o);
                proof {
                    assert(field_pairs(o.fields@) =~= Seq::empty());
                    assert(observed_pairs(self.observed@) =~= pairs.push((addr, nv)));
                    assert forall|j: int| 0 <= j < pairs.len() implies (#[trigger] pairs[j]).0
                        != addr by {
                        assert(before[j].addr != addr);
                    }
                    assoc::lemma_push(pairs, addr, nv);
                    assert forall|j: int| 0 <= j < self.observed@.len() implies assoc::unique_keys(
                        field_pairs((#[trigger] self.observed@[j]).fields@),
                    ) by {
                        if j < before.len() {
                            assert(self.observed@[j] == before[j]);
                        }
                    }
                }
                self.observed.len() - 1
            },
        }
    }

    /// Records a field of a device that was seen on the bus.
    pub fn record_observed(&mut self, addr: i32, key: &str, value: serde_json::Value, now: Timestamp)
        requires
            old(self).wf(),
        ensures
            final(self).wf(),
            final(self)@ == old(self)@.recorded(addr, key@, json::json(value), now),
    {
        let ghost jv = json::json(value);
        let i = self.touch(addr, now);
        let ghost mid = *self;
        let ghost pairs = observed_pairs(self.observed@);
        let ghost old_fields = self.observed@[i as int].fields@;
        set_field(&mut self.observed[i].fields, key, value);
        proof {
            let nv = ObservedV {
                fields: mid.observed@[i as int].view().fields.insert(key@, jv),
                ..mid.observed@[i as int].view()
            };
            assert(self.observed@[i as int].view() == nv);
            assert(pairs[i as int] == (addr, mid.observed@[i as int].view()));
            assert(observed_pairs(self.observed@) =~= pairs.update(i as int, (addr, nv)));
            assoc::lemma_update(pairs, i as int, nv);
            assoc::lemma_lookup(pairs, i as int);
            assert forall|j: int| 0 <= j < self.observed@.len() implies assoc::unique_keys(
                field_pairs((#[trigger] self.observed@[j]).fields@),
            ) by {
                if j != i {
                    assert(self.observed@[j] == mid.observed@[j]);
                }
            }
        }
    }

    /// Records that a device was seen on the bus.
    pub fn note_seen(&mut self, addr: i32, now: Timestamp)
        requires
            old(self).wf(),
        ensures
            final(self).wf(),
            final(self)@ == old(self)@.seen(addr, now),
    {
        let _i: usize = self.touch(addr, now);
    }

    /// The order in which the observed devices are listed.
    pub closed spec fn observed_order(&self) -> Seq<i32> {
        self.observed@.map_values(|o: Observed| o.addr)
    }

    /// The addresses of the observed devices, none twice.
    pub fn observed_addresses(&self) -> (r: Vec<i32>)
        requires
            self.wf(),
        ensures
            r@ == self.observed_order(),
            r@.no_duplicates(),
            forall|a: i32| r@.contains(a) <==> self@.observed.contains_key(a),
    {
        let ghost pairs = observed_pairs(self.observed@);
        let mut out: Vec<i32> = Vec::new();
        let mut i: usize = 0;
        while i < self.observed.len()
            invariant
                i <= self.observed@.len(),
                out@.len() == i,
                forall|j: int| 0 <= j < i ==> out@[j] == self.observed@[j].addr,
            decreases self.observed@.len() - i,
        {
            out.push(self.observed[i].addr);
            i += 1;
        }
        assert(out@ =~= self.observed_order());
        proof {
            assert forall|a: int, b: int| 0 <= a < out@.len() && 0 <= b < out@.len() && a
                != b implies out@[a] != out@[b] by {
                if a < b {
                    assert(pairs[a].0 != pairs[b].0);
                } else {
                    assert(pairs[b].0 != pairs[a].0);
                }
            }
            assert forall|a: i32| out@.contains(a) <==> self@.observed.contains_key(a) by {
                assoc::lemma_domain(pairs, a);
                if out@.contains(a) {
                    let k = out@.index_of(a);
                    assert(pairs[k].0 == a);
                }
                if self@.observed.contains_key(a) {
                    let k = choose|k: int| 0 <= k < pairs.len() && (#[trigger] pairs[k]).0 == a;
                    assert(out@[k] == a);
                }
            }
        }
        out
    }

    /// When a device was first and last seen.
    pub fn seen_timestamps(&self, addr: i32) -> (r: Option<(Timestamp, Timestamp)>)
        requires
            self.wf(),
        ensures
            match r {
                Some((first, last)) => self@.observed.contains_key(addr) && first
                    == self@.observed[addr].first_seen && last == self@.observed[addr].last_seen,
                None => !self@.observed.contains_key(addr),
            },
    {
        match self.observed_at(addr) {
            Some(i) => Some((self.observed[i].first_seen, self.observed[i].last_seen)),
            None => None,
        }
    }

    /// The text that was observed in a field of a device.
    pub fn observed_text(&self, addr: i32, key: &str) -> (r: Option<&str>)
        requires
            self.wf(),
        ensures
            match r {
                Some(t) => self@.observed_text(addr, key@) == Some(t@),
                None => self@.observed_text(addr, key@) is None,
            },
    {
        let i = match self.observed_at(addr) {
            Some(i) => i,
            None => {
                return None;
            },
        };
        let fields = &self.observed[i].fields;
        let ghost pairs = field_pairs(fields@);
        let mut j: usize = 0;
        while j < fields.len()
            invariant
                j <= fields@.len(),
                pairs == field_pairs(fields@),
                assoc::unique_keys(pairs),
                self@.observed.contains_key(addr),
                self@.observed[addr].fields == assoc::to_map(pairs),
                forall|k: int| 0 <= k < j ==> (#[trigger] pairs[k]).0 != key@,
            decreases fields@.len() - j,
        {
            assert(pairs[j as int] == (fields@[j as int].0@, json::json(fields@[j as int].1)));
            if text::str_eq(fields[j].0.as_str(), key) {
                proof {
                    assoc::lemma_lookup(pairs, j as int);
                }
                return json::as_str(&fields[j].1);
            }
            j += 1;
        }
        proof {
            assoc::lemma_domain(pairs, key@);
        }
        None
    }

    /// Forgets the devices that have not been seen for `ttl`; a zero `ttl` forgets none, and one
    /// that is too long to reckon with counts as ten minutes.
    pub fn prune_stale_observed(&mut self, ttl: Duration, now: Timestamp)
        requires
            old(self).wf(),
            ttl.wf(),
        ensures
            final(self).wf(),
            final(self)@ == (BusV {
                observed: remembered(old(self)@.observed, ttl, now),
                ..old(self)@
            }),
    {
        if ttl.is_zero() {
            return;
        }
        let limit = if ttl.secs > MAX_TTL_SECS || (ttl.secs == MAX_TTL_SECS && ttl.nanos
            > 807_000_000) {
            Duration::from_secs(600)
        } else {
            ttl
        };
        assert(limit@ == reckoned(ttl));
        let ghost before = self.observed@;
        let ghost all = observed_pairs(before);
        let ghost start = self@;
        let mut kept: Vec<Observed> = Vec::new();
        let mut left: Vec<Observed> = Vec::new();
        std::mem::swap(&mut left, &mut self.observed);
        let ghost mut n: int = 0;
        while left.len() > 0
            invariant
                0 <= n <= before.len(),
                left@ == before.take(before.len() - n),
                all == observed_pairs(before),
                assoc::unique_keys(all),
                forall|i: int|
                    0 <= i < before.len() ==> assoc::unique_keys(
                        field_pairs((#[trigger] before[i]).fields@),
                    ),
                kept@ == fresh_tail(before.skip(before.len() - n), now@, limit@),
            decreases left@.len(),
        {
            let ghost last = left@.last();
            proof {
                assert(before.skip(before.len() - n - 1).drop_first() =~= before.skip(
                    before.len() - n,
                ));
                assert(before.skip(before.len() - n - 1)[0] == last);
            }
            if let Some(o) = left.pop() {
                assert(left@ =~= before.take(before.len() - n - 1));
                if o.last_seen.within(now, limit) {
                    kept.push(o);
                }
            }
            proof {
                n = n + 1;
            }
        }
        assert(before.skip(0) =~= before);
        self.observed = kept;
        proof {
            let kp = observed_pairs(self.observed@);
            assert forall|i: int, j: int| 0 <= i < j < kp.len() implies (#[trigger] kp[i]).0 != (
            #[trigger] kp[j]).0 by {
                lemma_fresh_tail_order(before, now@, limit@, i, j);
            }
            assert forall|i: int| 0 <= i < self.observed@.len() implies assoc::unique_keys(
                field_pairs((#[trigger] self.observed@[i]).fields@),
            ) by {
                let k = lemma_fresh_tail_at(before, now@, limit@, i);
                assert(before[k] == self.observed@[i]);
            }
            let want = start.observed.restrict(
                Set::new(
                    |a: i32|
                        start.observed.contains_key(a) && now@ - start.observed[a].last_seen@
                            < limit@,
                ),
            );
            assert forall|a: i32| #![auto]
                assoc::to_map(kp).contains_key(a) <==> want.contains_key(a) by {
                assoc::lemma_domain(kp, a);
                assoc::lemma_domain(all, a);
                if assoc::to_map(kp).contains_key(a) {
                    let i = choose|i: int| 0 <= i < kp.len() && (#[trigger] kp[i]).0 == a;
                    let k = lemma_fresh_tail_at(before, now@, limit@, i);
                    assert(all[k].0 == a);
                    assoc::lemma_lookup(all, k);
                }
                if want.contains_key(a) {
                    let k = choose|k: int| 0 <= k < all.len() && (#[trigger] all[k]).0 == a;
                    assoc::lemma_lookup(all, k);
                    let i = lemma_fresh_tail_has(before, now@, limit@, k);
                    assert(kp[i].0 == a);
                }
            }
            assert forall|a: i32| want.contains_key(a) implies #[trigger] assoc::to_map(kp)[a]
                == want[a] by {
                assoc::lemma_domain(kp, a);
                assert(assoc::to_map(kp).contains_key(a));
                let i = choose|i: int| 0 <= i < kp.len() && (#[trigger] kp[i]).0 == a;
                let k = lemma_fresh_tail_at(before, now@, limit@, i);
                assert(all[k].0 == a);
                assoc::lemma_lookup(all, k);
                assoc::lemma_lookup(kp, i);
            }
            assert(assoc::to_map(kp) =~= want);
        }
    }

    /// Adds to freshly built device objects what was observed of the devices.
    pub fn merge_observed_into_devices(&self, devices: &mut Vec<serde_json::Value>)
        requires
            self.wf(),
        ensures
            json::jsons(final(devices)@) == json::jsons(old(devices)@).map_values(
                |d: JsonV| merged(d, self@.observed),
            ),
    {
        let n: usize = devices.len();
        let ghost before = devices@;
        let mut i: usize = 0;
        while i < n
            invariant
                self.wf(),
                i <= n == devices@.len() == before.len(),
                forall|j: int| i <= j < n ==> devices@[j] == before[j],
                forall|j: int|
                    0 <= j < i ==> json::json(#[trigger] devices@[j]) == merged(
                        json::json(before[j]),
                        self@.observed,
                    ),
            decreases n - i,
        {
            let la = json::get_i64(&devices[i], "logical_address");
            let d = &mut devices[i];
            match la {
                Some(la) => {
                    let a: i32 = #[verifier::truncate] (la as i32);
                    if let Some(k) = self.observed_at(a) {
                        if let Some(obj) = json::as_object_mut(d) {
                            self.merge_one(obj, k);
                        }
                    }
                },
                None => {},
            }
            i += 1;
        }
        assert(json::jsons(devices@) =~= json::jsons(before).map_values(
            |d: JsonV| merged(d, self@.observed),
        ));
    }

    fn merge_one(&self, obj: &mut serde_json::Map<String, serde_json::Value>, k: usize)
        requires
            self.wf(),
            k < self.observed@.len(),
        ensures
            json::object(*final(obj)) == with_observed_fields(
                json::object(*old(obj)),
                self.observed@[k as int].view().fields,
            ).insert("observed_at"@, JsonV::Text(self.observed@[k as int].last_seen.text())),
    {
        let o = &self.observed[k];
        let ghost start = json::object(*obj);
        let ghost pairs = field_pairs(o.fields@);
        let mut i: usize = 0;
        proof {
            assert(pairs.take(0) =~= Seq::empty());
            assert(with_observed_fields(start, Map::empty()) =~= start);
        }
        while i < o.fields.len()
            invariant
                i <= o.fields@.len(),
                pairs == field_pairs(o.fields@),
                start == json::object(*old(obj)),
                json::object(*obj) == with_observed_fields(
                    start,
                    assoc::to_map(pairs.take(i as int)),
                ),
            decreases o.fields@.len() - i,
        {
            let key = text::concat(OBSERVED_PREFIX, o.fields[i].0.as_str());
            json::insert(obj, key.as_str(), json::copy(&o.fields[i].1));
            proof {
                let m = assoc::to_map(pairs.take(i as int));
                let kv = pairs[i as int];
                assert(pairs.take(i as int + 1).drop_last() =~= pairs.take(i as int));
                lemma_observed_insert(start, m, kv.0, kv.1);
            }
            i += 1;
        }
        assert(pairs.take(i as int) =~= pairs);
        json::insert(obj, "observed_at", json::text(o.last_seen.to_rfc3339().as_str()));
    }

    /// Updates what is known of the sender of a command that was seen on the bus.
    pub fn apply_observed_command(&mut self, cmd: &Command, now: Timestamp)
        requires
            old(self).wf(),
        ensures
            final(self).wf(),
            final(self)@ == old(self)@.with_command(cmd@, now),
    {
        let initiator: i32 = cmd.initiator.0 as i32;
        let op: u8 = cmd.opcode.0;
        let p = &cmd.parameters;
        if op == Opcode::REPORT_POWER_STATUS {
            if p.len() > 0 {
                let status = power_status_str(p[0]);
                self.record_observed(initiator, "power_status", json::text(status.as_str()), now);
            }
        } else if op == Opcode::REPORT_AUDIO_STATUS {
            if p.len() > 0 {
                let raw: u8 = p[0];
                self.record_observed(
                    initiator,
                    "audio_volume_raw",
                    json::integer((raw % 128) as i64),
                    now,
                );
                self.record_observed(initiator, "audio_muted", json::boolean(raw >= 128), now);
            }
        } else if op == Opcode::SET_OSD_NAME {
            let decoded = text::from_utf8_lossy(p.as_slice());
            let name = text::trim_trailing(decoded.as_str(), '\0');
            if !name.is_empty() {
                self.record_observed(initiator, "osd_name_fragment", json::text(name), now);
            }
        } else if op == Opcode::FEATURE_ABORT {
            if p.len() > 0 {
                self.record_observed(
                    initiator,
                    "last_feature_abort_opcode",
                    json::integer(p[0] as i64),
                    now,
                );
                if p.len() > 1 {
                    self.record_observed(
                        initiator,
                        "last_feature_abort_reason",
                        json::integer(p[1] as i64),
                        now,
                    );
                }
            }
        } else if op == Opcode::DEVICE_VENDOR_ID && p.len() >= 3 {
            let v: u64 = p[0] as u64 * 65536 + p[1] as u64 * 256 + p[2] as u64;
            let t = text::concat("0x", text::hex_u64(v, 6, false).as_str());
            self.record_observed(initiator, "vendor_id", json::text(t.as_str()), now);
        }
    }

    // -- frames -------------------------------------------------------------

    /// Captures a frame: it gets the next sequence number, and the oldest frames beyond `cap` go.
    pub fn append_frame(&mut self, cmd: &Command, cap: usize, now: Timestamp)
        requires
            old(self).wf(),
            old(self)@.next_seq < u64::MAX,
        ensures
            final(self).wf(),
            final(self)@ == old(self)@.with_frame(cmd@, cap as nat, now),
    {
        if cap == 0 {
            return;
        }
        let ghost start = self@;
        let opcode = text::hex_u64(cmd.opcode.0 as u64, 2, false);
        let entry = BusFrameEntry {
            timestamp: now,
            initiator: cmd.initiator.0 as i32,
            destination: cmd.destination.0 as i32,
            opcode: text::concat("0x", opcode.as_str()),
            ack: cmd.ack,
            eom: cmd.eom,
            opcode_set: cmd.opcode_set,
            params_hex: hex_bytes(&cmd.parameters),
        };
        let ghost fv = entry@;
        assert(fv == frame_of(cmd@, now));
        let seq: u64 = self.next_seq;
        self.next_seq = seq + 1;
        let ghost before = self.ring@;
        self.ring.push_back((seq, entry));
        let ghost all = ring_view(self.ring@);
        assert(all =~= start.ring.push((seq, fv)));
        let ghost mut dropped: int = 0;
        while self.ring.len() > cap
            invariant
                cap > 0,
                0 <= dropped <= all.len(),
                ring_view(self.ring@) == all.skip(dropped),
                dropped > 0 ==> all.len() - dropped >= cap,
                self.next_seq == seq + 1,
                self.observed == old(self).observed,
                self.devices == old(self).devices,
                self.addresses == old(self).addresses,
                self.active_source == old(self).active_source,
                self.cec_ready == old(self).cec_ready,
                self.monitoring == old(self).monitoring,
                self.scan_in_progress == old(self).scan_in_progress,
                self.last_full_scan_at == old(self).last_full_scan_at,
                self.stale_threshold_sec == old(self).stale_threshold_sec,
                self.ring_cap == old(self).ring_cap,
                self.generation == old(self).generation,
                self.frames_captured == old(self).frames_captured,
            decreases self.ring@.len(),
        {
            let ghost r0 = self.ring@;
            assert(r0.len() == all.skip(dropped).len());
            let _f = self.ring.pop_front();
            proof {
                dropped = dropped + 1;
                assert(ring_view(self.ring@) =~= all.skip(dropped)) by {
                    assert(ring_view(r0) == all.skip(dropped - 1));
                    assert forall|j: int| 0 <= j < self.ring@.len() implies ring_view(
                        self.ring@,
                    )[j] == all.skip(dropped)[j] by {
                        assert(ring_view(r0)[j + 1] == all.skip(dropped - 1)[j + 1]);
                    }
                }
            }
        }
        self.frames_captured = self.frames_captured.wrapping_add(1);
        proof {
            assert(all.skip(0) =~= all);
            assert(ring_view(self.ring@).len() == all.len() - dropped);
            assert(self@.ring =~= start.with_frame(cmd@, cap as nat, now).ring);
            assert(self@ == start.with_frame(cmd@, cap as nat, now));
            let r = self@.ring;
            assert forall|i: int| 0 <= i < r.len() implies 1 <= (#[trigger] r[i]).0
                < self@.next_seq by {
                assert(r[i] == all[i + dropped]);
                if i + dropped < start.ring.len() {
                    assert(all[i + dropped] == start.ring[i + dropped]);
                }
            }
            assert forall|i: int, j: int| 0 <= i < j < r.len() implies (#[trigger] r[i]).0 < (
            #[trigger] r[j]).0 by {
                assert(r[i] == all[i + dropped]);
                assert(r[j] == all[j + dropped]);
                assert(all[i + dropped] == start.ring[i + dropped]);
                if j + dropped < start.ring.len() {
                    assert(all[j + dropped] == start.ring[j + dropped]);
                }
            }
        }
    }

    /// The frames in the ring, oldest first.
    pub fn recent_frames(&self) -> (r: Vec<BusFrameEntry>)
        ensures
            frame_views(r@) == self@.ring.map_values(|e: (u64, FrameV)| e.1),
    {
        let mut out: Vec<BusFrameEntry> = Vec::new();
        let ghost all = self@.ring.map_values(|e: (u64, FrameV)| e.1);
        let mut i: usize = 0;
        while i < self.ring.len()
            invariant
                i <= self.ring@.len(),
                all == self@.ring.map_values(|e: (u64, FrameV)| e.1),
                frame_views(out@) == all.take(i as int),
            decreases self.ring@.len() - i,
        {
            let ghost before = out@;
            out.push(self.ring[i].1.clone());
            i += 1;
            assert(frame_views(out@) =~= frame_views(before).push(all[i - 1]));
            assert(frame_views(out@) =~= all.take(i as int));
        }
        assert(all.take(i as int) =~= all);
        out
    }

    /// The frames in the ring with their sequence numbers, oldest first.
    pub fn numbered_frames(&self) -> (r: Vec<(u64, BusFrameEntry)>)
        ensures
            ring_view(r@) == self@.ring,
    {
        let mut out: Vec<(u64, BusFrameEntry)> = Vec::new();
        let ghost all = self@.ring;
        let mut i: usize = 0;
        while i < self.ring.len()
            invariant
                i <= self.ring@.len(),
                all == self@.ring,
                ring_view(out@) == all.take(i as int),
            decreases self.ring@.len() - i,
        {
            let ghost before = out@;
            out.push((self.ring[i].0, self.ring[i].1.clone()));
            i += 1;
            assert(ring_view(out@) =~= ring_view(before).push(all[i - 1]));
            assert(ring_view(out@) =~= all.take(i as int));
        }
        assert(all.take(i as int) =~= all);
        out
    }

    /// The highest sequence number in the ring; 0 for an empty ring.
    pub fn ring_high_water(&self) -> (r: u64)
        ensures
            r == (if self@.ring.len() > 0 {
                self@.ring.last().0
            } else {
                0
            }),
    {
        let n: usize = self.ring.len();
        if n > 0 {
            self.ring[n - 1].0
        } else {
            0
        }
    }

    /// The frames with a sequence number above `after`, oldest first.
    pub fn frames_after(&self, after: u64) -> (r: Vec<BusFrameEntry>)
        ensures
            frame_views(r@) == self@.newer(after),
    {
        let mut out: Vec<BusFrameEntry> = Vec::new();
        let ghost ring = self@.ring;
        let mut i: usize = 0;
        assert(ring.take(0) =~= Seq::empty());
        assert(frame_views(out@) =~= Seq::empty());
        while i < self.ring.len()
            invariant
                i <= self.ring@.len(),
                ring == self@.ring,
                frame_views(out@) == frames_above(ring.take(i as int), after),
            decreases self.ring@.len() - i,
        {
            let ghost before = out@;
            proof {
                assert(ring.take(i as int + 1).drop_last() =~= ring.take(i as int));
                assert(ring.take(i as int + 1).last() == ring[i as int]);
                assert(ring[i as int] == (self.ring@[i as int].0, self.ring@[i as int].1@));
            }
            if self.ring[i].0 > after {
                out.push(self.ring[i].1.clone());
                assert(frame_views(out@) =~= frame_views(before).push(ring[i as int].1));
            }
            i += 1;
        }
        assert(ring.take(i as int) =~= ring);
        out
    }
}

/// The longest time that can be reckoned with, in whole seconds.
pub const MAX_TTL_SECS: u64 = 9_223_372_036_854_775;

/// The time that a device may go unseen, in nanoseconds: ten minutes where `ttl` is too long to
/// reckon with (more than 2^63 - 1 milliseconds).
pub open spec fn reckoned(ttl: Duration) -> nat {
    if ttl@ > MAX_TTL_SECS * NANOS_PER_SEC + 807_000_000 {
        (600 * NANOS_PER_SEC) as nat
    } else {
        ttl@
    }
}

/// What is left of the observed devices when those are forgotten that were not seen for a time; a
/// time of zero forgets none.
pub open spec fn remembered(
    observed: Map<i32, ObservedV>,
    ttl: Duration,
    now: Timestamp,
) -> Map<i32, ObservedV> {
    if ttl@ == 0 {
        observed
    } else {
        observed.restrict(
            Set::new(
                |a: i32|
                    observed.contains_key(a) && now@ - observed[a].last_seen@ < reckoned(ttl),
            ),
        )
    }
}

/// Whether the cached state is stale at a time.
pub open spec fn stale_at(bus: BusV, now: Timestamp) -> bool {
    match bus.last_full_scan_at {
        Some(t) => now@ - t@ > NANOS_PER_SEC * if bus.stale_threshold_sec < 1 {
            1
        } else {
            bus.stale_threshold_sec
        },
        None => true,
    }
}

// ---------------------------------------------------------------------------
// Helpers
// ---------------------------------------------------------------------------

fn set_field(fields: &mut Vec<(String, serde_json::Value)>, key: &str, value: serde_json::Value)
    requires
        assoc::unique_keys(field_pairs(old(fields)@)),
    ensures
        assoc::unique_keys(field_pairs(final(fields)@)),
        assoc::to_map(field_pairs(final(fields)@)) == assoc::to_map(
            field_pairs(old(fields)@),
        ).insert(key@, json::json(value)),
{
    let ghost before = fields@;
    let ghost pairs = field_pairs(before);
    let ghost jv = json::json(value);
    let mut i: usize = 0;
    while i < fields.len()
        invariant
            fields@ == before,
            pairs == field_pairs(before),
            assoc::unique_keys(pairs),
            i <= before.len(),
            jv == json::json(value),
            pairs == field_pairs(old(fields)@),
            forall|j: int| 0 <= j < i ==> (#[trigger] pairs[j]).0 != key@,
        decreases before.len() - i,
    {
        assert(pairs[i as int].0 == before[i as int].0@);
        if text::str_eq(fields[i].0.as_str(), key) {
            let name = fields[i].0.clone();
            fields.set(i, (name, value));
            proof {
                assert(field_pairs(fields@) =~= pairs.update(i as int, (pairs[i as int].0, jv)));
                assoc::lemma_update(pairs, i as int, jv);
            }
            return;
        }
        i += 1;
    }
    fields.push((key.to_owned(), value));
    proof {
        assert(field_pairs(fields@) =~= pairs.push((key@, jv)));
        assoc::lemma_push(pairs, key@, jv);
    }
}

/// The bytes in hexadecimal, two uppercase digits each.
fn hex_bytes(v: &Vec<u8>) -> (r: Vec<String>)
    ensures
        text::views(r@) == v@.map_values(|b: u8| text::hex(b as nat, 2, true)),
{
    let ghost all = v@.map_values(|b: u8| text::hex(b as nat, 2, true));
    let mut out: Vec<String> = Vec::new();
    let mut i: usize = 0;
    while i < v.len()
        invariant
            i <= v@.len(),
            all == v@.map_values(|b: u8| text::hex(b as nat, 2, true)),
            text::views(out@) == all.take(i as int),
        decreases v@.len() - i,
    {
        let ghost before = out@;
        out.push(text::hex_u64(v[i] as u64, 2, true));
        i += 1;
        assert(text::views(out@) =~= text::views(before).push(all[i - 1]));
        assert(text::views(out@) =~= all.take(i as int));
    }
    assert(all.take(i as int) =~= all);
    out
}

proof fn lemma_observed_insert(
    o: Map<Seq<char>, JsonV>,
    fields: Map<Seq<char>, JsonV>,
    key: Seq<char>,
    value: JsonV,
)
    ensures
        with_observed_fields(o, fields.insert(key, value)) == with_observed_fields(
            o,
            fields,
        ).insert(OBSERVED_PREFIX@ + key, value),
{
    let p = OBSERVED_PREFIX@;
    let n = p.len() as int;
    let full = p + key;
    assert(full.skip(n) =~= key);
    assert(full.take(n) =~= p);
    assert forall|k: Seq<char>| text::starts_with(k, p) && k.skip(n) == key implies k == full by {
        assert(k =~= k.take(n) + k.skip(n));
    }
    assert(with_observed_fields(o, fields.insert(key, value)) =~= with_observed_fields(
        o,
        fields,
    ).insert(full, value));
}

/// The entries that are fresh enough to keep, latest entry first.
spec fn fresh_tail(v: Seq<Observed>, now: int, ttl: nat) -> Seq<Observed>
    decreases v.len(),
{
    if v.len() == 0 {
        Seq::empty()
    } else {
        let rest = fresh_tail(v.drop_first(), now, ttl);
        if now - v[0].last_seen@ < ttl {
            rest.push(v[0])
        } else {
            rest
        }
    }
}

proof fn lemma_fresh_tail_at(v: Seq<Observed>, now: int, ttl: nat, i: int) -> (k: int)
    requires
        0 <= i < fresh_tail(v, now, ttl).len(),
    ensures
        0 <= k < v.len(),
        v[k] == fresh_tail(v, now, ttl)[i],
        now - v[k].last_seen@ < ttl,
    decreases v.len(),
{
    let rest = fresh_tail(v.drop_first(), now, ttl);
    if i < rest.len() {
        let k = lemma_fresh_tail_at(v.drop_first(), now, ttl, i);
        k + 1
    } else {
        0
    }
}

proof fn lemma_fresh_tail_order(v: Seq<Observed>, now: int, ttl: nat, i: int, j: int)
    requires
        assoc::unique_keys(observed_pairs(v)),
        0 <= i < j < fresh_tail(v, now, ttl).len(),
    ensures
        fresh_tail(v, now, ttl)[i].addr != fresh_tail(v, now, ttl)[j].addr,
    decreases v.len(),
{
    let rest = fresh_tail(v.drop_first(), now, ttl);
    let pairs = observed_pairs(v);
    if j < rest.len() {
        let tp = observed_pairs(v.drop_first());
        assert forall|a: int, b: int| 0 <= a < b < tp.len() implies (#[trigger] tp[a]).0 != (
        #[trigger] tp[b]).0 by {
            assert(pairs[a + 1].0 != pairs[b + 1].0);
        }
        lemma_fresh_tail_order(v.drop_first(), now, ttl, i, j);
    } else {
        let k = lemma_fresh_tail_at(v.drop_first(), now, ttl, i);
        assert(pairs[0].0 != pairs[k + 1].0);
    }
}

proof fn lemma_fresh_tail_has(v: Seq<Observed>, now: int, ttl: nat, k: int) -> (i: int)
    requires
        0 <= k < v.len(),
        now - v[k].last_seen@ < ttl,
    ensures
        0 <= i < fresh_tail(v, now, ttl).len(),
        fresh_tail(v, now, ttl)[i] == v[k],
    decreases v.len(),
{
    if k == 0 {
        fresh_tail(v.drop_first(), now, ttl).len() as int
    } else {
        lemma_fresh_tail_has(v.drop_first(), now, ttl, k - 1)
    }
}

// ---------------------------------------------------------------------------
// What holds of the bus state
// ---------------------------------------------------------------------------

/// The highest sequence number in the ring; 0 for an empty ring.
pub open spec fn high_water(bus: BusV) -> u64 {
    if bus.ring.len() > 0 {
        bus.ring.last().0
    } else {
        0
    }
}

/// The bus after frames were captured one after the other, each at its time.
pub open spec fn with_frames(bus: BusV, frames: Seq<(CommandV, Timestamp)>, cap: nat) -> BusV
    decreases frames.len(),
{
    if frames.len() == 0 {
        bus
    } else {
        with_frames(bus, frames.drop_last(), cap).with_frame(
            frames.last().0,
            cap,
            frames.last().1,
        )
    }
}

/// The last `n` of a list, or all of them where there are fewer.
pub open spec fn last_of<T>(s: Seq<T>, n: nat) -> Seq<T> {
    if s.len() > n {
        s.skip(s.len() - n)
    } else {
        s
    }
}

/// The captured forms of frames.
pub open spec fn captured(frames: Seq<(CommandV, Timestamp)>) -> Seq<FrameV> {
    frames.map_values(|f: (CommandV, Timestamp)| frame_of(f.0, f.1))
}

/// Whatever was done to it, the sequence numbers in the ring of a bus increase, and all are past
/// ones.
pub proof fn law_ring_is_ordered(bus: &BusState)
    requires
        bus.wf(),
    ensures
        bus@.ring_ordered(),
{
}

/// A ring never holds more frames than it was given room for at the last capture.
pub proof fn law_ring_is_bounded(bus: BusV, cmd: CommandV, cap: nat, now: Timestamp)
    requires
        cap > 0,
    ensures
        bus.with_frame(cmd, cap, now).ring.len() <= cap,
        bus.with_frame(cmd, cap, now).ring.len() > 0,
        bus.with_frame(cmd, cap, now).ring.last() == (bus.next_seq as u64, frame_of(cmd, now)),
{
}

/// Sequence numbers keep increasing, whatever is captured and dropped.
pub proof fn law_sequence_numbers_increase(bus: BusV, cmd: CommandV, cap: nat, now: Timestamp)
    requires
        bus.ring_ordered(),
        bus.next_seq <= u64::MAX,
        cap > 0,
    ensures
        bus.with_frame(cmd, cap, now).ring_ordered(),
        high_water(bus.with_frame(cmd, cap, now)) > high_water(bus),
{
    let after = bus.with_frame(cmd, cap, now);
    let all = bus.ring.push((bus.next_seq as u64, frame_of(cmd, now)));
    let d = all.len() - after.ring.len();
    assert forall|i: int| 0 <= i < after.ring.len() implies 1 <= (#[trigger] after.ring[i]).0
        < after.next_seq by {
        assert(after.ring[i] == all[i + d]);
        if i + d < bus.ring.len() {
            assert(all[i + d] == bus.ring[i + d]);
        }
    }
    assert forall|i: int, j: int| 0 <= i < j < after.ring.len() implies (#[trigger] after.ring[i]).0
        < (#[trigger] after.ring[j]).0 by {
        assert(after.ring[i] == all[i + d]);
        assert(after.ring[j] == all[j + d]);
        assert(all[i + d] == bus.ring[i + d]);
        if j + d < bus.ring.len() {
            assert(all[j + d] == bus.ring[j + d]);
        }
    }
    if bus.ring.len() > 0 {
        assert(bus.ring[bus.ring.len() - 1].0 < bus.next_seq);
    }
}

proof fn lemma_none_above(ring: Seq<(u64, FrameV)>, after: u64)
    requires
        forall|i: int| 0 <= i < ring.len() ==> (#[trigger] ring[i]).0 <= after,
    ensures
        frames_above(ring, after) == Seq::<FrameV>::empty(),
    decreases ring.len(),
{
    if ring.len() > 0 {
        assert(ring[ring.len() - 1].0 <= after);
        assert forall|i: int| 0 <= i < ring.drop_last().len() implies (#[trigger] ring.drop_last()[i]).0
            <= after by {
            assert(ring[i].0 <= after);
        }
        lemma_none_above(ring.drop_last(), after);
    }
}

proof fn lemma_skip_old(ring: Seq<(u64, FrameV)>, d: int, after: u64)
    requires
        0 <= d <= ring.len(),
        forall|i: int| 0 <= i < d ==> (#[trigger] ring[i]).0 <= after,
    ensures
        frames_above(ring.skip(d), after) == frames_above(ring, after),
    decreases ring.len(),
{
    if d == ring.len() {
        assert(ring.skip(d) =~= Seq::empty());
        lemma_none_above(ring, after);
    } else {
        assert forall|i: int| 0 <= i < d implies (#[trigger] ring.drop_last()[i]).0 <= after by {
            assert(ring[i].0 <= after);
        }
        lemma_skip_old(ring.drop_last(), d, after);
        assert(ring.skip(d).drop_last() =~= ring.drop_last().skip(d));
        assert(ring.skip(d).last() == ring.last());
    }
}

/// The ring entries of frames that are captured from a sequence number on.
spec fn numbered(frames: Seq<(CommandV, Timestamp)>, from: nat) -> Seq<(u64, FrameV)> {
    Seq::new(
        frames.len(),
        |i: int| ((from + i) as u64, frame_of(frames[i].0, frames[i].1)),
    )
}

/// After captures the ring is the end of the old ring and the new entries.
proof fn lemma_ring_after(bus: BusV, frames: Seq<(CommandV, Timestamp)>, cap: nat)
    requires
        cap > 0,
    ensures
        with_frames(bus, frames, cap).next_seq == bus.next_seq + frames.len(),
        frames.len() > 0 ==> with_frames(bus, frames, cap).ring == last_of(
            bus.ring + numbered(frames, bus.next_seq),
            cap,
        ),
    decreases frames.len(),
{
    if frames.len() > 0 {
        let init = frames.drop_last();
        lemma_ring_after(bus, init, cap);
        let mid = with_frames(bus, init, cap);
        let entry = (mid.next_seq as u64, frame_of(frames.last().0, frames.last().1));
        let whole = bus.ring + numbered(frames, bus.next_seq);
        let before = bus.ring + numbered(init, bus.next_seq);
        assert(whole =~= before.push(entry));
        if init.len() == 0 {
            assert(before =~= bus.ring);
            assert(mid.ring == bus.ring);
        } else {
            assert(mid.ring == last_of(before, cap));
        }
        assert(with_frames(bus, frames, cap).ring =~= last_of(whole, cap));
    }
}

proof fn lemma_all_above(ring: Seq<(u64, FrameV)>, after: u64)
    requires
        forall|i: int| 0 <= i < ring.len() ==> (#[trigger] ring[i]).0 > after,
    ensures
        frames_above(ring, after) == ring.map_values(|e: (u64, FrameV)| e.1),
    decreases ring.len(),
{
    let f = |e: (u64, FrameV)| e.1;
    if ring.len() > 0 {
        assert(ring[ring.len() - 1].0 > after);
        assert forall|i: int| 0 <= i < ring.drop_last().len() implies (
        #[trigger] ring.drop_last()[i]).0 > after by {
            assert(ring[i].0 > after);
        }
        lemma_all_above(ring.drop_last(), after);
        assert(ring.map_values(f) =~= ring.drop_last().map_values(f).push(ring.last().1));
    } else {
        assert(ring.map_values(f) =~= Seq::empty());
    }
}

proof fn lemma_high_water(bus: BusV)
    requires
        bus.ring_ordered(),
    ensures
        forall|i: int| 0 <= i < bus.ring.len() ==> (#[trigger] bus.ring[i]).0 <= high_water(bus),
        high_water(bus) < bus.next_seq,
{
    assert forall|i: int| 0 <= i < bus.ring.len() implies (#[trigger] bus.ring[i]).0 <= high_water(
        bus,
    ) by {
        if i < bus.ring.len() - 1 {
            assert(bus.ring[i].0 < bus.ring[bus.ring.len() - 1].0);
        }
    }
    if bus.ring.len() > 0 {
        assert(bus.ring[bus.ring.len() - 1].0 < bus.next_seq);
    }
}

/// What came after a mark is told exactly, also when the ring has wrapped meanwhile: the frames
/// after the mark are the last of those that came, as many as the ring has room for, oldest first,
/// and nothing older. Right at the mark there is nothing after it.
pub proof fn law_frames_after_is_wrap_safe(
    bus: BusV,
    frames: Seq<(CommandV, Timestamp)>,
    cap: nat,
)
    requires
        bus.ring_ordered(),
        cap > 0,
        bus.next_seq + frames.len() <= u64::MAX,
    ensures
        with_frames(bus, frames, cap).newer(high_water(bus)) == last_of(captured(frames), cap),
        frames.len() > 0 ==> with_frames(bus, frames, cap).ring.len() <= cap,
        bus.newer(high_water(bus)) == Seq::<FrameV>::empty(),
{
    let h = high_water(bus);
    lemma_high_water(bus);
    lemma_none_above(bus.ring, h);
    lemma_ring_after(bus, frames, cap);
    let n = frames.len();
    if n == 0 {
        assert(last_of(captured(frames), cap) =~= Seq::empty());
    } else {
        let new = numbered(frames, bus.next_seq);
        let whole = bus.ring + new;
        let ring = with_frames(bus, frames, cap).ring;
        let kept = last_of(new, cap);
        // The old entries that are left stand before the new ones.
        let old_left = ring.len() - kept.len();
        assert(ring.skip(old_left) =~= kept);
        assert forall|i: int| 0 <= i < old_left implies (#[trigger] ring[i]).0 <= h by {
            let d = whole.len() - ring.len();
            assert(ring[i] == whole[i + d]);
            assert(whole[i + d] == bus.ring[i + d]);
        }
        lemma_skip_old(ring, old_left, h);
        assert forall|i: int| 0 <= i < kept.len() implies (#[trigger] kept[i]).0 > h by {
            assert(kept[i] == new[i + new.len() - kept.len()]);
        }
        lemma_all_above(kept, h);
        assert(kept.map_values(|e: (u64, FrameV)| e.1) =~= last_of(captured(frames), cap));
    }
}

/// What is recorded of a device leaves every other device alone, and keeps when the device was
/// first seen.
pub proof fn law_recording_is_local(
    bus: BusV,
    addr: i32,
    key: Seq<char>,
    value: JsonV,
    now: Timestamp,
    other: i32,
)
    ensures
        bus.recorded(addr, key, value, now).observed[addr].fields[key] == value,
        bus.recorded(addr, key, value, now).observed[addr].last_seen == now,
        bus.observed.contains_key(addr) ==> bus.recorded(
            addr,
            key,
            value,
            now,
        ).observed[addr].first_seen == bus.observed[addr].first_seen,
        other != addr ==> bus.recorded(addr, key, value, now).observed.contains_key(other)
            == bus.observed.contains_key(other),
        other != addr && bus.observed.contains_key(other) ==> bus.recorded(
            addr,
            key,
            value,
            now,
        ).observed[other] == bus.observed[other],
{
}

/// Merging what was observed leaves the fields alone that do not have the prefix of observed
/// fields.
pub proof fn law_merge_keeps_other_fields(d: JsonV, observed: Map<i32, ObservedV>, key: Seq<char>)
    requires
        !text::starts_with(key, OBSERVED_PREFIX@),
    ensures
        json::field(merged(d, observed), key) == json::field(d, key),
{
    reveal_strlit("observed_");
    reveal_strlit("observed_at");
    assert(text::starts_with("observed_at"@, OBSERVED_PREFIX@)) by {
        assert("observed_at"@.take(9) =~= "observed_"@);
    }
}

/// A device is forgotten exactly when it was not seen for the given time; what is known of the
/// others stays as it is. A time of zero forgets none.
pub proof fn law_only_silent_devices_are_forgotten(
    observed: Map<i32, ObservedV>,
    ttl: Duration,
    now: Timestamp,
    a: i32,
)
    requires
        ttl@ <= 9_223_372_036_854_775 * NANOS_PER_SEC + 807_000_000,
    ensures
        remembered(observed, ttl, now).contains_key(a) == (observed.contains_key(a) && (ttl@ == 0
            || now@ < observed[a].last_seen@ + ttl@)),
        remembered(observed, ttl, now).contains_key(a) ==> remembered(observed, ttl, now)[a]
            == observed[a],
{
}

/// The cached state is fresh up to the threshold after a full scan and stale after it; it is stale
/// where there was no scan, and what is stale stays stale until the next scan.
pub proof fn law_state_grows_stale(bus: BusV, now: Timestamp, later: Timestamp)
    requires
        now@ <= later@,
    ensures
        bus.last_full_scan_at is None ==> stale_at(bus, now),
        bus.last_full_scan_at matches Some(t) ==> (bus.stale_threshold_sec >= 1 ==> stale_at(
            bus,
            now,
        ) == (now@ > t@ + bus.stale_threshold_sec * 1_000_000_000)),
        bus.last_full_scan_at matches Some(t) ==> (bus.stale_threshold_sec < 1 ==> stale_at(bus, now)
            == (now@ > t@ + 1_000_000_000)),
        stale_at(bus, now) ==> stale_at(bus, later),
{
    if let Some(t) = bus.last_full_scan_at {
        if bus.stale_threshold_sec >= 1 {
            assert(NANOS_PER_SEC * bus.stale_threshold_sec == bus.stale_threshold_sec
                * 1_000_000_000) by (nonlinear_arith)
                requires
                    NANOS_PER_SEC == 1_000_000_000,
            ;
        }
    }
}

/// A captured frame keeps the command: sender, receiver and flags as they are, the opcode and each
/// parameter byte in hexadecimal, so that they read back.
pub proof fn law_captured_frames_read_back(cmd: CommandV, now: Timestamp, i: int)
    ensures
        ({
            let f = frame_of(cmd, now);
            &&& f.initiator == cmd.initiator && f.destination == cmd.destination
            &&& f.ack == cmd.ack && f.eom == cmd.eom && f.opcode_set == cmd.opcode_set
            &&& f.timestamp == now
            &&& hex_byte_value(f.opcode) == cmd.opcode
            &&& f.params_hex.len() == cmd.parameters.len()
            &&& 0 <= i < cmd.parameters.len() ==> hex_byte_value(f.params_hex[i])
                == cmd.parameters[i]
        }),
{
    law_hexadecimal_bytes_read_back(cmd.opcode, false);
    if 0 <= i < cmd.parameters.len() {
        law_hexadecimal_bytes_read_back(cmd.parameters[i], true);
    }
}

/// What another device answers confirms a run: a captured command settles it exactly where it comes
/// from another device and is a refusal or the expected answer.
pub proof fn law_captured_answers_settle(
    cmd: CommandV,
    now: Timestamp,
    expected: Option<u8>,
    own_la: int,
)
    ensures
        settles(frame_of(cmd, now), expected, own_la) == (cmd.initiator != own_la && ((cmd.opcode
            == 0 && cmd.parameters.len() > 0) || expected == Some(cmd.opcode))),
{
    law_captured_frames_read_back(cmd, now, 0);
}

/// A command is on record for its sender and for nobody else: a power report its status, an audio
/// report the volume and the mute flag that make up its byte, a refusal what was refused and why, a
/// vendor report the vendor. A report without its bytes records nothing.
pub proof fn law_reports_are_on_record(bus: BusV, cmd: CommandV, now: Timestamp, other: i32)
    ensures
        ({
            let after = bus.with_command(cmd, now);
            let a = cmd.initiator as i32;
            let p = cmd.parameters;
            let f = after.observed[a].fields;
            &&& cmd.opcode == 0x90 && p.len() > 0 ==> after.observed.contains_key(a)
                && f.contains_key("power_status"@) && f["power_status"@] == JsonV::Text(
                power_status_text(p[0]),
            )
            &&& cmd.opcode == 0x7a && p.len() > 0 ==> after.observed.contains_key(a)
                && f.contains_key("audio_volume_raw"@) && f.contains_key("audio_muted"@) && (
            f["audio_volume_raw"@] matches JsonV::Int(v) && f["audio_muted"@] matches JsonV::Bool(
                m,
            ) && 0 <= v < 128 && p[0] == v + (if m {
                128int
            } else {
                0int
            }))
            &&& cmd.opcode == 0 && p.len() > 0 ==> after.observed.contains_key(a)
                && f.contains_key("last_feature_abort_opcode"@) && f["last_feature_abort_opcode"@]
                == JsonV::Int(p[0] as int)
            &&& cmd.opcode == 0 && p.len() > 1 ==> f.contains_key("last_feature_abort_reason"@)
                && f["last_feature_abort_reason"@] == JsonV::Int(p[1] as int)
            &&& cmd.opcode == 0x87 && p.len() >= 3 ==> after.observed.contains_key(a)
                && f.contains_key("vendor_id"@) && (f["vendor_id"@] matches JsonV::Text(t)
                && t.len() >= 2 && text::hex_run_value(t.skip(2)) == p[0] * 65536 + p[1] * 256
                + p[2])
            &&& p.len() == 0 && cmd.opcode != 0x47 ==> after == bus
            &&& cmd.opcode != 0x90 && cmd.opcode != 0x7a && cmd.opcode != 0x47 && cmd.opcode != 0
                && cmd.opcode != 0x87 ==> after == bus
            &&& other != a ==> after.observed.contains_key(other) == bus.observed.contains_key(other)
            &&& other != a && bus.observed.contains_key(other) ==> after.observed[other]
                == bus.observed[other]
            &&& after == (BusV { observed: after.observed, ..bus })
        }),
{
    let p = cmd.parameters;
    reveal_strlit("audio_volume_raw");
    reveal_strlit("audio_muted");
    reveal_strlit("last_feature_abort_opcode");
    reveal_strlit("last_feature_abort_reason");
    assert("audio_volume_raw"@.len() == 16 && "audio_muted"@.len() == 11);
    assert("last_feature_abort_opcode"@[19] == 'o' && "last_feature_abort_reason"@[19] == 'r');
    if cmd.opcode == 0x87 && p.len() >= 3 {
        reveal_strlit("0x");
        let n = (p[0] as int * 65536 + p[1] as int * 256 + p[2] as int) as nat;
        text::lemma_hex_round_trip(n, 6, false);
        assert(vendor_id_text(p).skip(2) =~= text::hex(n, 6, false));
    }
}

/// A device that is seen again keeps what is known of it and when it was first seen; only the time
/// of the last sighting moves. A new one begins with nothing.
pub proof fn law_sightings_keep_what_is_known(bus: BusV, addr: i32, now: Timestamp, other: i32)
    ensures
        ({
            let after = bus.seen(addr, now);
            &&& after.observed.contains_key(addr) && after.observed[addr].last_seen == now
            &&& bus.observed.contains_key(addr) ==> after.observed[addr].first_seen
                == bus.observed[addr].first_seen && after.observed[addr].fields
                == bus.observed[addr].fields
            &&& !bus.observed.contains_key(addr) ==> after.observed[addr].first_seen == now
                && after.observed[addr].fields == json::no_fields()
            &&& other != addr ==> after.observed.contains_key(other) == bus.observed.contains_key(
                other,
            )
            &&& other != addr && bus.observed.contains_key(other) ==> after.observed[other]
                == bus.observed[other]
        }),
{
}

/// The frames after a mark are those with a greater number, all of them, in order.
pub proof fn law_frames_after_a_mark(ring: Seq<(u64, FrameV)>, after: u64)
    ensures
        frames_above(ring, after) == ring.filter(|e: (u64, FrameV)| e.0 > after).map_values(
            |e: (u64, FrameV)| e.1,
        ),
    decreases ring.len(),
{
    reveal(Seq::filter);
    let above = |e: (u64, FrameV)| e.0 > after;
    let frame = |e: (u64, FrameV)| e.1;
    if ring.len() > 0 {
        law_frames_after_a_mark(ring.drop_last(), after);
        let rest = ring.drop_last().filter(above);
        if above(ring.last()) {
            assert(rest.push(ring.last()).map_values(frame) =~= rest.map_values(frame).push(
                ring.last().1,
            ));
        }
    }
    assert(frames_above(ring, after) =~= ring.filter(above).map_values(frame));
}

/// A full ring drops its oldest frame for a new one, and no other; one with room drops none.
pub proof fn law_ring_drops_the_oldest(bus: BusV, cmd: CommandV, cap: nat, now: Timestamp, i: int)
    requires
        cap > 0,
        bus.ring.len() <= cap,
        0 <= i < bus.ring.len(),
    ensures
        ({
            let after = bus.with_frame(cmd, cap, now).ring;
            &&& bus.ring.len() < cap ==> after.len() == bus.ring.len() + 1 && after[i]
                == bus.ring[i]
            &&& bus.ring.len() == cap ==> after.len() == cap && (i > 0 ==> after[i - 1]
                == bus.ring[i])
        }),
{
}

/// What was observed of a device stands in its entry, each field under its name with the prefix, and
/// with it when the device was last seen; a device that was not observed stays as it is.
pub proof fn law_observations_stand_in_the_entry(
    o: Map<Seq<char>, JsonV>,
    observed: Map<i32, ObservedV>,
    a: i32,
    key: Seq<char>,
)
    requires
        json::int_field(JsonV::Object(o), "logical_address"@) == Some(a as int),
    ensures
        observed.contains_key(a) && observed[a].fields.contains_key(key) && key != "at"@
            ==> json::field(merged(JsonV::Object(o), observed), "observed_"@ + key) == Some(
            observed[a].fields[key],
        ),
        observed.contains_key(a) ==> json::text_field(
            merged(JsonV::Object(o), observed),
            "observed_at"@,
        ) == Some(observed[a].last_seen.text()),
        !observed.contains_key(a) ==> merged(JsonV::Object(o), observed) == JsonV::Object(o),
{
    reveal_strlit("observed_");
    reveal_strlit("observed_at");
    reveal_strlit("at");
    let k = "observed_"@ + key;
    assert(k.take(9) =~= "observed_"@);
    assert(k.skip(9) =~= key);
    if k == "observed_at"@ {
        assert(key =~= "at"@) by {
            assert("observed_at"@.skip(9) =~= "at"@);
        }
    }
}

/// What was observed of a device reads back as text exactly where a text is on record.
pub proof fn law_observed_texts_read_back(bus: BusV, addr: i32, key: Seq<char>, t: Seq<char>)
    ensures
        !bus.observed.contains_key(addr) ==> bus.observed_text(addr, key) is None,
        bus.observed.contains_key(addr) && !bus.observed[addr].fields.contains_key(key)
            ==> bus.observed_text(addr, key) is None,
        bus.observed_text(addr, key) == Some(t) <==> bus.observed.contains_key(addr)
            && bus.observed[addr].fields.contains_key(key) && bus.observed[addr].fields[key]
            == JsonV::Text(t),
{
}

} // verus!
