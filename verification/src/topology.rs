//! HDMI topology derived from the cached bus snapshot.

use crate::busstate::BusState;
use crate::cec::types::{lemma_components, physical_address_text};
use crate::json;
use crate::json::JsonV;
use crate::text;
use crate::time::Timestamp;
use vstd::prelude::*;

verus! {

/// The devices behind one HDMI port of the display.
#[derive(Debug)]
pub struct TopologyPortRow {
    pub port: i64,
    pub devices: Vec<String>,
}

/// The ports of the display and what is behind them.
#[derive(Debug)]
pub struct TopologyPayload {
    pub own_addresses: Vec<i32>,
    pub known_port_count: i64,
    pub ports: Vec<TopologyPortRow>,
}

/// The first positive number among the first three of four dotted components, from component `i`
/// on.
pub open spec fn port_from(parts: Seq<Seq<char>>, i: int) -> Option<int>
    decreases 3 - i,
{
    if i < 0 || i >= 3 {
        None
    } else {
        match text::parse_int(parts[i], i64::MIN as int, i64::MAX as int) {
            Some(v) => if v > 0 {
                Some(v)
            } else {
                port_from(parts, i + 1)
            },
            None => port_from(parts, i + 1),
        }
    }
}

/// The input of the display that a physical address lies behind: the leftmost component of the
/// first three that is not zero (the fourth is only meaningful for the device's own inputs).
pub open spec fn port_at(phys: Seq<char>) -> Option<int> {
    let parts = text::split_on(phys, '.');
    if parts.len() != 4 {
        None
    } else {
        port_from(parts, 0)
    }
}

/// The input of the display that a device with this physical address lies behind.
pub fn port_of(phys: &str) -> (r: Option<i64>)
    ensures
        match r {
            Some(p) => port_at(phys@) == Some(p as int) && p > 0,
            None => port_at(phys@) is None,
        },
{
    let parts = text::split(phys, '.');
    let ghost ps = text::split_on(phys@, '.');
    if parts.len() != 4 {
        return None;
    }
    let mut i: usize = 0;
    while i < 3
        invariant
            i <= 3,
            parts@.len() == 4,
            text::views(parts@) == ps,
            ps == text::split_on(phys@, '.'),
            port_at(phys@) == port_from(ps, i as int),
        decreases 3 - i,
    {
        assert(ps[i as int] == parts@[i as int]@);
        if let Some(v) = text::parse_i64(parts[i].as_str(), i64::MIN, i64::MAX) {
            if v > 0 {
                return Some(v);
            }
        }
        i += 1;
    }
    None
}

/// The name shown for a device: its OSD name, else the name of its address, else its address.
pub open spec fn device_label(d: JsonV) -> Seq<char> {
    match json::text_field(d, "osd_name"@) {
        Some(s) => if s.len() > 0 {
            s
        } else {
            fallback_label(d)
        },
        None => fallback_label(d),
    }
}

/// The name shown for a device without OSD name.
pub open spec fn fallback_label(d: JsonV) -> Seq<char> {
    match json::text_field(d, "address_name"@) {
        Some(s) => s,
        None => "LA "@ + text::dec_int(device_address(d)),
    }
}

/// The logical address of a device; -1 where it has none.
pub open spec fn device_address(d: JsonV) -> int {
    match json::int_field(d, "logical_address"@) {
        Some(la) => la,
        None => -1,
    }
}

/// The port that a device lies behind.
pub open spec fn device_port(d: JsonV) -> Option<int> {
    match json::text_field(d, "physical_address"@) {
        Some(phys) => port_at(phys),
        None => None,
    }
}

/// The names of the devices behind a port, in the order of the devices.
pub open spec fn labels_behind(devices: Seq<JsonV>, port: int) -> Seq<Seq<char>>
    decreases devices.len(),
{
    if devices.len() == 0 {
        Seq::empty()
    } else {
        let rest = labels_behind(devices.drop_last(), port);
        if device_port(devices.last()) == Some(port) {
            rest.push(device_label(devices.last()))
        } else {
            rest
        }
    }
}

/// The highest port that a device lies behind, but at least `least`.
pub open spec fn highest_port(devices: Seq<JsonV>, least: int) -> int
    decreases devices.len(),
{
    if devices.len() == 0 {
        least
    } else {
        let rest = highest_port(devices.drop_last(), least);
        match device_port(devices.last()) {
            Some(p) => if p > rest {
                p
            } else {
                rest
            },
            None => rest,
        }
    }
}

/// The addresses of this adapter's own devices.
pub open spec fn own_addresses_of(devices: Seq<JsonV>) -> Seq<i32>
    decreases devices.len(),
{
    if devices.len() == 0 {
        Seq::empty()
    } else {
        let rest = own_addresses_of(devices.drop_last());
        if json::bool_field(devices.last(), "is_own"@) == Some(true) {
            rest.push(device_address(devices.last()) as i32)
        } else {
            rest
        }
    }
}

fn label_of(d: &serde_json::Value) -> (r: String)
    ensures
        r@ == device_label(json::json(*d)),
{
    if let Some(s) = json::get_str(d, "osd_name") {
        if !s.is_empty() {
            return s.to_owned();
        }
    }
    match json::get_str(d, "address_name") {
        Some(s) => s.to_owned(),
        None => {
            let la: i64 = match json::get_i64(d, "logical_address") {
                Some(la) => la,
                None => -1,
            };
            text::concat("LA ", text::dec_i64(la).as_str())
        },
    }
}

fn port_of_device(d: &serde_json::Value) -> (r: Option<i64>)
    ensures
        match r {
            Some(p) => device_port(json::json(*d)) == Some(p as int) && p > 0,
            None => device_port(json::json(*d)) is None,
        },
{
    match json::get_str(d, "physical_address") {
        Some(phys) => port_of(phys),
        None => None,
    }
}

fn row(devices: &Vec<serde_json::Value>, port: i64) -> (r: TopologyPortRow)
    ensures
        r.port == port,
        text::views(r.devices@) == labels_behind(json::jsons(devices@), port as int),
{
    let ghost all = json::jsons(devices@);
    let mut names: Vec<String> = Vec::new();
    let mut i: usize = 0;
    assert(all.take(0) =~= Seq::empty());
    assert(text::views(names@) =~= Seq::empty());
    while i < devices.len()
        invariant
            i <= devices@.len(),
            all == json::jsons(devices@),
            text::views(names@) == labels_behind(all.take(i as int), port as int),
        decreases devices@.len() - i,
    {
        let ghost before = names@;
        proof {
            assert(all.take(i as int + 1).drop_last() =~= all.take(i as int));
            assert(all.take(i as int + 1).last() == json::json(devices@[i as int]));
        }
        if let Some(p) = port_of_device(&devices[i]) {
            if p == port {
                names.push(label_of(&devices[i]));
                assert(text::views(names@) =~= text::views(before).push(
                    device_label(json::json(devices@[i as int])),
                ));
            }
        }
        i += 1;
    }
    assert(all.take(i as int) =~= all);
    TopologyPortRow { port, devices: names }
}

/// The ports of the display and the devices behind them, out of a list of devices. There are at
/// least four ports, and every port up to the highest that a device lies behind.
pub fn build_from_devices(devices: &Vec<serde_json::Value>) -> (r: TopologyPayload)
    ensures
        r.own_addresses@ == own_addresses_of(json::jsons(devices@)),
        r.known_port_count == highest_port(json::jsons(devices@), 4),
        r.known_port_count >= 4,
        r.ports@.len() == r.known_port_count,
        forall|i: int|
            0 <= i < r.ports@.len() ==> (#[trigger] r.ports@[i]).port == i + 1 && text::views(
                r.ports@[i].devices@,
            ) == labels_behind(json::jsons(devices@), i + 1),
{
    let ghost all = json::jsons(devices@);
    let mut own: Vec<i32> = Vec::new();
    let mut known: i64 = 4;
    let mut i: usize = 0;
    assert(all.take(0) =~= Seq::empty());
    while i < devices.len()
        invariant
            i <= devices@.len(),
            all == json::jsons(devices@),
            own@ == own_addresses_of(all.take(i as int)),
            known == highest_port(all.take(i as int), 4),
            known >= 4,
        decreases devices@.len() - i,
    {
        proof {
            assert(all.take(i as int + 1).drop_last() =~= all.take(i as int));
            assert(all.take(i as int + 1).last() == json::json(devices@[i as int]));
        }
        let la: i64 = match json::get_i64(&devices[i], "logical_address") {
            Some(la) => la,
            None => -1,
        };
        if let Some(b) = json::get_bool(&devices[i], "is_own") {
            if b {
                own.push(#[verifier::truncate] (la as i32));
            }
        }
        if let Some(p) = port_of_device(&devices[i]) {
            if p > known {
                known = p;
            }
        }
        i += 1;
    }
    assert(all.take(i as int) =~= all);
    let mut ports: Vec<TopologyPortRow> = Vec::new();
    let mut p: i64 = 0;
    while p < known
        invariant
            0 <= p <= known,
            all == json::jsons(devices@),
            ports@.len() == p,
            forall|j: int|
                0 <= j < p ==> (#[trigger] ports@[j]).port == j + 1 && text::views(
                    ports@[j].devices@,
                ) == labels_behind(all, j + 1),
        decreases known - p,
    {
        p += 1;
        ports.push(row(devices, p));
    }
    TopologyPayload { own_addresses: own, known_port_count: known, ports }
}

/// The topology of the cached devices.
pub fn build_from_snapshot(bus: &BusState, now: Timestamp) -> (r: TopologyPayload)
    ensures
        r.own_addresses@ == own_addresses_of(bus@.devices),
        r.known_port_count == highest_port(bus@.devices, 4),
        r.known_port_count >= 4,
        r.ports@.len() == r.known_port_count,
        forall|i: int|
            0 <= i < r.ports@.len() ==> (#[trigger] r.ports@[i]).port == i + 1 && text::views(
                r.ports@[i].devices@,
            ) == labels_behind(bus@.devices, i + 1),
{
    let snap = bus.copy_snapshot(now);
    build_from_devices(&snap.devices)
}

/// No device that lies behind a port is left out: its name is among those of its port.
pub proof fn law_every_device_behind_a_port_is_listed(devices: Seq<JsonV>, i: int)
    requires
        0 <= i < devices.len(),
        device_port(devices[i]) is Some,
    ensures
        device_port(devices[i]) matches Some(p) ==> p <= highest_port(devices, 4)
            && labels_behind(devices, p).contains(device_label(devices[i])),
    decreases devices.len(),
{
    let p = device_port(devices[i])->0;
    let init = devices.drop_last();
    if i < devices.len() - 1 {
        assert(init[i] == devices[i]);
        law_every_device_behind_a_port_is_listed(init, i);
        let k = labels_behind(init, p).index_of(device_label(devices[i]));
        assert(labels_behind(devices, p)[k] == device_label(devices[i]));
    } else {
        let l = labels_behind(devices, p);
        assert(l[l.len() - 1] == device_label(devices[i]));
    }
}

/// What is listed behind a port are the names of the devices behind it, each once, in the order of
/// the devices, and nothing else.
pub proof fn law_ports_list_their_devices(devices: Seq<JsonV>, port: int)
    ensures
        labels_behind(devices, port) == devices.filter(
            |d: JsonV| device_port(d) == Some(port),
        ).map_values(|d: JsonV| device_label(d)),
    decreases devices.len(),
{
    reveal(Seq::filter);
    let behind = |d: JsonV| device_port(d) == Some(port);
    let label = |d: JsonV| device_label(d);
    if devices.len() > 0 {
        law_ports_list_their_devices(devices.drop_last(), port);
        let rest = devices.drop_last().filter(behind);
        if behind(devices.last()) {
            assert(rest.push(devices.last()).map_values(label) =~= rest.map_values(label).push(
                device_label(devices.last()),
            ));
        }
    }
    assert(labels_behind(devices, port) =~= devices.filter(behind).map_values(label));
}

/// Every name that is listed behind a port is that of a device behind it.
pub proof fn law_listed_names_lie_behind_the_port(devices: Seq<JsonV>, port: int, k: int)
    requires
        0 <= k < labels_behind(devices, port).len(),
    ensures
        exists|i: int|
            0 <= i < devices.len() && device_port(#[trigger] devices[i]) == Some(port)
                && device_label(devices[i]) == labels_behind(devices, port)[k],
    decreases devices.len(),
{
    let init = devices.drop_last();
    if k < labels_behind(init, port).len() {
        law_listed_names_lie_behind_the_port(init, port, k);
        let i = choose|i: int|
            0 <= i < init.len() && device_port(#[trigger] init[i]) == Some(port) && device_label(
                init[i],
            ) == labels_behind(init, port)[k];
        assert(device_port(devices[i]) == Some(port));
    } else {
        assert(device_port(devices[devices.len() - 1]) == Some(port));
    }
}

/// A device is listed behind its own port and behind no other: it adds its name there, and leaves
/// every other port as it was. A device that lies behind no port, like the display, adds none.
pub proof fn law_a_device_is_listed_once(devices: Seq<JsonV>, d: JsonV, port: int)
    ensures
        device_port(d) == Some(port) ==> labels_behind(devices.push(d), port) == labels_behind(
            devices,
            port,
        ).push(device_label(d)),
        device_port(d) != Some(port) ==> labels_behind(devices.push(d), port) == labels_behind(
            devices,
            port,
        ),
{
    assert(devices.push(d).drop_last() =~= devices);
}

/// The ports that are shown reach exactly as far as they must: to the highest one that a device lies
/// behind, and to four at least.
pub proof fn law_ports_reach_the_highest(devices: Seq<JsonV>, i: int)
    ensures
        highest_port(devices, 4) >= 4,
        0 <= i < devices.len() ==> (device_port(devices[i]) matches Some(p) ==> p <= highest_port(
            devices,
            4,
        )),
        highest_port(devices, 4) > 4 ==> exists|k: int|
            0 <= k < devices.len() && device_port(#[trigger] devices[k]) == Some(
                highest_port(devices, 4),
            ),
    decreases devices.len(),
{
    if devices.len() > 0 {
        let init = devices.drop_last();
        law_ports_reach_the_highest(init, i);
        if highest_port(devices, 4) > 4 {
            if highest_port(devices, 4) == highest_port(init, 4) {
                let k = choose|k: int|
                    0 <= k < init.len() && device_port(#[trigger] init[k]) == Some(
                        highest_port(init, 4),
                    );
                assert(device_port(devices[k]) == Some(highest_port(devices, 4)));
            } else {
                assert(device_port(devices[devices.len() - 1]) == Some(highest_port(devices, 4)));
            }
        }
    }
}

/// The input of the display that a physical address lies behind is the first of its first three
/// components that is not zero. The display itself, at 0.0.0.0, lies behind none.
pub proof fn law_port_of_a_physical_address(addr: u16)
    ensures
        port_at(physical_address_text(addr)) == (if addr / 4096 > 0 {
            Some((addr / 4096) as int)
        } else if addr / 256 > 0 {
            Some((addr / 256) as int)
        } else if addr / 16 > 0 {
            Some((addr / 16) as int)
        } else {
            None
        }),
{
    let (a, b, c, d) = lemma_components(addr);
    let parts = text::split_on(physical_address_text(addr), '.');
    assert(parts.len() == 4);
    text::lemma_dec_round_trip(a);
    text::lemma_dec_round_trip(b);
    text::lemma_dec_round_trip(c);
    let max = i64::MAX as nat;
    assert(text::parse_nat(text::dec(a), max) == Some(a));
    assert(text::parse_nat(text::dec(b), max) == Some(b));
    assert(text::parse_nat(text::dec(c), max) == Some(c));
    assert(text::is_digit(text::dec(a)[0]));
    assert(text::is_digit(text::dec(b)[0]));
    assert(text::is_digit(text::dec(c)[0]));
    assert(port_from(parts, 3) is None);
    assert(port_from(parts, 2) == (if c > 0 {
        Some(c as int)
    } else {
        None
    }));
    assert(port_from(parts, 1) == (if b > 0 {
        Some(b as int)
    } else {
        port_from(parts, 2)
    }));
}

/// The own addresses are those of the entries that are the adapter's own, in order.
pub proof fn law_own_addresses_are_of_own_devices(devices: Seq<JsonV>)
    ensures
        own_addresses_of(devices) == devices.filter(
            |d: JsonV| json::bool_field(d, "is_own"@) == Some(true),
        ).map_values(|d: JsonV| device_address(d) as i32),
    decreases devices.len(),
{
    reveal(Seq::filter);
    let own = |d: JsonV| json::bool_field(d, "is_own"@) == Some(true);
    let address = |d: JsonV| device_address(d) as i32;
    if devices.len() > 0 {
        law_own_addresses_are_of_own_devices(devices.drop_last());
        let before = devices.drop_last().filter(own);
        assert(before.push(devices.last()).map_values(address) =~= before.map_values(address).push(
            address(devices.last()),
        ));
    } else {
        assert(own_addresses_of(devices) =~= devices.filter(own).map_values(address));
    }
}

/// A device goes by the name that it told, then by the name of its address, and without either by
/// the number of its address.
pub proof fn law_labels_are_names_before_numbers(d: JsonV)
    ensures
        json::text_field(d, "osd_name"@) matches Some(n) ==> (n.len() > 0 ==> device_label(d) == n),
        json::text_field(d, "osd_name"@) is None ==> (json::text_field(
            d,
            "address_name"@,
        ) matches Some(n) ==> device_label(d) == n),
        json::text_field(d, "osd_name"@) == Some(Seq::<char>::empty()) ==> (json::text_field(
            d,
            "address_name"@,
        ) matches Some(n) ==> device_label(d) == n),
        json::text_field(d, "osd_name"@) is None && json::text_field(d, "address_name"@) is None
            ==> (json::int_field(d, "logical_address"@) matches Some(la) ==> device_label(d)
            == "LA "@ + text::dec_int(la)),
{
}

/// The address of a device is the one in its entry; -1 stands for none.
pub proof fn law_entries_tell_their_address(d: JsonV)
    ensures
        json::int_field(d, "logical_address"@) matches Some(la) ==> device_address(d) == la,
        json::int_field(d, "logical_address"@) is None ==> device_address(d) == -1,
{
}

} // verus!
