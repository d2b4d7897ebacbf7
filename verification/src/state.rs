//! The attachment state: the ports and devices seen so far, which device
//! currently occupies which port, and the loaded rules.
//!
//! Ports and devices are held in growth-only sequences; the two slot maps
//! are twin mappings over indices into those sequences, kept inverse to
//! one another, and `active_devices` holds exactly the indices of the
//! currently slotted devices.

use vstd::prelude::*;

use crate::rule::matcher::{ign_has, is_first_dev_match, is_first_port_match};
use crate::rule::{Rule, RuleV};
use crate::usb::device::{device_matches, DeviceV};
use crate::usb::port::{port_matches, PortV};
use crate::usb::{UsbDevice, UsbPort};

verus! {

/// The attachment state of the daemon.
pub struct State {
    ports: Vec<UsbPort>,
    devices: Vec<UsbDevice>,
    active_devices: Vec<usize>,
    slot_map: Vec<Option<usize>>,
    rev_slot_map: Vec<Option<usize>>,
    pub rules: Vec<Rule>,
}

/// The mathematical value of the attachment state.
#[verifier::ext_equal]
pub struct StateV {
    pub ports: Seq<PortV>,
    pub devices: Seq<DeviceV>,
    pub active_devices: Seq<usize>,
    pub slot_map: Seq<Option<usize>>,
    pub rev_slot_map: Seq<Option<usize>>,
    pub rules: Seq<RuleV>,
}

impl View for State {
    type V = StateV;

    closed spec fn view(&self) -> StateV {
        StateV {
            ports: self.ports@.map_values(|p: UsbPort| p@),
            devices: self.devices@.map_values(|d: UsbDevice| d@),
            active_devices: self.active_devices@,
            slot_map: self.slot_map@,
            rev_slot_map: self.rev_slot_map@,
            rules: self.rules@.map_values(|r: Rule| r@),
        }
    }
}

/// The position of the first record in `devs` equal to `d`; meaningful
/// only when such a record exists.
pub open spec fn first_dev_index(devs: Seq<DeviceV>, d: DeviceV) -> int {
    choose|i: int| is_first_dev_match(devs, d, i)
}

/// The position of the first record in `ports` equal to `p`; meaningful
/// only when such a record exists.
pub open spec fn first_port_index(ports: Seq<PortV>, p: PortV) -> int {
    choose|i: int| is_first_port_match(ports, p, i)
}

/// The position of the first occurrence of `x` in `a`; meaningful only
/// when `a` holds `x`.
pub open spec fn first_index_of(a: Seq<usize>, x: usize) -> int {
    choose|j: int| 0 <= j < a.len() && a[j] == x && forall|k: int| 0 <= k < j ==> a[k] != x
}

/// Removal of the first occurrence of `x` from `a` by swapping the last
/// element into its place, as `Vec::swap_remove` does; `a` unchanged
/// when it does not hold `x`.
pub open spec fn seq_remove_value(a: Seq<usize>, x: usize) -> Seq<usize> {
    if a.contains(x) {
        a.update(first_index_of(a, x), a.last()).drop_last()
    } else {
        a
    }
}

impl StateV {
    /// The state of a freshly started daemon: nothing seen, no rules.
    pub open spec fn empty() -> StateV {
        StateV {
            ports: Seq::empty(),
            devices: Seq::empty(),
            active_devices: Seq::empty(),
            slot_map: Seq::empty(),
            rev_slot_map: Seq::empty(),
            rules: Seq::empty(),
        }
    }

    /// Some stored port compares equal to `p`.
    pub open spec fn port_known(self, p: PortV) -> bool {
        exists|i: int| 0 <= i < self.ports.len() && port_matches(self.ports[i], p)
    }

    /// Some stored device compares equal to `d`.
    pub open spec fn device_known(self, d: DeviceV) -> bool {
        exists|i: int| 0 <= i < self.devices.len() && device_matches(self.devices[i], d)
    }

    /// A port's slot entry points at a stored device whose reverse entry
    /// points back at the port.
    pub open spec fn slot_entry_ok(self, p: int) -> bool {
        match self.slot_map[p] {
            Some(d) => d < self.devices.len() && self.rev_slot_map[d as int] == Some(p as usize),
            None => true,
        }
    }

    /// A device's reverse entry points at a stored port whose slot entry
    /// points back at the device.
    pub open spec fn rev_entry_ok(self, d: int) -> bool {
        match self.rev_slot_map[d] {
            Some(p) => p < self.ports.len() && self.slot_map[p as int] == Some(d as usize),
            None => true,
        }
    }

    /// The slot invariant. The two maps cover exactly the stored ports
    /// and devices, are inverse on their defined entries, and
    /// `active_devices` holds, without duplicates, exactly the devices
    /// occupying some slot.
    pub open spec fn wf(self) -> bool {
        &&& self.ports.len() <= usize::MAX
        &&& self.devices.len() <= usize::MAX
        &&& self.slot_map.len() == self.ports.len()
        &&& self.rev_slot_map.len() == self.devices.len()
        &&& forall|p: int| 0 <= p < self.slot_map.len() ==> #[trigger] self.slot_entry_ok(p)
        &&& forall|d: int| 0 <= d < self.rev_slot_map.len() ==> #[trigger] self.rev_entry_ok(d)
        &&& forall|k: int|
            0 <= k < self.active_devices.len() ==> (#[trigger] self.active_devices[k])
                < self.devices.len() && self.rev_slot_map[self.active_devices[k] as int] is Some
        &&& forall|d: int|
            0 <= d < self.rev_slot_map.len() && (#[trigger] self.rev_slot_map[d]) is Some
                ==> ign_has(self.active_devices, d)
        &&& self.active_devices.no_duplicates()
    }

    /// Adding a port: a no-op when an equal port is already stored, else
    /// the port is appended with an empty slot.
    pub open spec fn add_port_spec(self, p: PortV) -> StateV {
        if self.port_known(p) {
            self
        } else {
            StateV { ports: self.ports.push(p), slot_map: self.slot_map.push(None), ..self }
        }
    }

    /// Adding a device: a no-op when an equal device is already stored,
    /// else the device is appended unslotted.
    pub open spec fn add_device_spec(self, d: DeviceV) -> StateV {
        if self.device_known(d) {
            self
        } else {
            StateV {
                devices: self.devices.push(d),
                rev_slot_map: self.rev_slot_map.push(None),
                ..self
            }
        }
    }

    /// Clearing both slot entries of the device at index `id`, if it
    /// occupies a port.
    pub open spec fn unslot_spec(self, id: int) -> StateV {
        match self.rev_slot_map[id] {
            Some(ip) => StateV {
                slot_map: self.slot_map.update(ip as int, None),
                rev_slot_map: self.rev_slot_map.update(id, None),
                ..self
            },
            None => self,
        }
    }

    /// Slotting a device into a port. Both records are first made
    /// present; the first stored port and device equal to the arguments
    /// are then bound to each other. A device that is already active is
    /// left where it is; a device previously occupying the port is
    /// evicted.
    pub open spec fn add_and_slot_spec(self, d: DeviceV, p: PortV) -> StateV {
        let s = self.add_port_spec(p).add_device_spec(d);
        let ip = first_port_index(s.ports, p);
        let id = first_dev_index(s.devices, d);
        if ign_has(s.active_devices, id) {
            s
        } else {
            let s1 = match s.slot_map[ip] {
                Some(dold) => StateV {
                    rev_slot_map: s.rev_slot_map.update(dold as int, None),
                    active_devices: seq_remove_value(s.active_devices, dold),
                    ..s
                },
                None => s,
            };
            StateV {
                slot_map: s1.slot_map.update(ip, Some(id as usize)),
                rev_slot_map: s1.rev_slot_map.update(id, Some(ip as usize)),
                active_devices: s1.active_devices.push(id as usize),
                ..s1
            }
        }
    }

    /// Removing a device: the first stored device equal to `d` is
    /// unslotted and deactivated; nothing is compacted, so indices of
    /// other devices are unchanged. A no-op when no stored device is
    /// equal to `d`.
    pub open spec fn rm_and_unslot_spec(self, d: DeviceV) -> StateV {
        if !self.device_known(d) {
            self
        } else {
            let id = first_dev_index(self.devices, d);
            let s1 = self.unslot_spec(id);
            StateV {
                active_devices: seq_remove_value(s1.active_devices, id as usize),
                ..s1
            }
        }
    }
}

/// Swap-removal of one value keeps the remaining membership and freedom
/// from duplicates.
proof fn lemma_seq_remove_value(a: Seq<usize>, x: usize)
    requires
        a.no_duplicates(),
    ensures
        seq_remove_value(a, x).no_duplicates(),
        forall|d: int|
            #[trigger] ign_has(seq_remove_value(a, x), d) <==> (ign_has(a, d) && d != x as int),
{
    if a.contains(x) {
        let jx = choose|j: int| 0 <= j < a.len() && a[j] == x;
        let jw = choose|j: int|
            0 <= j < a.len() && a[j] == x && forall|k: int| 0 <= k < j ==> a[k] != x;
        assert(exists|j: int|
            0 <= j < a.len() && a[j] == x && forall|k: int| 0 <= k < j ==> a[k] != x) by {
            assert forall|k: int| 0 <= k < jx implies a[k] != x by {
                if a[k] == x {
                    assert(false);
                }
            }
        }
        let j = first_index_of(a, x);
        let r = a.update(j, a.last()).drop_last();
        let n = a.len() as int;
        assert forall|k1: int, k2: int|
            0 <= k1 < r.len() && 0 <= k2 < r.len() && k1 != k2 implies r[k1] != r[k2] by {
            let m1: int = if k1 == j { n - 1 } else { k1 };
            let m2: int = if k2 == j { n - 1 } else { k2 };
            assert(r[k1] == a[m1]);
            assert(r[k2] == a[m2]);
        }
        assert forall|d: int| #[trigger] ign_has(r, d) implies (ign_has(a, d) && d != x as int) by {
            let k = choose|k: int| 0 <= k < r.len() && r[k] as int == d;
            let m: int = if k == j { n - 1 } else { k };
            assert(r[k] == a[m]);
            if a[m] == x {
                assert(m == j);
            }
        }
        assert forall|d: int| ign_has(a, d) && d != x as int implies #[trigger] ign_has(r, d) by {
            let k = choose|k: int| 0 <= k < a.len() && a[k] as int == d;
            if k == n - 1 {
                if j < n - 1 {
                    assert(r[j] as int == d);
                } else {
                    assert(a[j] == x);
                }
            } else if k != j {
                assert(r[k] as int == d);
            } else {
                assert(a[j] == x);
            }
        }
    } else {
        assert forall|d: int| #[trigger] ign_has(a, d) implies d != x as int by {
            let k = choose|k: int| 0 <= k < a.len() && a[k] as int == d;
            if a[k] == x {
                assert(a.contains(x));
            }
        }
    }
}

/// Appending a port with an empty slot preserves the slot invariant.
pub proof fn lemma_add_port_preserves_wf(s: StateV, p: PortV)
    requires
        s.wf(),
        !s.port_known(p) ==> s.ports.len() < usize::MAX,
    ensures
        s.add_port_spec(p).wf(),
{
    if !s.port_known(p) {
        let t = s.add_port_spec(p);
        assert forall|q: int| 0 <= q < t.slot_map.len() implies #[trigger] t.slot_entry_ok(q) by {
            if q < s.slot_map.len() {
                assert(s.slot_entry_ok(q));
            }
        }
        assert forall|d: int| 0 <= d < t.rev_slot_map.len() implies #[trigger] t.rev_entry_ok(d) by {
            assert(s.rev_entry_ok(d));
        }
    }
}

/// Appending an unslotted device preserves the slot invariant.
pub proof fn lemma_add_device_preserves_wf(s: StateV, d: DeviceV)
    requires
        s.wf(),
        !s.device_known(d) ==> s.devices.len() < usize::MAX,
    ensures
        s.add_device_spec(d).wf(),
{
    if !s.device_known(d) {
        let t = s.add_device_spec(d);
        assert forall|q: int| 0 <= q < t.slot_map.len() implies #[trigger] t.slot_entry_ok(q) by {
            assert(s.slot_entry_ok(q));
        }
        assert forall|e: int| 0 <= e < t.rev_slot_map.len() implies #[trigger] t.rev_entry_ok(e) by {
            if e < s.rev_slot_map.len() {
                assert(s.rev_entry_ok(e));
            }
        }
        assert forall|e: int|
            0 <= e < t.rev_slot_map.len() && (#[trigger] t.rev_slot_map[e]) is Some implies ign_has(
            t.active_devices,
            e,
        ) by {
            if e < s.rev_slot_map.len() {
                assert(s.rev_slot_map[e] is Some);
            }
        }
    }
}

/// Slotting a device preserves the slot invariant: the maps stay inverse
/// and the active list stays the exact image of the slot map.
pub proof fn lemma_add_and_slot_preserves_wf(s: StateV, d: DeviceV, p: PortV)
    requires
        s.wf(),
        !s.port_known(p) ==> s.ports.len() < usize::MAX,
        !s.add_port_spec(p).device_known(d) ==> s.devices.len() < usize::MAX,
    ensures
        s.add_and_slot_spec(d, p).wf(),
{
    lemma_add_port_preserves_wf(s, p);
    let sa = s.add_port_spec(p);
    lemma_add_device_preserves_wf(sa, d);
    let sb = sa.add_device_spec(d);
    assert(sb.ports == sa.ports);
    assert(exists|i: int| 0 <= i < sb.ports.len() && port_matches(sb.ports[i], p)) by {
        if s.port_known(p) {
            let w = choose|i: int| 0 <= i < s.ports.len() && port_matches(s.ports[i], p);
            assert(sb.ports[w] == s.ports[w]);
        } else {
            assert(port_matches(p, p));
            assert(sb.ports[sb.ports.len() - 1] == p);
        }
    }
    assert(exists|i: int| 0 <= i < sb.devices.len() && device_matches(sb.devices[i], d)) by {
        if sa.device_known(d) {
            let w = choose|i: int| 0 <= i < sa.devices.len() && device_matches(sa.devices[i], d);
            assert(sb.devices[w] == sa.devices[w]);
        } else {
            assert(device_matches(d, d));
            assert(sb.devices[sb.devices.len() - 1] == d);
        }
    }
    lemma_first_port_exists(sb.ports, p);
    lemma_first_dev_exists(sb.devices, d);
    let ip = first_port_index(sb.ports, p);
    let id = first_dev_index(sb.devices, d);
    assert(is_first_port_match(sb.ports, p, ip)) by {
        let w = choose|i: int| is_first_port_match(sb.ports, p, i);
        assert(is_first_port_match(sb.ports, p, w));
    }
    assert(is_first_dev_match(sb.devices, d, id)) by {
        let w = choose|i: int| is_first_dev_match(sb.devices, d, i);
        assert(is_first_dev_match(sb.devices, d, w));
    }
    if !ign_has(sb.active_devices, id) {
        assert(sb.slot_entry_ok(ip));
        let s1 = match sb.slot_map[ip] {
            Some(dold) => StateV {
                rev_slot_map: sb.rev_slot_map.update(dold as int, None),
                active_devices: seq_remove_value(sb.active_devices, dold),
                ..sb
            },
            None => sb,
        };
        let t = StateV {
            slot_map: s1.slot_map.update(ip, Some(id as usize)),
            rev_slot_map: s1.rev_slot_map.update(id, Some(ip as usize)),
            active_devices: s1.active_devices.push(id as usize),
            ..s1
        };
        assert(t == s.add_and_slot_spec(d, p));
        match sb.slot_map[ip] {
            Some(dold) => {
                lemma_seq_remove_value(sb.active_devices, dold);
                assert(sb.rev_entry_ok(dold as int));
                assert(ign_has(sb.active_devices, dold as int)) by {
                    assert(sb.rev_slot_map[dold as int] is Some);
                }
                assert(dold as int != id);
                prove_slotted_wf(sb, s1, t, ip, id, Some(dold));
            },
            None => {
                prove_slotted_wf(sb, s1, t, ip, id, None);
            },
        }
    }
}

/// The common body of the slotting proof: after clearing any evicted
/// occupant and binding port `ip` to device `id`, every invariant clause
/// holds again.
proof fn prove_slotted_wf(
    sb: StateV,
    s1: StateV,
    t: StateV,
    ip: int,
    id: int,
    evicted: Option<usize>,
)
    requires
        sb.wf(),
        0 <= ip < sb.ports.len(),
        0 <= id < sb.devices.len(),
        !ign_has(sb.active_devices, id),
        match evicted {
            Some(dold) => sb.slot_map[ip] == Some(dold) && s1 == (StateV {
                rev_slot_map: sb.rev_slot_map.update(dold as int, None),
                active_devices: seq_remove_value(sb.active_devices, dold),
                ..sb
            }) && dold < sb.devices.len() && sb.rev_slot_map[dold as int] == Some(ip as usize)
                && dold != id as usize,
            None => sb.slot_map[ip] is None && s1 == sb,
        },
        t == (StateV {
            slot_map: s1.slot_map.update(ip, Some(id as usize)),
            rev_slot_map: s1.rev_slot_map.update(id, Some(ip as usize)),
            active_devices: s1.active_devices.push(id as usize),
            ..s1
        }),
    ensures
        t.wf(),
{
    if let Some(dold) = evicted {
        lemma_seq_remove_value(sb.active_devices, dold);
    }
    assert forall|q: int| 0 <= q < t.slot_map.len() implies #[trigger] t.slot_entry_ok(q) by {
        assert(sb.slot_entry_ok(q));
        if q != ip {
            match sb.slot_map[q] {
                Some(dq) => {
                    assert(dq as int != id) by {
                        if dq as int == id {
                            assert(sb.rev_slot_map[id] == Some(q as usize));
                            assert(ign_has(sb.active_devices, id));
                        }
                    }
                    if let Some(dold) = evicted {
                        assert(dq != dold) by {
                            if dq == dold {
                                assert(sb.rev_slot_map[dold as int] == Some(q as usize));
                            }
                        }
                    }
                },
                None => {},
            }
        }
    }
    assert forall|e: int| 0 <= e < t.rev_slot_map.len() implies #[trigger] t.rev_entry_ok(e) by {
        assert(sb.rev_entry_ok(e));
        if e != id {
            match t.rev_slot_map[e] {
                Some(pe) => {
                    assert(sb.rev_slot_map[e] == Some(pe));
                    assert(pe as int != ip) by {
                        if pe as int == ip {
                            assert(sb.slot_map[ip] == Some(e as usize));
                        }
                    }
                },
                None => {},
            }
        }
    }
    assert forall|k: int|
        0 <= k < t.active_devices.len() implies (#[trigger] t.active_devices[k])
        < t.devices.len() && t.rev_slot_map[t.active_devices[k] as int] is Some by {
        if k < s1.active_devices.len() {
            let v = s1.active_devices[k];
            assert(ign_has(s1.active_devices, v as int));
            if let Some(dold) = evicted {
                assert(ign_has(sb.active_devices, v as int) && v != dold);
            } else {
                assert(ign_has(sb.active_devices, v as int));
            }
            let kk = choose|kk: int|
                0 <= kk < sb.active_devices.len() && sb.active_devices[kk] as int == v as int;
            assert(sb.active_devices[kk] < sb.devices.len());
        }
    }
    assert forall|e: int|
        0 <= e < t.rev_slot_map.len() && (#[trigger] t.rev_slot_map[e]) is Some implies ign_has(
        t.active_devices,
        e,
    ) by {
        if e == id {
            assert(t.active_devices[t.active_devices.len() - 1] as int == id);
        } else {
            assert(sb.rev_slot_map[e] == t.rev_slot_map[e]);
            assert(ign_has(sb.active_devices, e));
            match evicted {
                Some(dold) => {
                    assert(e != dold as int);
                    assert(ign_has(s1.active_devices, e));
                    let k = choose|k: int|
                        0 <= k < s1.active_devices.len() && s1.active_devices[k] as int == e;
                    assert(t.active_devices[k] as int == e);
                },
                None => {
                    let k = choose|k: int|
                        0 <= k < s1.active_devices.len() && s1.active_devices[k] as int == e;
                    assert(t.active_devices[k] as int == e);
                },
            }
        }
    }
    assert(t.active_devices.no_duplicates()) by {
        assert forall|k1: int, k2: int|
            0 <= k1 < t.active_devices.len() && 0 <= k2 < t.active_devices.len() && k1 != k2
            implies t.active_devices[k1] != t.active_devices[k2] by {
            let last = t.active_devices.len() - 1;
            if k1 == last || k2 == last {
                let other: int = if k1 == last { k2 } else { k1 };
                let v = s1.active_devices[other];
                assert(ign_has(s1.active_devices, v as int));
                if v as int == id {
                    if let Some(dold) = evicted {
                        assert(ign_has(sb.active_devices, id));
                    } else {
                        assert(ign_has(sb.active_devices, id));
                    }
                }
            }
        }
    }
}

/// Removing a device preserves the slot invariant.
pub proof fn lemma_rm_and_unslot_preserves_wf(s: StateV, d: DeviceV)
    requires
        s.wf(),
    ensures
        s.rm_and_unslot_spec(d).wf(),
{
    if s.device_known(d) {
        let id = first_dev_index(s.devices, d);
        assert(exists|i: int| is_first_dev_match(s.devices, d, i)) by {
            lemma_first_dev_exists(s.devices, d);
        }
        assert(is_first_dev_match(s.devices, d, id));
        let s1 = s.unslot_spec(id);
        let t = StateV { active_devices: seq_remove_value(s1.active_devices, id as usize), ..s1 };
        lemma_seq_remove_value(s1.active_devices, id as usize);
        assert(s.rev_entry_ok(id));
        assert forall|q: int| 0 <= q < t.slot_map.len() implies #[trigger] t.slot_entry_ok(q) by {
            assert(s.slot_entry_ok(q));
            match s.rev_slot_map[id] {
                Some(ip) => {
                    if q != ip as int {
                        match s.slot_map[q] {
                            Some(dq) => {
                                assert(dq as int != id) by {
                                    if dq as int == id {
                                        assert(s.rev_slot_map[id] == Some(q as usize));
                                    }
                                }
                            },
                            None => {},
                        }
                    }
                },
                None => {},
            }
        }
        assert forall|e: int| 0 <= e < t.rev_slot_map.len() implies #[trigger] t.rev_entry_ok(e) by {
            assert(s.rev_entry_ok(e));
            if e != id {
                match s.rev_slot_map[e] {
                    Some(pe) => {
                        match s.rev_slot_map[id] {
                            Some(ip) => {
                                assert(pe as int != ip as int) by {
                                    if pe as int == ip as int {
                                        assert(s.slot_map[pe as int] == Some(e as usize));
                                        assert(s.slot_map[ip as int] == Some(id as usize));
                                    }
                                }
                            },
                            None => {},
                        }
                    },
                    None => {},
                }
            }
        }
        assert forall|k: int|
            0 <= k < t.active_devices.len() implies (#[trigger] t.active_devices[k])
            < t.devices.len() && t.rev_slot_map[t.active_devices[k] as int] is Some by {
            let v = t.active_devices[k];
            assert(ign_has(t.active_devices, v as int));
            assert(ign_has(s.active_devices, v as int) && v as int != id);
            let kk = choose|kk: int|
                0 <= kk < s.active_devices.len() && s.active_devices[kk] as int == v as int;
            assert(s.active_devices[kk] < s.devices.len());
            assert(s.rev_slot_map[v as int] is Some);
        }
        assert forall|e: int|
            0 <= e < t.rev_slot_map.len() && (#[trigger] t.rev_slot_map[e]) is Some implies ign_has(
            t.active_devices,
            e,
        ) by {
            assert(e != id);
            assert(s.rev_slot_map[e] is Some);
            assert(ign_has(s.active_devices, e));
        }
    }
}

/// Every sequence with a record equal to `d` has a first such record.
pub proof fn lemma_first_dev_exists(devs: Seq<DeviceV>, d: DeviceV)
    requires
        exists|i: int| 0 <= i < devs.len() && device_matches(devs[i], d),
    ensures
        exists|i: int| is_first_dev_match(devs, d, i),
{
    let w = choose|i: int| 0 <= i < devs.len() && device_matches(devs[i], d);
    lemma_first_dev_exists_below(devs, d, w);
}

proof fn lemma_first_dev_exists_below(devs: Seq<DeviceV>, d: DeviceV, w: int)
    requires
        0 <= w < devs.len(),
        device_matches(devs[w], d),
    ensures
        exists|i: int| is_first_dev_match(devs, d, i),
    decreases w,
{
    if forall|j: int| 0 <= j < w ==> !device_matches(devs[j], d) {
        assert(is_first_dev_match(devs, d, w));
    } else {
        let w2 = choose|j: int| 0 <= j < w && device_matches(devs[j], d);
        lemma_first_dev_exists_below(devs, d, w2);
    }
}

/// Every sequence with a record equal to `p` has a first such record.
pub proof fn lemma_first_port_exists(ports: Seq<PortV>, p: PortV)
    requires
        exists|i: int| 0 <= i < ports.len() && port_matches(ports[i], p),
    ensures
        exists|i: int| is_first_port_match(ports, p, i),
{
    let w = choose|i: int| 0 <= i < ports.len() && port_matches(ports[i], p);
    lemma_first_port_exists_below(ports, p, w);
}

proof fn lemma_first_port_exists_below(ports: Seq<PortV>, p: PortV, w: int)
    requires
        0 <= w < ports.len(),
        port_matches(ports[w], p),
    ensures
        exists|i: int| is_first_port_match(ports, p, i),
    decreases w,
{
    if forall|j: int| 0 <= j < w ==> !port_matches(ports[j], p) {
        assert(is_first_port_match(ports, p, w));
    } else {
        let w2 = choose|j: int| 0 <= j < w && port_matches(ports[j], p);
        lemma_first_port_exists_below(ports, p, w2);
    }
}


/// After making a port and a device present, both are known to the
/// state.
pub proof fn lemma_present_after_adds(s: StateV, d: DeviceV, p: PortV)
    ensures
        s.add_port_spec(p).add_device_spec(d).port_known(p),
        s.add_port_spec(p).add_device_spec(d).device_known(d),
{
    let sa = s.add_port_spec(p);
    let sb = sa.add_device_spec(d);
    assert(sb.ports == sa.ports);
    if s.port_known(p) {
        let w = choose|i: int| 0 <= i < s.ports.len() && port_matches(s.ports[i], p);
        assert(port_matches(sb.ports[w], p));
    } else {
        assert(port_matches(p, p));
        assert(port_matches(sb.ports[sb.ports.len() - 1], p));
    }
    if sa.device_known(d) {
        let w = choose|i: int| 0 <= i < sa.devices.len() && device_matches(sa.devices[i], d);
        assert(device_matches(sb.devices[w], d));
    } else {
        assert(device_matches(d, d));
        assert(device_matches(sb.devices[sb.devices.len() - 1], d));
    }
}

/// A first match is the only first match.
pub proof fn lemma_first_port_unique(ports: Seq<PortV>, p: PortV, i: int, j: int)
    requires
        is_first_port_match(ports, p, i),
        is_first_port_match(ports, p, j),
    ensures
        i == j,
{
}

/// A first match is the only first match.
pub proof fn lemma_first_dev_unique(devs: Seq<DeviceV>, d: DeviceV, i: int, j: int)
    requires
        is_first_dev_match(devs, d, i),
        is_first_dev_match(devs, d, j),
    ensures
        i == j,
{
}

impl State {
    /// A fresh state: nothing seen, no rules loaded.
    pub fn new() -> (r: Self)
        ensures
            r@ == StateV::empty(),
            r@.wf(),
    {
        let r = State {
            ports: Vec::new(),
            devices: Vec::new(),
            active_devices: Vec::new(),
            slot_map: Vec::new(),
            rev_slot_map: Vec::new(),
            rules: Vec::new(),
        };
        proof {
            assert(r@ =~= StateV::empty());
        }
        r
    }

    /// The index of the first stored port equal to `p`, if any.
    fn find_port(&self, p: &UsbPort) -> (r: Option<usize>)
        ensures
            match r {
                Some(i) => is_first_port_match(self@.ports, p@, i as int),
                None => !self@.port_known(p@),
            },
    {
        let mut i: usize = 0;
        while i < self.ports.len()
            invariant
                i <= self.ports.len(),
                forall|j: int| 0 <= j < i ==> !port_matches(self@.ports[j], p@),
            decreases self.ports.len() - i,
        {
            proof {
                assert(self@.ports[i as int] == self.ports@[i as int]@);
            }
            if &self.ports[i] == p {
                return Some(i);
            }
            i += 1;
        }
        None
    }

    /// The index of the first stored device equal to `d`, if any.
    fn find_device(&self, d: &UsbDevice) -> (r: Option<usize>)
        ensures
            match r {
                Some(i) => is_first_dev_match(self@.devices, d@, i as int),
                None => !self@.device_known(d@),
            },
    {
        let mut i: usize = 0;
        while i < self.devices.len()
            invariant
                i <= self.devices.len(),
                forall|j: int| 0 <= j < i ==> !device_matches(self@.devices[j], d@),
            decreases self.devices.len() - i,
        {
            proof {
                assert(self@.devices[i as int] == self.devices@[i as int]@);
            }
            if &self.devices[i] == d {
                return Some(i);
            }
            i += 1;
        }
        None
    }

    /// Swap-remove the first occurrence of `id` from the active list;
    /// a no-op when `id` is not active.
    fn deactivate(&mut self, id: usize)
        ensures
            final(self)@ == (StateV {
                active_devices: seq_remove_value(old(self)@.active_devices, id),
                ..old(self)@
            }),
    {
        let ghost s0 = self@;
        let ghost a = self.active_devices@;
        let mut k: usize = 0;
        while k < self.active_devices.len()
            invariant
                k <= self.active_devices.len(),
                s0 == old(self)@,
                self@ == s0,
                a == s0.active_devices,
                a.len() == self.active_devices.len(),
                forall|j: int| 0 <= j < k ==> a[j] != id,
            decreases self.active_devices.len() - k,
        {
            if self.active_devices[k] == id {
                self.active_devices.swap_remove(k);
                proof {
                    assert(a.contains(id)) by {
                        assert(a[k as int] == id);
                    }
                    let j = first_index_of(a, id);
                    assert(0 <= j < a.len() && a[j] == id && forall|kk: int|
                        0 <= kk < j ==> a[kk] != id) by {
                        assert(a[k as int] == id && forall|kk: int| 0 <= kk < k ==> a[kk] != id);
                    }
                    assert(j == k as int);
                    assert(self@ =~= (StateV {
                        active_devices: seq_remove_value(s0.active_devices, id),
                        ..s0
                    }));
                }
                return;
            }
            k += 1;
        }
        proof {
            assert(!a.contains(id)) by {
                if a.contains(id) {
                    let j = choose|j: int| 0 <= j < a.len() && a[j] == id;
                    assert(a[j] != id);
                }
            }
            assert(self@ =~= (StateV {
                active_devices: seq_remove_value(s0.active_devices, id),
                ..s0
            }));
        }
    }

    /// Record a port if no equal one is stored yet; a new port starts
    /// with an empty slot at its own index.
    pub fn add_port(&mut self, port: UsbPort)
        ensures
            final(self)@ == old(self)@.add_port_spec(port@),
            old(self)@.wf() ==> final(self)@.wf(),
            !old(self)@.port_known(port@) ==> old(self)@.ports.len() < usize::MAX,
    {
        let ghost s0 = self@;
        let found = self.find_port(&port);
        match found {
            Some(i) => {
                proof {
                    assert(s0.port_known(port@));
                    assert(self@ =~= s0.add_port_spec(port@));
                }
            },
            None => {
                self.ports.push(port);
                self.slot_map.push(None);
                let n = self.ports.len();
                proof {
                    assert(n == s0.ports.len() + 1);
                    assert(self@.ports =~= s0.ports.push(self.ports@[n - 1]@));
                    assert(self@ =~= s0.add_port_spec(port@));
                    if s0.wf() {
                        lemma_add_port_preserves_wf(s0, port@);
                    }
                }
            },
        }
    }

    /// Record a device if no equal one is stored yet; a new device
    /// starts unslotted.
    pub fn add_device(&mut self, device: UsbDevice)
        ensures
            final(self)@ == old(self)@.add_device_spec(device@),
            old(self)@.wf() ==> final(self)@.wf(),
            !old(self)@.device_known(device@) ==> old(self)@.devices.len() < usize::MAX,
    {
        let ghost s0 = self@;
        let found = self.find_device(&device);
        match found {
            Some(i) => {
                proof {
                    assert(s0.device_known(device@));
                    assert(self@ =~= s0.add_device_spec(device@));
                }
            },
            None => {
                self.devices.push(device);
                self.rev_slot_map.push(None);
                let n = self.devices.len();
                proof {
                    assert(n == s0.devices.len() + 1);
                    assert(self@.devices =~= s0.devices.push(self.devices@[n - 1]@));
                    assert(self@ =~= s0.add_device_spec(device@));
                    if s0.wf() {
                        lemma_add_device_preserves_wf(s0, device@);
                    }
                }
            },
        }
    }

    /// Make both records present, then bind the first stored port equal
    /// to `port` to the first stored device equal to `device`; see
    /// `StateV::add_and_slot_spec`.
    pub fn add_and_slot_device(&mut self, device: UsbDevice, port: UsbPort)
        requires
            old(self)@.wf(),
        ensures
            final(self)@ == old(self)@.add_and_slot_spec(device@, port@),
            final(self)@.wf(),
    {
        let ghost s0 = self@;
        self.add_port(port.clone());
        self.add_device(device.clone());
        let ghost sb = self@;
        proof {
            assert(sb == s0.add_port_spec(port@).add_device_spec(device@));
            lemma_present_after_adds(s0, device@, port@);
            lemma_add_and_slot_preserves_wf(s0, device@, port@);
        }
        // Both records were just made present, so both lookups succeed.
        let ip = match self.find_port(&port) {
            Some(i) => i,
            None => {
                proof {
                    assert(false);
                }
                0
            },
        };
        let id = match self.find_device(&device) {
            Some(i) => i,
            None => {
                proof {
                    assert(false);
                }
                0
            },
        };
        proof {
            assert(is_first_port_match(sb.ports, port@, ip as int));
            assert(is_first_port_match(sb.ports, port@, first_port_index(sb.ports, port@)));
            lemma_first_port_unique(sb.ports, port@, ip as int, first_port_index(sb.ports, port@));
            assert(is_first_dev_match(sb.devices, device@, id as int));
            assert(is_first_dev_match(sb.devices, device@, first_dev_index(sb.devices, device@)));
            lemma_first_dev_unique(
                sb.devices,
                device@,
                id as int,
                first_dev_index(sb.devices, device@),
            );
            assert(sb.slot_entry_ok(ip as int));
        }
        let active = crate::rule::matcher::contains_usize(&self.active_devices, id);
        if !active {
            let occ = self.slot_map[ip];
            if let Some(dold) = occ {
                proof {
                    assert(sb.slot_map[ip as int] == Some(dold));
                }
                self.rev_slot_map[dold] = None;
                self.deactivate(dold);
                self.slot_map[ip] = Some(id);
                self.rev_slot_map[id] = Some(ip);
                self.active_devices.push(id);
                proof {
                    let ghost s1 = StateV {
                        rev_slot_map: sb.rev_slot_map.update(dold as int, None),
                        active_devices: seq_remove_value(sb.active_devices, dold),
                        ..sb
                    };
                    assert(self@ =~= (StateV {
                        slot_map: s1.slot_map.update(ip as int, Some(id)),
                        rev_slot_map: s1.rev_slot_map.update(id as int, Some(ip)),
                        active_devices: s1.active_devices.push(id),
                        ..s1
                    }));
                    assert(self@ =~= s0.add_and_slot_spec(device@, port@));
                }
            } else {
                self.slot_map[ip] = Some(id);
                self.rev_slot_map[id] = Some(ip);
                self.active_devices.push(id);
                proof {
                    assert(self@ =~= (StateV {
                        slot_map: sb.slot_map.update(ip as int, Some(id)),
                        rev_slot_map: sb.rev_slot_map.update(id as int, Some(ip)),
                        active_devices: sb.active_devices.push(id),
                        ..sb
                    }));
                    assert(self@ =~= s0.add_and_slot_spec(device@, port@));
                }
            }
        } else {
            proof {
                assert(self@ =~= s0.add_and_slot_spec(device@, port@));
            }
        }
    }

    /// Unslot and deactivate the first stored device equal to `device`;
    /// indices of other records are unchanged and nothing is compacted.
    pub fn rm_and_unslot_device(&mut self, device: UsbDevice)
        requires
            old(self)@.wf(),
        ensures
            final(self)@ == old(self)@.rm_and_unslot_spec(device@),
            final(self)@.wf(),
    {
        let ghost s0 = self@;
        proof {
            lemma_rm_and_unslot_preserves_wf(s0, device@);
        }
        let found = self.find_device(&device);
        match found {
            None => {
                proof {
                    assert(self@ =~= s0.rm_and_unslot_spec(device@));
                }
            },
            Some(id) => {
                proof {
                    assert(s0.device_known(device@));
                    lemma_first_dev_exists(s0.devices, device@);
                    lemma_first_dev_unique(
                        s0.devices,
                        device@,
                        id as int,
                        first_dev_index(s0.devices, device@),
                    );
                    assert(s0.rev_entry_ok(id as int));
                }
                let rev = self.rev_slot_map[id];
                if let Some(ipp) = rev {
                    self.slot_map[ipp] = None;
                    self.rev_slot_map[id] = None;
                }
                self.deactivate(id);
                proof {
                    assert(self@ =~= s0.rm_and_unslot_spec(device@));
                }
            },
        }
    }
}


/// The slot invariant does not depend on the loaded rules.
pub proof fn lemma_wf_ignores_rules(s: StateV, t: StateV)
    requires
        s.wf(),
        t.ports == s.ports,
        t.devices == s.devices,
        t.active_devices == s.active_devices,
        t.slot_map == s.slot_map,
        t.rev_slot_map == s.rev_slot_map,
    ensures
        t.wf(),
{
    assert forall|p: int| 0 <= p < t.slot_map.len() implies #[trigger] t.slot_entry_ok(p) by {
        assert(s.slot_entry_ok(p));
    }
    assert forall|d: int| 0 <= d < t.rev_slot_map.len() implies #[trigger] t.rev_entry_ok(d) by {
        assert(s.rev_entry_ok(d));
    }
}

/// The state after adding each device of `devs` in order.
pub open spec fn load_devices_spec(s: StateV, devs: Seq<DeviceV>) -> StateV
    decreases devs.len(),
{
    if devs.len() == 0 {
        s
    } else {
        load_devices_spec(s, devs.drop_last()).add_device_spec(devs.last())
    }
}

/// The state after adding each port of `ports` in order.
pub open spec fn load_ports_spec(s: StateV, ports: Seq<PortV>) -> StateV
    decreases ports.len(),
{
    if ports.len() == 0 {
        s
    } else {
        load_ports_spec(s, ports.drop_last()).add_port_spec(ports.last())
    }
}

impl State {
    /// Add every device of a loaded device file, in order, skipping
    /// those already stored.
    pub fn load_devices(&mut self, devices: Vec<UsbDevice>)
        ensures
            final(self)@ == load_devices_spec(
                old(self)@,
                devices@.map_values(|d: UsbDevice| d@),
            ),
            old(self)@.wf() ==> final(self)@.wf(),
    {
        let ghost s0 = self@;
        let ghost dv = devices@.map_values(|d: UsbDevice| d@);
        let mut i: usize = 0;
        while i < devices.len()
            invariant
                i <= devices.len(),
                s0 == old(self)@,
                dv == devices@.map_values(|d: UsbDevice| d@),
                dv.len() == devices@.len(),
                self@ == load_devices_spec(s0, dv.take(i as int)),
                s0.wf() ==> self@.wf(),
            decreases devices.len() - i,
        {
            self.add_device(devices[i].clone());
            proof {
                assert(dv.take((i + 1) as int).drop_last() =~= dv.take(i as int));
                assert(dv.take((i + 1) as int).last() == dv[i as int]);
                assert(dv[i as int] == devices@[i as int]@);
            }
            i += 1;
        }
        proof {
            assert(dv.take(devices@.len() as int) =~= dv);
        }
    }

    /// Add every port of a loaded port file, in order, skipping those
    /// already stored.
    pub fn load_ports(&mut self, ports: Vec<UsbPort>)
        ensures
            final(self)@ == load_ports_spec(old(self)@, ports@.map_values(|p: UsbPort| p@)),
            old(self)@.wf() ==> final(self)@.wf(),
    {
        let ghost s0 = self@;
        let ghost pv = ports@.map_values(|p: UsbPort| p@);
        let mut i: usize = 0;
        while i < ports.len()
            invariant
                i <= ports.len(),
                s0 == old(self)@,
                pv == ports@.map_values(|p: UsbPort| p@),
                pv.len() == ports@.len(),
                self@ == load_ports_spec(s0, pv.take(i as int)),
                s0.wf() ==> self@.wf(),
            decreases ports.len() - i,
        {
            self.add_port(ports[i].clone());
            proof {
                assert(pv.take((i + 1) as int).drop_last() =~= pv.take(i as int));
                assert(pv.take((i + 1) as int).last() == pv[i as int]);
                assert(pv[i as int] == ports@[i as int]@);
            }
            i += 1;
        }
        proof {
            assert(pv.take(ports@.len() as int) =~= pv);
        }
    }

    /// Append the rules of a loaded rule document, in order, after any
    /// rules already held.
    pub fn load_rules(&mut self, rules: Vec<Rule>)
        ensures
            final(self)@ == (StateV {
                rules: old(self)@.rules + rules@.map_values(|r: Rule| r@),
                ..old(self)@
            }),
            old(self)@.wf() ==> final(self)@.wf(),
    {
        let ghost s0 = self@;
        let ghost rv = rules@.map_values(|r: Rule| r@);
        let mut incoming = rules;
        self.rules.append(&mut incoming);
        proof {
            assert(self@.rules =~= s0.rules + rv);
            assert(self@ =~= (StateV { rules: s0.rules + rv, ..s0 }));
            if s0.wf() {
                lemma_wf_ignores_rules(s0, self@);
            }
        }
    }

    /// The rules loaded into this state, in order of appearance.
    pub fn loaded_rules(&self) -> (r: &Vec<Rule>)
        ensures
            r@.map_values(|ru: Rule| ru@) == self@.rules,
    {
        &self.rules
    }

    /// How many stored ports there are.
    pub fn ports_len(&self) -> (r: usize)
        ensures
            r == self@.ports.len(),
    {
        self.ports.len()
    }

    /// How many stored devices there are.
    pub fn devices_len(&self) -> (r: usize)
        ensures
            r == self@.devices.len(),
    {
        self.devices.len()
    }

    /// How many devices are currently slotted.
    pub fn active_len(&self) -> (r: usize)
        ensures
            r == self@.active_devices.len(),
    {
        self.active_devices.len()
    }

    /// The slot entry of the port at `i`: the index of the occupying
    /// device, if any.
    pub fn slot_of(&self, i: usize) -> (r: Option<usize>)
        requires
            i < self@.slot_map.len(),
        ensures
            r == self@.slot_map[i as int],
    {
        self.slot_map[i]
    }

    /// The reverse entry of the device at `i`: the index of the port it
    /// occupies, if any.
    pub fn rev_slot_of(&self, i: usize) -> (r: Option<usize>)
        requires
            i < self@.rev_slot_map.len(),
        ensures
            r == self@.rev_slot_map[i as int],
    {
        self.rev_slot_map[i]
    }
}

} // verus!
