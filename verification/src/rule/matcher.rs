//! The match clause of a rule and the predicate deciding whether an
//! event satisfies it.

use vstd::prelude::*;

use crate::udev::{EventV, UdevEvent};
use crate::usb::device::{device_matches, DeviceV};
use crate::usb::port::{port_matches, PortV};
use crate::usb::{UsbDevice, UsbEvent, UsbPort};

verus! {

/// The predicate part of a rule: an event kind (possibly the wildcard),
/// a list of device records, a list of port records, and the positions
/// in `devices` that are to be excluded rather than included.
#[derive(Debug)]
pub struct Match {
    pub on: UsbEvent,
    pub devices: Vec<UsbDevice>,
    pub ports: Vec<UsbPort>,
    pub ignore_devices: Vec<usize>,
}

/// The mathematical value of a match clause.
#[verifier::ext_equal]
pub struct MatchV {
    pub on: UsbEvent,
    pub devices: Seq<DeviceV>,
    pub ports: Seq<PortV>,
    pub ignore_devices: Seq<usize>,
}

impl View for Match {
    type V = MatchV;

    open spec fn view(&self) -> MatchV {
        MatchV {
            on: self.on,
            devices: self.devices@.map_values(|d: UsbDevice| d@),
            ports: self.ports@.map_values(|p: UsbPort| p@),
            ignore_devices: self.ignore_devices@,
        }
    }
}

/// Whether the index list holds the value `i`.
pub open spec fn ign_has(ign: Seq<usize>, i: int) -> bool {
    exists|j: int| 0 <= j < ign.len() && ign[j] as int == i
}

/// `i` is the position of the first record in `devs` that compares
/// equal to `d` under the partial-field rule.
pub open spec fn is_first_dev_match(devs: Seq<DeviceV>, d: DeviceV, i: int) -> bool {
    &&& 0 <= i < devs.len()
    &&& device_matches(devs[i], d)
    &&& forall|j: int| 0 <= j < i ==> !device_matches(devs[j], d)
}

/// `i` is the position of the first record in `ports` that compares
/// equal to `p` under the partial-field rule.
pub open spec fn is_first_port_match(ports: Seq<PortV>, p: PortV, i: int) -> bool {
    &&& 0 <= i < ports.len()
    &&& port_matches(ports[i], p)
    &&& forall|j: int| 0 <= j < i ==> !port_matches(ports[j], p)
}

impl MatchV {
    /// The device is ignored when the first record it compares equal to
    /// sits at a position listed in `ignore_devices`. A device equal to
    /// no listed record is not ignored.
    pub open spec fn device_ignored(self, d: DeviceV) -> bool {
        exists|i: int| is_first_dev_match(self.devices, d, i) && ign_has(self.ignore_devices, i)
    }

    /// The device compares equal to some listed record.
    pub open spec fn exact_match(self, d: DeviceV) -> bool {
        exists|i: int| 0 <= i < self.devices.len() && device_matches(self.devices[i], d)
    }

    /// The rule lists no device constraint at all.
    pub open spec fn match_all(self) -> bool {
        self.devices.len() == 0 && self.ignore_devices.len() == 0
    }

    /// Every listed device is also ignored: the list is a blacklist and
    /// anything not on it matches.
    pub open spec fn match_all_except(self) -> bool {
        self.devices.len() == self.ignore_devices.len()
    }

    /// The device part of the match predicate.
    pub open spec fn matches_device(self, d: DeviceV) -> bool {
        self.match_all() || ((self.match_all_except() || self.exact_match(d))
            && !self.device_ignored(d))
    }

    /// The port part: an empty port list admits every port; otherwise
    /// the event's port must compare equal to some listed port.
    pub open spec fn matches_port(self, p: PortV) -> bool {
        self.ports.len() == 0 || exists|i: int|
            0 <= i < self.ports.len() && port_matches(self.ports[i], p)
    }

    /// The kind part: the clause names the event's kind or the wildcard.
    pub open spec fn matches_kind(self, kind: UsbEvent) -> bool {
        self.on == kind || self.on == UsbEvent::All
    }

    /// The whole predicate: kind, port and device parts all hold.
    pub open spec fn matches_event(self, e: EventV) -> bool {
        self.matches_kind(e.event_kind) && self.matches_port(e.port) && self.matches_device(
            e.device,
        )
    }

    /// The indices in `ignore_devices` name positions in `devices`, each
    /// at most once.
    pub open spec fn wf(self) -> bool {
        &&& self.ignore_devices.no_duplicates()
        &&& forall|j: int|
            0 <= j < self.ignore_devices.len() ==> (#[trigger] self.ignore_devices[j]) < self.devices.len()
    }
}

/// Whether `v` holds the value `x`.
pub(crate) fn contains_usize(v: &Vec<usize>, x: usize) -> (r: bool)
    ensures
        r == ign_has(v@, x as int),
{
    let mut i: usize = 0;
    while i < v.len()
        invariant
            i <= v.len(),
            forall|j: int| 0 <= j < i ==> v@[j] != x,
        decreases v.len() - i,
    {
        if v[i] == x {
            return true;
        }
        i += 1;
    }
    false
}

/// Whether some record in `v` compares equal to `d`.
fn contains_device(v: &Vec<UsbDevice>, d: &UsbDevice) -> (r: bool)
    ensures
        r == exists|i: int| 0 <= i < v@.len() && #[trigger] device_matches(v@[i]@, d@),
{
    let mut i: usize = 0;
    while i < v.len()
        invariant
            i <= v.len(),
            forall|j: int| 0 <= j < i ==> !(#[trigger] device_matches(v@[j]@, d@)),
        decreases v.len() - i,
    {
        if &v[i] == d {
            return true;
        }
        i += 1;
    }
    false
}

/// Whether some record in `v` compares equal to `p`.
fn contains_port(v: &Vec<UsbPort>, p: &UsbPort) -> (r: bool)
    ensures
        r == exists|i: int| 0 <= i < v@.len() && #[trigger] port_matches(v@[i]@, p@),
{
    let mut i: usize = 0;
    while i < v.len()
        invariant
            i <= v.len(),
            forall|j: int| 0 <= j < i ==> !(#[trigger] port_matches(v@[j]@, p@)),
        decreases v.len() - i,
    {
        if &v[i] == p {
            return true;
        }
        i += 1;
    }
    false
}

impl Match {
    /// A clause for the given kind with no device or port constraint.
    pub fn new(event: UsbEvent) -> (r: Self)
        ensures
            r@ == (MatchV {
                on: event,
                devices: Seq::<DeviceV>::empty(),
                ports: Seq::<PortV>::empty(),
                ignore_devices: Seq::<usize>::empty(),
            }),
    {
        let r = Match { on: event, devices: Vec::new(), ports: Vec::new(), ignore_devices: Vec::new() };
        proof {
            assert(r@.devices =~= Seq::<DeviceV>::empty());
            assert(r@.ports =~= Seq::<PortV>::empty());
            assert(r@.ignore_devices =~= Seq::<usize>::empty());
        }
        r
    }

    /// Whether the first listed record equal to `device` sits at an
    /// ignored position.
    pub fn device_ignored(&self, device: &UsbDevice) -> (r: bool)
        ensures
            r == self@.device_ignored(device@),
    {
        let ghost devs = self@.devices;
        let mut i: usize = 0;
        while i < self.devices.len()
            invariant
                i <= self.devices.len(),
                devs == self@.devices,
                devs.len() == self.devices.len(),
                forall|j: int| 0 <= j < i ==> !device_matches(devs[j], device@),
            decreases self.devices.len() - i,
        {
            proof {
                assert(devs[i as int] == self.devices@[i as int]@);
            }
            if &self.devices[i] == device {
                proof {
                    assert(devs[i as int] == self.devices@[i as int]@);
                    assert(is_first_dev_match(devs, device@, i as int));
                    assert forall|k: int| is_first_dev_match(devs, device@, k) implies k == i as int by {
                        if k < i as int {
                            assert(!device_matches(devs[k], device@));
                        } else if k > i as int {
                            assert(!device_matches(devs[i as int], device@));
                        }
                    }
                }
                let ignored = contains_usize(&self.ignore_devices, i);
                proof {
                    if ignored {
                        assert(is_first_dev_match(self@.devices, device@, i as int) && ign_has(
                            self@.ignore_devices,
                            i as int,
                        ));
                    } else if self@.device_ignored(device@) {
                        let k = choose|k: int|
                            is_first_dev_match(self@.devices, device@, k) && ign_has(
                                self@.ignore_devices,
                                k,
                            );
                        assert(k == i as int);
                    }
                }
                return ignored;
            }
            i += 1;
        }
        false
    }

    /// The port part of the predicate: an empty list admits every port.
    pub fn matches_port(&self, port: &UsbPort) -> (r: bool)
        ensures
            r == self@.matches_port(port@),
    {
        let match_all_ports = self.ports.len() == 0;
        let port_match = contains_port(&self.ports, port);
        proof {
            if port_match {
                let w = choose|i: int|
                    0 <= i < self.ports@.len() && #[trigger] port_matches(self.ports@[i]@, port@);
                assert(self@.ports[w] == self.ports@[w]@);
            } else {
                assert forall|i: int|
                    0 <= i < self@.ports.len() implies !port_matches(
                    self@.ports[i],
                    port@,
                ) by {
                    assert(self@.ports[i] == self.ports@[i]@);
                }
            }
        }
        match_all_ports || port_match
    }

    /// The device part of the predicate: see `MatchV::matches_device`.
    pub fn matches_device(&self, device: &UsbDevice) -> (r: bool)
        ensures
            r == self@.matches_device(device@),
    {
        let is_ignored = self.device_ignored(device);
        let exact_match = contains_device(&self.devices, device);
        proof {
            if exact_match {
                let w = choose|i: int|
                    0 <= i < self.devices@.len() && #[trigger] device_matches(
                        self.devices@[i]@,
                        device@,
                    );
                assert(self@.devices[w] == self.devices@[w]@);
            } else {
                assert forall|i: int|
                    0 <= i < self@.devices.len() implies !device_matches(
                    self@.devices[i],
                    device@,
                ) by {
                    assert(self@.devices[i] == self.devices@[i]@);
                }
            }
        }
        let match_all = self.devices.len() == 0 && self.ignore_devices.len() == 0;
        let match_all_except = self.devices.len() == self.ignore_devices.len();
        match_all || ((match_all_except || exact_match) && !is_ignored)
    }

    /// The kind part of the predicate: equality or the wildcard.
    pub fn matches_usb_event(&self, event: &UsbEvent) -> (r: bool)
        ensures
            r == self@.matches_kind(*event),
    {
        self.on == *event || self.on == UsbEvent::All
    }

    /// Whether the event satisfies the whole clause.
    pub fn matches_udev_event(&self, event: &UdevEvent) -> (r: bool)
        ensures
            r == self@.matches_event(event@),
    {
        self.matches_usb_event(&event.event_kind) && self.matches_port(&event.port)
            && self.matches_device(&event.device)
    }
}

/// A clause without device and ignore lists places no device constraint:
/// it matches every device record.
pub proof fn lemma_match_all(m: MatchV, d: DeviceV)
    requires
        m.devices.len() == 0,
        m.ignore_devices.len() == 0,
    ensures
        m.matches_device(d),
{
}

/// Every sequence with a record equal to `d` has a first such record.
proof fn lemma_first_dev_match_exists(devs: Seq<DeviceV>, d: DeviceV)
    requires
        exists|i: int| 0 <= i < devs.len() && device_matches(devs[i], d),
    ensures
        exists|i: int| is_first_dev_match(devs, d, i),
    decreases devs.len(),
{
    if device_matches(devs[0], d) {
        assert(is_first_dev_match(devs, d, 0));
    } else {
        let rest = devs.drop_first();
        let w = choose|i: int| 0 <= i < devs.len() && device_matches(devs[i], d);
        assert(rest[w - 1] == devs[w]);
        lemma_first_dev_match_exists(rest, d);
        let f = choose|i: int| is_first_dev_match(rest, d, i);
        assert forall|j: int| 0 <= j < f + 1 implies !device_matches(devs[j], d) by {
            if j > 0 {
                assert(rest[j - 1] == devs[j]);
            }
        }
        assert(devs[f + 1] == rest[f]);
        assert(is_first_dev_match(devs, d, f + 1));
    }
}

/// When the device and ignore lists have the same non-zero length and
/// the ignore list names each listed position exactly once, the clause
/// is a pure blacklist: a device matches precisely when it compares
/// equal to none of the listed records.
pub proof fn lemma_match_all_except(m: MatchV, d: DeviceV)
    requires
        m.wf(),
        m.devices.len() == m.ignore_devices.len(),
        m.devices.len() > 0,
    ensures
        m.matches_device(d) <==> !m.exact_match(d),
{
    let n = m.devices.len() as int;
    if m.exact_match(d) {
        lemma_first_dev_match_exists(m.devices, d);
        let i = choose|i: int| is_first_dev_match(m.devices, d, i);
        lemma_full_index_list(m.ignore_devices, n);
        assert(ign_has(m.ignore_devices, i));
        assert(m.device_ignored(d));
    } else {
        assert(!m.device_ignored(d));
    }
}

/// A duplicate-free list of `n` indices, each below `n`, names every
/// index below `n`.
proof fn lemma_full_index_list(ign: Seq<usize>, n: int)
    requires
        ign.no_duplicates(),
        ign.len() == n,
        forall|j: int| 0 <= j < ign.len() ==> (#[trigger] ign[j]) < n,
    ensures
        forall|i: int| 0 <= i < n ==> ign_has(ign, i),
{
    broadcast use vstd::set_lib::group_set_lib_default;
    broadcast use vstd::set::group_set_axioms;

    let ints = ign.map_values(|u: usize| u as int);
    assert(ints.no_duplicates()) by {
        ign.lemma_no_duplicates_injective(|u: usize| u as int);
    }
    ints.unique_seq_to_set();
    let s = ints.to_set();
    let range = vstd::set_lib::set_int_range(0, n);
    vstd::set_lib::lemma_int_range(0, n);
    assert(s.subset_of(range)) by {
        assert forall|x: int| s.contains(x) implies range.contains(x) by {
            let j = choose|j: int| 0 <= j < ints.len() && ints[j] == x;
            assert(ign[j] < n);
        }
    }
    vstd::set_lib::lemma_subset_equality(s, range);
    assert forall|i: int| 0 <= i < n implies ign_has(ign, i) by {
        assert(range.contains(i));
        assert(s.contains(i));
        assert(ints.contains(i));
        let j = choose|j: int| 0 <= j < ints.len() && ints[j] == i;
        assert(ign[j] as int == i);
    }
}

} // verus!
