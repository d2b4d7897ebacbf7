//! The attachment state: slots, reverse slots and the active list.

use usbwatch::state::State;
use usbwatch::usb::{UsbDevice, UsbPort};

fn dev(serial: &str) -> UsbDevice {
    UsbDevice { id_serial: Some(serial.into()), ..Default::default() }
}

fn port(path: &str) -> UsbPort {
    UsbPort { syspath: Some(path.into()), ..Default::default() }
}

#[test]
fn new_state_is_empty() {
    let s = State::new();
    assert_eq!(s.ports_len(), 0);
    assert_eq!(s.devices_len(), 0);
    assert_eq!(s.active_len(), 0);
}

#[test]
fn added_port_gets_its_own_empty_slot() {
    let mut s = State::new();
    s.add_port(port("/sys/A"));
    assert_eq!(s.ports_len(), 1);
    // The slot of the just-added port sits at the port's own index.
    assert_eq!(s.slot_of(0), None);
}

#[test]
fn equal_port_is_added_once() {
    let mut s = State::new();
    s.add_port(port("/sys/A"));
    s.add_port(port("/sys/A"));
    s.add_port(port("/sys/B"));
    assert_eq!(s.ports_len(), 2);
}

#[test]
fn equal_device_is_added_once() {
    let mut s = State::new();
    s.add_device(dev("one"));
    s.add_device(dev("one"));
    s.add_device(dev("two"));
    assert_eq!(s.devices_len(), 2);
}

#[test]
fn slotting_binds_port_and_device_both_ways() {
    let mut s = State::new();
    s.add_and_slot_device(dev("one"), port("/sys/A"));
    assert_eq!(s.ports_len(), 1);
    assert_eq!(s.devices_len(), 1);
    assert_eq!(s.active_len(), 1);
    assert_eq!(s.slot_of(0), Some(0));
    assert_eq!(s.rev_slot_of(0), Some(0));
}

#[test]
fn removing_unslots_and_deactivates() {
    let mut s = State::new();
    s.add_and_slot_device(dev("one"), port("/sys/A"));
    s.rm_and_unslot_device(dev("one"));
    assert_eq!(s.active_len(), 0);
    assert_eq!(s.slot_of(0), None);
    assert_eq!(s.rev_slot_of(0), None);
    // The records themselves stay; indices are never reused.
    assert_eq!(s.ports_len(), 1);
    assert_eq!(s.devices_len(), 1);
    // Removing again is a no-op.
    s.rm_and_unslot_device(dev("one"));
    assert_eq!(s.active_len(), 0);
}

#[test]
fn removing_unknown_device_is_noop() {
    let mut s = State::new();
    s.add_and_slot_device(dev("one"), port("/sys/A"));
    s.rm_and_unslot_device(dev("other"));
    assert_eq!(s.active_len(), 1);
    assert_eq!(s.slot_of(0), Some(0));
}

#[test]
fn second_device_on_same_port_evicts_the_first() {
    let mut s = State::new();
    s.add_and_slot_device(dev("one"), port("/sys/A"));
    s.add_and_slot_device(dev("two"), port("/sys/A"));
    assert_eq!(s.devices_len(), 2);
    assert_eq!(s.active_len(), 1);
    assert_eq!(s.slot_of(0), Some(1));
    assert_eq!(s.rev_slot_of(0), None);
    assert_eq!(s.rev_slot_of(1), Some(0));
}

#[test]
fn slot_maps_stay_inverse_over_a_sequence_of_operations() {
    let mut s = State::new();
    s.add_and_slot_device(dev("one"), port("/sys/A"));
    s.add_and_slot_device(dev("two"), port("/sys/B"));
    s.add_and_slot_device(dev("three"), port("/sys/C"));
    s.rm_and_unslot_device(dev("two"));
    s.add_and_slot_device(dev("four"), port("/sys/B"));
    s.rm_and_unslot_device(dev("one"));

    let mut active_seen = 0;
    for p in 0..s.ports_len() {
        if let Some(d) = s.slot_of(p) {
            assert_eq!(s.rev_slot_of(d), Some(p));
            active_seen += 1;
        }
    }
    for d in 0..s.devices_len() {
        if let Some(p) = s.rev_slot_of(d) {
            assert_eq!(s.slot_of(p), Some(d));
        }
    }
    assert_eq!(s.active_len(), active_seen);
    assert_eq!(active_seen, 2);
}
