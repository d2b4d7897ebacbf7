//! The matching engine: match-all, match-all-except, port scoping and
//! the first-match tie-break.

use usbwatch::rule::Match;
use usbwatch::udev::UdevEvent;
use usbwatch::usb::{UsbDevice, UsbEvent, UsbPort};

fn vendor(id: &str) -> UsbDevice {
    UsbDevice { id_vendor_id: Some(id.into()), ..Default::default() }
}

#[test]
fn match_all_accepts_every_device() {
    let m = Match::new(UsbEvent::Add);
    assert!(m.matches_device(&vendor("0781")));
    assert!(m.matches_device(&UsbDevice::default()));
    assert!(m.matches_port(&UsbPort { syspath: Some("/sys/A".into()), ..Default::default() }));
}

#[test]
fn match_all_except_is_a_blacklist() {
    let m = Match {
        on: UsbEvent::Add,
        devices: vec![vendor("1111"), vendor("2222")],
        ports: Vec::new(),
        ignore_devices: vec![0, 1],
    };
    assert!(!m.matches_device(&vendor("1111")));
    assert!(!m.matches_device(&vendor("2222")));
    assert!(m.matches_device(&vendor("3333")));
}

#[test]
fn exact_match_includes_only_listed_devices() {
    let m = Match {
        on: UsbEvent::Add,
        devices: vec![vendor("1111")],
        ports: Vec::new(),
        ignore_devices: Vec::new(),
    };
    assert!(m.matches_device(&vendor("1111")));
    assert!(!m.matches_device(&vendor("9999")));
}

#[test]
fn first_listed_match_decides_the_ignore() {
    // The probe compares equal to both listed records, but the first
    // equal record sits at an ignored position, so the device is
    // ignored even though the second record would admit it.
    let listed_vendor = vendor("1");
    let listed_model = UsbDevice { id_model: Some("m".into()), ..Default::default() };
    let probe = UsbDevice {
        id_vendor_id: Some("1".into()),
        id_model: Some("m".into()),
        ..Default::default()
    };
    let m = Match {
        on: UsbEvent::Add,
        devices: vec![listed_vendor, listed_model],
        ports: Vec::new(),
        ignore_devices: vec![0],
    };
    assert!(m.device_ignored(&probe));
    assert!(!m.matches_device(&probe));
}

#[test]
fn port_scoped_clause() {
    let m = Match {
        on: UsbEvent::Add,
        devices: Vec::new(),
        ports: vec![UsbPort { syspath: Some("/sys/A".into()), ..Default::default() }],
        ignore_devices: Vec::new(),
    };
    let at_a = UdevEvent {
        event_kind: UsbEvent::Add,
        device: vendor("0781"),
        port: UsbPort { syspath: Some("/sys/A".into()), ..Default::default() },
    };
    let at_b = UdevEvent {
        event_kind: UsbEvent::Add,
        device: vendor("0781"),
        port: UsbPort { syspath: Some("/sys/B".into()), ..Default::default() },
    };
    assert!(m.matches_udev_event(&at_a));
    assert!(!m.matches_udev_event(&at_b));
}

#[test]
fn kind_wildcard_matches_every_kind() {
    let any = Match::new(UsbEvent::All);
    assert!(any.matches_usb_event(&UsbEvent::Add));
    assert!(any.matches_usb_event(&UsbEvent::Remove));
    let only_add = Match::new(UsbEvent::Add);
    assert!(only_add.matches_usb_event(&UsbEvent::Add));
    assert!(!only_add.matches_usb_event(&UsbEvent::Remove));
}
