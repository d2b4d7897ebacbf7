//! The ingest pipeline: filtering, normalization, scanning and the
//! listener's per-item decision.

use usbwatch::ingest::{
    filter_events, keep_event, normalize_event, property_value, scan_collect, OsDeviceInfo,
    OsEvent,
};
use usbwatch::shutdown::{listener_step, ListenerAction, Shutdown, SourceItem};
use usbwatch::usb::{parse_usb_event, UsbEvent};

fn device_info(vendor: &str, devtype: Option<&str>) -> OsDeviceInfo {
    OsDeviceInfo {
        syspath: format!("/sys/devices/{}", vendor),
        devpath: format!("/devices/{}", vendor),
        sysname: vendor.to_string(),
        sysnum: Some(2),
        devtype: devtype.map(|t| t.to_string()),
        properties: vec![
            ("ID_VENDOR_ID".to_string(), vendor.to_string()),
            ("ID_MODEL".to_string(), "Widget".to_string()),
        ],
    }
}

#[test]
fn filtered_ingest_keeps_add_and_remove_only() {
    let events = vec![
        OsEvent { kind: UsbEvent::Add, device: device_info("aaaa", None) },
        OsEvent { kind: UsbEvent::Change, device: device_info("bbbb", None) },
        OsEvent { kind: UsbEvent::Add, device: device_info("cccc", Some("usb_interface")) },
        OsEvent { kind: UsbEvent::Remove, device: device_info("dddd", None) },
        OsEvent { kind: UsbEvent::Bind, device: device_info("eeee", None) },
    ];
    let seen = filter_events(&events);
    assert_eq!(seen.len(), 2);
    assert_eq!(seen[0].event_kind, UsbEvent::Add);
    assert_eq!(seen[0].device.id_vendor_id, Some("aaaa".to_string()));
    assert_eq!(seen[1].event_kind, UsbEvent::Remove);
    assert_eq!(seen[1].device.id_vendor_id, Some("dddd".to_string()));
}

#[test]
fn keep_event_drops_sub_interfaces() {
    assert!(keep_event(&OsEvent { kind: UsbEvent::Add, device: device_info("aaaa", None) }));
    assert!(!keep_event(&OsEvent {
        kind: UsbEvent::Add,
        device: device_info("aaaa", Some("usb_interface")),
    }));
    assert!(keep_event(&OsEvent {
        kind: UsbEvent::Remove,
        device: device_info("aaaa", Some("usb_device")),
    }));
    assert!(!keep_event(&OsEvent { kind: UsbEvent::Change, device: device_info("aaaa", None) }));
}

#[test]
fn property_lookup_first_match_wins() {
    let props = vec![
        ("K".to_string(), "one".to_string()),
        ("K".to_string(), "two".to_string()),
        ("L".to_string(), "ell".to_string()),
    ];
    assert_eq!(property_value(&props, "K"), Some("one".to_string()));
    assert_eq!(property_value(&props, "L"), Some("ell".to_string()));
    assert_eq!(property_value(&props, "M"), None);
}

#[test]
fn normalize_fills_device_and_port() {
    let raw = OsEvent { kind: UsbEvent::Add, device: device_info("0781", None) };
    let ev = normalize_event(&raw);
    assert_eq!(ev.event_kind, UsbEvent::Add);
    assert_eq!(ev.device.id_vendor_id, Some("0781".to_string()));
    assert_eq!(ev.device.id_model, Some("Widget".to_string()));
    assert_eq!(ev.device.name, None);
    assert_eq!(ev.port.syspath, Some("/sys/devices/0781".to_string()));
    assert_eq!(ev.port.sysnum, Some(2));
}

#[test]
fn scan_skips_interfaces_and_empty_devices() {
    let bare = OsDeviceInfo {
        syspath: "/sys/devices/hub".to_string(),
        devpath: "/devices/hub".to_string(),
        sysname: "hub".to_string(),
        sysnum: None,
        devtype: None,
        properties: Vec::new(),
    };
    let infos = vec![
        device_info("0781", None),
        device_info("ffff", Some("usb_interface")),
        bare,
    ];
    let (devices, ports) = scan_collect(&infos);
    // The bare entry has no identity properties, so only one device
    // record survives; its port and the bare entry's port both carry a
    // syspath and are kept.
    assert_eq!(devices.len(), 1);
    assert_eq!(devices[0].id_vendor_id, Some("0781".to_string()));
    assert_eq!(ports.len(), 2);
}

#[test]
fn event_kinds_parse_case_insensitively() {
    assert_eq!(parse_usb_event("add"), Some(UsbEvent::Add));
    assert_eq!(parse_usb_event("ADD"), Some(UsbEvent::Add));
    assert_eq!(parse_usb_event("Remove"), Some(UsbEvent::Remove));
    assert_eq!(parse_usb_event("bind"), Some(UsbEvent::Bind));
    assert_eq!(parse_usb_event("unbind"), Some(UsbEvent::Unbind));
    assert_eq!(parse_usb_event("chAnGe"), Some(UsbEvent::Change));
    assert_eq!(parse_usb_event("unknown"), Some(UsbEvent::Unknown));
    assert_eq!(parse_usb_event("all"), Some(UsbEvent::All));
    assert_eq!(parse_usb_event("bogus"), None);
    assert_eq!(parse_usb_event(""), None);
}

#[test]
fn event_labels_round_trip() {
    for kind in [
        UsbEvent::Add,
        UsbEvent::Bind,
        UsbEvent::Unbind,
        UsbEvent::Remove,
        UsbEvent::Change,
        UsbEvent::Unknown,
        UsbEvent::All,
    ] {
        assert_eq!(parse_usb_event(kind.label()), Some(kind));
    }
}

#[test]
fn listener_exits_once_shutdown_fires() {
    let mut sd = Shutdown::new();
    assert!(!sd.is_shutdown());
    sd.note_fired();
    assert!(sd.is_shutdown());
    let item = SourceItem::Event(OsEvent { kind: UsbEvent::Add, device: device_info("aaaa", None) });
    assert!(matches!(listener_step(&sd, item), ListenerAction::Exit));
}

#[test]
fn listener_forwards_kept_events() {
    let sd = Shutdown::new();
    let kept = SourceItem::Event(OsEvent { kind: UsbEvent::Add, device: device_info("aaaa", None) });
    match listener_step(&sd, kept) {
        ListenerAction::Forward(ev) => {
            assert_eq!(ev.device.id_vendor_id, Some("aaaa".to_string()));
        }
        other => panic!("expected a forwarded event, got {:?}", other),
    }
    let filtered = SourceItem::Event(OsEvent {
        kind: UsbEvent::Add,
        device: device_info("aaaa", Some("usb_interface")),
    });
    assert!(matches!(listener_step(&sd, filtered), ListenerAction::Skip));
    assert!(matches!(listener_step(&sd, SourceItem::SourceError), ListenerAction::Skip));
    assert!(matches!(listener_step(&sd, SourceItem::Closed), ListenerAction::Fail));
}
