//! The dispatcher: which commands an event causes, and the state it
//! leaves behind.

use usbwatch::dispatch::handle_event;
use usbwatch::rule::{Match, Rule};
use usbwatch::state::State;
use usbwatch::udev::UdevEvent;
use usbwatch::usb::{UsbDevice, UsbEvent, UsbPort};

fn stick_rule() -> Rule {
    Rule {
        name: "mount".into(),
        match_clause: Match {
            on: UsbEvent::Add,
            devices: vec![UsbDevice {
                name: Some("stick".into()),
                id_vendor_id: Some("0781".into()),
                ..Default::default()
            }],
            ports: Vec::new(),
            ignore_devices: Vec::new(),
        },
        command_shell: "/bin/sh".into(),
        command: "true".into(),
    }
}

fn cruzer_event(kind: UsbEvent) -> UdevEvent {
    UdevEvent {
        event_kind: kind,
        device: UsbDevice {
            id_vendor_id: Some("0781".into()),
            id_model: Some("Cruzer".into()),
            id_serial: Some("xyz".into()),
            ..Default::default()
        },
        port: UsbPort { syspath: Some("/sys/devices/usb1/1-2".into()), ..Default::default() },
    }
}

#[test]
fn single_rule_fires_on_add() {
    let mut state = State::new();
    state.load_rules(vec![stick_rule()]);
    let cmds = handle_event(&mut state, &cruzer_event(UsbEvent::Add));
    assert_eq!(cmds.len(), 1);
    let argv = cmds[0].argv();
    assert_eq!(argv, vec!["/bin/sh".to_string(), "-c".to_string(), "true".to_string()]);
    assert_eq!(state.active_len(), 1);
}

#[test]
fn no_fire_on_wrong_kind() {
    let mut state = State::new();
    state.load_rules(vec![stick_rule()]);
    let cmds = handle_event(&mut state, &cruzer_event(UsbEvent::Remove));
    assert_eq!(cmds.len(), 0);
    assert_eq!(state.active_len(), 0);
}

#[test]
fn match_all_except_fires_only_on_unlisted() {
    fn vendor_rule() -> Rule {
        Rule {
            name: "except".into(),
            match_clause: Match {
                on: UsbEvent::Add,
                devices: vec![
                    UsbDevice { id_vendor_id: Some("1111".into()), ..Default::default() },
                    UsbDevice { id_vendor_id: Some("2222".into()), ..Default::default() },
                ],
                ports: Vec::new(),
                ignore_devices: vec![0, 1],
            },
            command_shell: "/bin/sh".into(),
            command: "true".into(),
        }
    }
    fn add_event(vendor: &str) -> UdevEvent {
        UdevEvent {
            event_kind: UsbEvent::Add,
            device: UsbDevice { id_vendor_id: Some(vendor.into()), ..Default::default() },
            port: UsbPort { syspath: Some(format!("/sys/{}", vendor)), ..Default::default() },
        }
    }
    let mut state = State::new();
    state.load_rules(vec![vendor_rule()]);
    assert_eq!(handle_event(&mut state, &add_event("1111")).len(), 0);
    assert_eq!(handle_event(&mut state, &add_event("2222")).len(), 0);
    assert_eq!(handle_event(&mut state, &add_event("3333")).len(), 1);
}

#[test]
fn port_scoped_rule_fires_only_at_its_port() {
    let rule = Rule {
        name: "ported".into(),
        match_clause: Match {
            on: UsbEvent::Add,
            devices: Vec::new(),
            ports: vec![UsbPort { syspath: Some("/sys/A".into()), ..Default::default() }],
            ignore_devices: Vec::new(),
        },
        command_shell: "/bin/sh".into(),
        command: "true".into(),
    };
    let at = |path: &str| UdevEvent {
        event_kind: UsbEvent::Add,
        device: UsbDevice { id_vendor_id: Some("0781".into()), ..Default::default() },
        port: UsbPort { syspath: Some(path.into()), ..Default::default() },
    };
    let mut state = State::new();
    state.load_rules(vec![rule]);
    assert_eq!(handle_event(&mut state, &at("/sys/A")).len(), 1);
    assert_eq!(handle_event(&mut state, &at("/sys/B")).len(), 0);
}

#[test]
fn reload_replaces_the_rule_set() {
    // A reload tears the pipeline down and rebuilds the state from the
    // swapped-in rule file: the same event then fires once under the
    // old set and twice under the new one.
    let mut before = State::new();
    before.load_rules(vec![stick_rule()]);
    assert_eq!(handle_event(&mut before, &cruzer_event(UsbEvent::Add)).len(), 1);

    let mut second = stick_rule();
    second.name = "log".into();
    second.command = "logger usb".into();
    let mut after = State::new();
    after.load_rules(vec![stick_rule(), second]);
    let cmds = handle_event(&mut after, &cruzer_event(UsbEvent::Add));
    assert_eq!(cmds.len(), 2);
    assert_eq!(cmds[0].command, "true");
    assert_eq!(cmds[1].command, "logger usb");
}

#[test]
fn commands_keep_rule_order() {
    let mut a = stick_rule();
    a.command = "first".into();
    let mut b = stick_rule();
    b.name = "second rule".into();
    b.command = "second".into();
    let mut state = State::new();
    state.load_rules(vec![a, b]);
    let cmds = handle_event(&mut state, &cruzer_event(UsbEvent::Add));
    assert_eq!(cmds.len(), 2);
    assert_eq!(cmds[0].command, "first");
    assert_eq!(cmds[1].command, "second");
}
