//! Partial-field equality of port records.

use usbwatch::usb::UsbPort;

#[test]
fn port_eq_name_only_but_diff() {
    // More Specific
    let p1 = UsbPort {
        name: Some("baa".into()),
        syspath: Some("foo".into()),
        devpath: Some("bar".into()),
        sysname: Some("baz".into()),
        sysnum: Some(5),
        id_for_seat: Some("foog".into()),
        id_path: Some("fool".into()),
        id_path_tag: Some("foop".into()),
    };

    // Less Specific
    let p2 = UsbPort { name: Some("baagle".into()), ..Default::default() };

    assert!(p1 != p2);
}

#[test]
fn port_eq() {
    // More Specific
    let p1 = UsbPort {
        name: Some("baa".into()),
        syspath: Some("foo".into()),
        devpath: Some("bar".into()),
        sysname: Some("baz".into()),
        sysnum: Some(5),
        id_for_seat: Some("foog".into()),
        id_path: Some("fool".into()),
        id_path_tag: Some("foop".into()),
    };

    // Less Specific
    let p2 = UsbPort {
        name: Some("baa".into()),
        syspath: Some("foo".into()),
        sysname: Some("baz".into()),
        id_for_seat: Some("foog".into()),
        id_path_tag: Some("foop".into()),
        ..Default::default()
    };

    assert_eq!(p1, p2);
}

#[test]
fn port_eq_2() {
    // More Specific
    let p1 = UsbPort {
        name: Some("baa".into()),
        syspath: Some("foo".into()),
        devpath: Some("bar".into()),
        sysname: Some("baz".into()),
        sysnum: Some(5),
        id_for_seat: Some("foog".into()),
        id_path: Some("fool".into()),
        id_path_tag: Some("foop".into()),
    };

    // Less Specific
    let p2 = UsbPort {
        name: Some("baa".into()),
        syspath: Some("foo".into()), // name is ignored
        ..Default::default()
    };

    assert_eq!(p1, p2);
}

#[test]
fn port_eq_rev() {
    // More Specific
    let p1 = UsbPort {
        name: Some("baa".into()),
        syspath: Some("foo".into()),
        devpath: Some("bar".into()),
        sysname: Some("baz".into()),
        sysnum: Some(5),
        id_for_seat: Some("foog".into()),
        id_path: Some("fool".into()),
        id_path_tag: Some("foop".into()),
    };

    // Less Specific
    let p2 = UsbPort {
        name: Some("baa".into()),
        syspath: Some("foo".into()),
        sysname: Some("baz".into()),
        id_for_seat: Some("foog".into()),
        id_path_tag: Some("foop".into()),
        ..Default::default()
    };

    assert_eq!(p2, p1);
}

#[test]
fn port_eq_2_rev() {
    // More Specific
    let p1 = UsbPort {
        name: Some("baa".into()),
        syspath: Some("foo".into()),
        devpath: Some("bar".into()),
        sysname: Some("baz".into()),
        sysnum: Some(5),
        id_for_seat: Some("foog".into()),
        id_path: Some("fool".into()),
        id_path_tag: Some("foop".into()),
    };

    // Less Specific
    let p2 = UsbPort {
        name: Some("baa".into()),
        id_path: Some("fool".into()),
        ..Default::default()
    };

    assert_eq!(p2, p1);
}

#[test]
fn port_eq_one_empty() {
    // More Specific
    let p1 = UsbPort {
        name: Some("baa".into()),
        syspath: Some("foo".into()),
        devpath: Some("bar".into()),
        sysname: Some("baz".into()),
        sysnum: Some(5),
        id_for_seat: Some("foog".into()),
        id_path: Some("fool".into()),
        id_path_tag: Some("foop".into()),
    };

    // Less Specific
    let p2 = UsbPort::default();

    assert!(p1 != p2);
}

#[test]
fn port_eq_one_empty_rev() {
    let p1 = UsbPort {
        name: Some("baa".into()),
        syspath: Some("foo".into()),
        devpath: Some("bar".into()),
        sysname: Some("baz".into()),
        sysnum: Some(5),
        id_for_seat: Some("foog".into()),
        id_path: Some("fool".into()),
        id_path_tag: Some("foop".into()),
    };

    let p2 = UsbPort::default();

    assert!(p2 != p1);
}

#[test]
fn port_eq_empty() {
    let p1 = UsbPort::default();
    let p2 = UsbPort::default();

    assert_eq!(p1, p2);
}

#[test]
fn port_eq_empty_rev() {
    let p1 = UsbPort::default();
    let p2 = UsbPort::default();

    assert_eq!(p2, p1);
}

#[test]
fn port_eq_match() {
    let p1 = UsbPort {
        name: Some("baa".into()),
        syspath: Some("foo".into()),
        devpath: Some("bar".into()),
        sysname: Some("baz".into()),
        sysnum: Some(5),
        id_for_seat: Some("foog".into()),
        id_path: Some("fool".into()),
        id_path_tag: Some("foop".into()),
    };

    let p2 = UsbPort {
        name: Some("baa".into()),
        syspath: Some("foo".into()),
        devpath: Some("bar".into()),
        sysname: Some("baz".into()),
        sysnum: Some(5),
        id_for_seat: Some("foog".into()),
        id_path: Some("fool".into()),
        id_path_tag: Some("foop".into()),
    };

    assert_eq!(p1, p2);
}

#[test]
fn port_eq_match_rev() {
    let p1 = UsbPort {
        name: Some("baa".into()),
        syspath: Some("foo".into()),
        devpath: Some("bar".into()),
        sysname: Some("baz".into()),
        sysnum: Some(5),
        id_for_seat: Some("foog".into()),
        id_path: Some("fool".into()),
        id_path_tag: Some("foop".into()),
    };

    let p2 = UsbPort {
        name: Some("baa".into()),
        syspath: Some("foo".into()),
        devpath: Some("bar".into()),
        sysname: Some("baz".into()),
        sysnum: Some(5),
        id_for_seat: Some("foog".into()),
        id_path: Some("fool".into()),
        id_path_tag: Some("foop".into()),
    };

    assert_eq!(p2, p1);
}
