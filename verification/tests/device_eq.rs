//! Partial-field equality of device records.

use usbwatch::usb::UsbDevice;

#[test]
fn device_eq_name_only_but_diff() {
    // More Specific
    let d1 = UsbDevice {
        name: Some("foo".into()),
        id_model: Some("bar".into()),
        id_model_enc: Some("baz".into()),
        id_model_from_database: Some("qux".into()),
        id_model_id: Some("foog".into()),
        id_serial: Some("food".into()),
        id_serial_short: Some("fool".into()),
        id_vendor: Some("foob".into()),
        id_vendor_enc: Some("foof".into()),
        id_vendor_from_database: Some("fooz".into()),
        id_vendor_id: Some("fooq".into()),
        product: Some("foom".into()),
    };

    // Less Specific
    let d2 = UsbDevice { name: Some("foodster".into()), ..Default::default() };

    assert!(d1 != d2);
}

#[test]
fn device_eq() {
    // More Specific
    let d1 = UsbDevice {
        name: Some("foo".into()),
        id_model: Some("bar".into()),
        id_model_enc: Some("baz".into()),
        id_model_from_database: Some("qux".into()),
        id_model_id: Some("foog".into()),
        id_serial: Some("food".into()),
        id_serial_short: Some("fool".into()),
        id_vendor: Some("foob".into()),
        id_vendor_enc: Some("foof".into()),
        id_vendor_from_database: Some("fooz".into()),
        id_vendor_id: Some("fooq".into()),
        product: Some("foom".into()),
    };

    // Less Specific
    let d2 = UsbDevice {
        name: Some("foo".into()),
        id_model_enc: Some("baz".into()),
        id_model_id: Some("foog".into()),
        id_serial: Some("food".into()),
        id_vendor_enc: Some("foof".into()),
        id_vendor_id: Some("fooq".into()),
        ..Default::default()
    };

    assert_eq!(d1, d2);
}

#[test]
fn device_eq_2() {
    // More Specific
    let d1 = UsbDevice {
        name: Some("foo".into()),
        id_model: Some("bar".into()),
        id_model_enc: Some("baz".into()),
        id_model_from_database: Some("qux".into()),
        id_model_id: Some("foog".into()),
        id_serial: Some("food".into()),
        id_serial_short: Some("fool".into()),
        id_vendor: Some("foob".into()),
        id_vendor_enc: Some("foof".into()),
        id_vendor_from_database: Some("fooz".into()),
        id_vendor_id: Some("fooq".into()),
        product: Some("foom".into()),
    };

    // Less Specific
    let d2 = UsbDevice {
        name: Some("foo".into()),
        id_model: Some("bar".into()),
        ..Default::default()
    };

    assert_eq!(d1, d2);
}

#[test]
fn device_eq_rev() {
    // More Specific
    let d1 = UsbDevice {
        name: Some("foo".into()),
        id_model: Some("bar".into()),
        id_model_enc: Some("baz".into()),
        id_model_from_database: Some("qux".into()),
        id_model_id: Some("foog".into()),
        id_serial: Some("food".into()),
        id_serial_short: Some("fool".into()),
        id_vendor: Some("foob".into()),
        id_vendor_enc: Some("foof".into()),
        id_vendor_from_database: Some("fooz".into()),
        id_vendor_id: Some("fooq".into()),
        product: Some("foom".into()),
    };

    // Less Specific
    let d2 = UsbDevice {
        name: Some("foo".into()),
        id_model_enc: Some("baz".into()),
        id_model_id: Some("foog".into()),
        id_serial: Some("food".into()),
        id_vendor_enc: Some("foof".into()),
        id_vendor_id: Some("fooq".into()),
        ..Default::default()
    };

    assert_eq!(d2, d1);
}

#[test]
fn device_eq_2_rev() {
    // More Specific
    let d1 = UsbDevice {
        name: Some("foo".into()),
        id_model: Some("bar".into()),
        id_model_enc: Some("baz".into()),
        id_model_from_database: Some("qux".into()),
        id_model_id: Some("foog".into()),
        id_serial: Some("food".into()),
        id_serial_short: Some("fool".into()),
        id_vendor: Some("foob".into()),
        id_vendor_enc: Some("foof".into()),
        id_vendor_from_database: Some("fooz".into()),
        id_vendor_id: Some("fooq".into()),
        product: Some("foom".into()),
    };

    // Less Specific
    let d2 = UsbDevice {
        name: Some("baa".into()),
        id_serial: Some("food".into()),
        ..Default::default()
    };

    assert_eq!(d2, d1);
}

#[test]
fn device_eq_one_empty() {
    // More Specific
    let d1 = UsbDevice {
        name: Some("foo".into()),
        id_model: Some("bar".into()),
        id_model_enc: Some("baz".into()),
        id_model_from_database: Some("qux".into()),
        id_model_id: Some("foog".into()),
        id_serial: Some("food".into()),
        id_serial_short: Some("fool".into()),
        id_vendor: Some("foob".into()),
        id_vendor_enc: Some("foof".into()),
        id_vendor_from_database: Some("fooz".into()),
        id_vendor_id: Some("fooq".into()),
        product: Some("foom".into()),
    };

    // Less Specific
    let d2 = UsbDevice::default();

    assert!(d1 != d2);
}

#[test]
fn device_eq_one_empty_rev() {
    let d1 = UsbDevice {
        name: Some("foo".into()),
        id_model: Some("bar".into()),
        id_model_enc: Some("baz".into()),
        id_model_from_database: Some("qux".into()),
        id_model_id: Some("foog".into()),
        id_serial: Some("food".into()),
        id_serial_short: Some("fool".into()),
        id_vendor: Some("foob".into()),
        id_vendor_enc: Some("foof".into()),
        id_vendor_from_database: Some("fooz".into()),
        id_vendor_id: Some("fooq".into()),
        product: Some("foom".into()),
    };

    let d2 = UsbDevice::default();

    assert!(d2 != d1);
}

#[test]
fn device_eq_empty() {
    let d1 = UsbDevice::default();
    let d2 = UsbDevice::default();

    assert_eq!(d1, d2);
}

#[test]
fn device_eq_empty_rev() {
    let d1 = UsbDevice::default();
    let d2 = UsbDevice::default();

    assert_eq!(d2, d1);
}

#[test]
fn device_eq_match() {
    let d1 = UsbDevice {
        name: Some("foo".into()),
        id_model: Some("bar".into()),
        id_model_enc: Some("baz".into()),
        id_model_from_database: Some("qux".into()),
        id_model_id: Some("foog".into()),
        id_serial: Some("food".into()),
        id_serial_short: Some("fool".into()),
        id_vendor: Some("foob".into()),
        id_vendor_enc: Some("foof".into()),
        id_vendor_from_database: Some("fooz".into()),
        id_vendor_id: Some("fooq".into()),
        product: Some("foom".into()),
    };

    let d2 = UsbDevice {
        name: Some("foo".into()),
        id_model: Some("bar".into()),
        id_model_enc: Some("baz".into()),
        id_model_from_database: Some("qux".into()),
        id_model_id: Some("foog".into()),
        id_serial: Some("food".into()),
        id_serial_short: Some("fool".into()),
        id_vendor: Some("foob".into()),
        id_vendor_enc: Some("foof".into()),
        id_vendor_from_database: Some("fooz".into()),
        id_vendor_id: Some("fooq".into()),
        product: Some("foom".into()),
    };

    assert_eq!(d1, d2);
}

#[test]
fn device_eq_match_rev() {
    let d1 = UsbDevice {
        name: Some("foo".into()),
        id_model: Some("bar".into()),
        id_model_enc: Some("baz".into()),
        id_model_from_database: Some("qux".into()),
        id_model_id: Some("foog".into()),
        id_serial: Some("food".into()),
        id_serial_short: Some("fool".into()),
        id_vendor: Some("foob".into()),
        id_vendor_enc: Some("foof".into()),
        id_vendor_from_database: Some("fooz".into()),
        id_vendor_id: Some("fooq".into()),
        product: Some("foom".into()),
    };

    let d2 = UsbDevice {
        name: Some("foo".into()),
        id_model: Some("bar".into()),
        id_model_enc: Some("baz".into()),
        id_model_from_database: Some("qux".into()),
        id_model_id: Some("foog".into()),
        id_serial: Some("food".into()),
        id_serial_short: Some("fool".into()),
        id_vendor: Some("foob".into()),
        id_vendor_enc: Some("foof".into()),
        id_vendor_from_database: Some("fooz".into()),
        id_vendor_id: Some("fooq".into()),
        product: Some("foom".into()),
    };

    assert_eq!(d2, d1);
}

#[test]
fn device_eq_reflexive_when_non_empty() {
    let d = UsbDevice {
        name: Some("foo".into()),
        id_vendor_id: Some("0781".into()),
        ..Default::default()
    };
    assert_eq!(d, d);
}

#[test]
fn device_eq_symmetric_on_mixed_pairs() {
    let more = UsbDevice {
        id_vendor_id: Some("0781".into()),
        id_model: Some("bar".into()),
        ..Default::default()
    };
    let less = UsbDevice { id_vendor_id: Some("0781".into()), ..Default::default() };
    let other = UsbDevice { id_vendor_id: Some("9999".into()), ..Default::default() };
    assert_eq!(more == less, less == more);
    assert_eq!(more == other, other == more);
    assert!(more == less);
    assert!(!(more == other));
}
