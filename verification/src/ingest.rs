//! Normalization and filtering of raw kernel device events.
//!
//! The operating-system side hands the library one `OsDeviceInfo` per
//! kernel device: the sysfs identity of the device plus its property
//! dictionary. Everything the ingest pipeline decides — which events to
//! keep and what records to build from them — is computed here.

use vstd::prelude::*;

use crate::udev::{EventV, UdevEvent};
use crate::usb::device::{ov, DeviceV};
use crate::usb::port::PortV;
use crate::usb::{UsbDevice, UsbEvent, UsbPort};

verus! {

/// What the library reads of one kernel device: sysfs paths and names,
/// the device type, and the property dictionary in order.
#[derive(Debug)]
pub struct OsDeviceInfo {
    pub syspath: String,
    pub devpath: String,
    pub sysname: String,
    pub sysnum: Option<usize>,
    pub devtype: Option<String>,
    pub properties: Vec<(String, String)>,
}

/// The mathematical value of a kernel device description.
#[verifier::ext_equal]
pub struct OsDeviceInfoV {
    pub syspath: Seq<char>,
    pub devpath: Seq<char>,
    pub sysname: Seq<char>,
    pub sysnum: Option<usize>,
    pub devtype: Option<Seq<char>>,
    pub properties: Seq<(Seq<char>, Seq<char>)>,
}

impl View for OsDeviceInfo {
    type V = OsDeviceInfoV;

    open spec fn view(&self) -> OsDeviceInfoV {
        OsDeviceInfoV {
            syspath: self.syspath@,
            devpath: self.devpath@,
            sysname: self.sysname@,
            sysnum: self.sysnum,
            devtype: ov(self.devtype),
            properties: self.properties@.map_values(|kv: (String, String)| (kv.0@, kv.1@)),
        }
    }
}

/// One raw event as the kernel reports it: a kind and the device.
#[derive(Debug)]
pub struct OsEvent {
    pub kind: UsbEvent,
    pub device: OsDeviceInfo,
}

/// The mathematical value of a raw event.
#[verifier::ext_equal]
pub struct OsEventV {
    pub kind: UsbEvent,
    pub device: OsDeviceInfoV,
}

impl View for OsEvent {
    type V = OsEventV;

    open spec fn view(&self) -> OsEventV {
        OsEventV { kind: self.kind, device: self.device@ }
    }
}

/// The value of the first property named `key`, if any.
pub open spec fn prop_lookup(props: Seq<(Seq<char>, Seq<char>)>, key: Seq<char>) -> Option<
    Seq<char>,
>
    decreases props.len(),
{
    if props.len() == 0 {
        None
    } else if props[0].0 == key {
        Some(props[0].1)
    } else {
        prop_lookup(props.drop_first(), key)
    }
}

/// Look up a property by name; the first entry with the name wins.
pub fn property_value(props: &Vec<(String, String)>, key: &str) -> (r: Option<String>)
    ensures
        ov(r) == prop_lookup(
            props@.map_values(|kv: (String, String)| (kv.0@, kv.1@)),
            key@,
        ),
{
    let ghost pv = props@.map_values(|kv: (String, String)| (kv.0@, kv.1@));
    let key_string: String = key.to_owned();
    proof {
        assert(pv.skip(0) =~= pv);
    }
    let mut i: usize = 0;
    while i < props.len()
        invariant
            i <= props.len(),
            pv == props@.map_values(|kv: (String, String)| (kv.0@, kv.1@)),
            pv.len() == props@.len(),
            key_string@ == key@,
            prop_lookup(pv, key@) == prop_lookup(pv.skip(i as int), key@),
        decreases props.len() - i,
    {
        proof {
            assert(pv.skip(i as int)[0] == pv[i as int]);
            assert(pv[i as int] == (props@[i as int].0@, props@[i as int].1@));
            assert(pv.skip(i as int).drop_first() =~= pv.skip((i + 1) as int));
        }
        if props[i].0.eq(&key_string) {
            return Some(props[i].1.clone());
        }
        i += 1;
    }
    proof {
        assert(pv.skip(props@.len() as int) =~= Seq::<(Seq<char>, Seq<char>)>::empty());
    }
    None
}

/// The device record built from a property dictionary: every identity
/// field is the value of its property, the name stays unset.
pub open spec fn device_of_props(props: Seq<(Seq<char>, Seq<char>)>) -> DeviceV {
    DeviceV {
        name: None,
        id_model: prop_lookup(props, "ID_MODEL"@),
        id_model_enc: prop_lookup(props, "ID_MODEL_ENC"@),
        id_model_from_database: prop_lookup(props, "ID_MODEL_FROM_DATABASE"@),
        id_model_id: prop_lookup(props, "ID_MODEL_ID"@),
        id_serial: prop_lookup(props, "ID_SERIAL"@),
        id_serial_short: prop_lookup(props, "ID_SERIAL_SHORT"@),
        id_vendor: prop_lookup(props, "ID_VENDOR"@),
        id_vendor_enc: prop_lookup(props, "ID_VENDOR_ENC"@),
        id_vendor_from_database: prop_lookup(props, "ID_VENDOR_FROM_DATABASE"@),
        id_vendor_id: prop_lookup(props, "ID_VENDOR_ID"@),
        product: prop_lookup(props, "PRODUCT"@),
    }
}

/// Build the device record of a kernel device from its properties.
pub fn device_from_os(info: &OsDeviceInfo) -> (d: UsbDevice)
    ensures
        d@ == device_of_props(info@.properties),
{
    UsbDevice {
        name: None,
        id_model: property_value(&info.properties, "ID_MODEL"),
        id_model_enc: property_value(&info.properties, "ID_MODEL_ENC"),
        id_model_from_database: property_value(&info.properties, "ID_MODEL_FROM_DATABASE"),
        id_model_id: property_value(&info.properties, "ID_MODEL_ID"),
        id_serial: property_value(&info.properties, "ID_SERIAL"),
        id_serial_short: property_value(&info.properties, "ID_SERIAL_SHORT"),
        id_vendor: property_value(&info.properties, "ID_VENDOR"),
        id_vendor_enc: property_value(&info.properties, "ID_VENDOR_ENC"),
        id_vendor_from_database: property_value(&info.properties, "ID_VENDOR_FROM_DATABASE"),
        id_vendor_id: property_value(&info.properties, "ID_VENDOR_ID"),
        product: property_value(&info.properties, "PRODUCT"),
    }
}

/// The port record of a kernel device: the sysfs identity plus the
/// seat and path properties; the name stays unset.
pub open spec fn port_of_info(info: OsDeviceInfoV) -> PortV {
    PortV {
        name: None,
        syspath: Some(info.syspath),
        devpath: Some(info.devpath),
        sysname: Some(info.sysname),
        sysnum: info.sysnum,
        id_for_seat: prop_lookup(info.properties, "ID_FOR_SEAT"@),
        id_path: prop_lookup(info.properties, "ID_PATH"@),
        id_path_tag: prop_lookup(info.properties, "ID_PATH_TAG"@),
    }
}

/// Build the port record of a kernel device.
pub fn port_from_os(info: &OsDeviceInfo) -> (p: UsbPort)
    ensures
        p@ == port_of_info(info@),
{
    UsbPort {
        name: None,
        syspath: Some(info.syspath.clone()),
        devpath: Some(info.devpath.clone()),
        sysname: Some(info.sysname.clone()),
        sysnum: info.sysnum,
        id_for_seat: property_value(&info.properties, "ID_FOR_SEAT"),
        id_path: property_value(&info.properties, "ID_PATH"),
        id_path_tag: property_value(&info.properties, "ID_PATH_TAG"),
    }
}

/// The normalized event a raw event becomes.
pub open spec fn normalize_spec(e: OsEventV) -> EventV {
    EventV {
        event_kind: e.kind,
        device: device_of_props(e.device.properties),
        port: port_of_info(e.device),
    }
}

/// Normalize one raw event into the event the engine consumes.
pub fn normalize_event(e: &OsEvent) -> (r: UdevEvent)
    ensures
        r@ == normalize_spec(e@),
{
    UdevEvent {
        event_kind: e.kind,
        device: device_from_os(&e.device),
        port: port_from_os(&e.device),
    }
}

/// The ingest filter: only `Add` and `Remove` events pass, and only for
/// devices that are not a `usb_interface` sub-interface of a composite
/// device.
pub open spec fn keep_event_spec(e: OsEventV) -> bool {
    (e.kind == UsbEvent::Add || e.kind == UsbEvent::Remove) && e.device.devtype != Some(
        "usb_interface"@,
    )
}

/// Whether the ingest filter keeps a raw event.
pub fn keep_event(e: &OsEvent) -> (r: bool)
    ensures
        r == keep_event_spec(e@),
{
    let kind_ok = match e.kind {
        UsbEvent::Add => true,
        UsbEvent::Remove => true,
        _ => false,
    };
    if !kind_ok {
        return false;
    }
    match &e.device.devtype {
        Some(t) => {
            let marker: String = "usb_interface".to_owned();
            !t.eq(&marker)
        },
        None => true,
    }
}

/// What a subscriber observes of a raw event trace: the kept events,
/// normalized, in their original order.
pub open spec fn ingest_spec(evs: Seq<OsEventV>) -> Seq<EventV>
    decreases evs.len(),
{
    if evs.len() == 0 {
        Seq::empty()
    } else {
        let rest = ingest_spec(evs.drop_last());
        if keep_event_spec(evs.last()) {
            rest.push(normalize_spec(evs.last()))
        } else {
            rest
        }
    }
}

/// Filter and normalize a trace of raw events, preserving order.
pub fn filter_events(events: &Vec<OsEvent>) -> (r: Vec<UdevEvent>)
    ensures
        r@.map_values(|u: UdevEvent| u@) == ingest_spec(events@.map_values(|e: OsEvent| e@)),
{
    let ghost ev = events@.map_values(|e: OsEvent| e@);
    let mut out: Vec<UdevEvent> = Vec::new();
    proof {
        assert(out@.map_values(|u: UdevEvent| u@) =~= ingest_spec(ev.take(0)));
    }
    let mut i: usize = 0;
    while i < events.len()
        invariant
            i <= events.len(),
            ev == events@.map_values(|e: OsEvent| e@),
            ev.len() == events@.len(),
            out@.map_values(|u: UdevEvent| u@) == ingest_spec(ev.take(i as int)),
        decreases events.len() - i,
    {
        let ghost prev = out@.map_values(|u: UdevEvent| u@);
        proof {
            assert(ev[i as int] == events@[i as int]@);
        }
        let kept = keep_event(&events[i]);
        if kept {
            out.push(normalize_event(&events[i]));
        }
        proof {
            assert(ev.take((i + 1) as int).drop_last() =~= ev.take(i as int));
            assert(ev.take((i + 1) as int).last() == ev[i as int]);
            if kept {
                assert(out@.map_values(|u: UdevEvent| u@) =~= prev.push(
                    normalize_spec(ev[i as int]),
                ));
            }
        }
        i += 1;
    }
    proof {
        assert(ev.take(events@.len() as int) =~= ev);
    }
    out
}

/// What a scan collects: for each enumerated device that is not a
/// `usb_interface`, its non-empty device record and its non-empty port
/// record, in enumeration order.
pub open spec fn scan_devices_spec(infos: Seq<OsDeviceInfoV>) -> Seq<DeviceV>
    decreases infos.len(),
{
    if infos.len() == 0 {
        Seq::empty()
    } else {
        let rest = scan_devices_spec(infos.drop_last());
        let last = infos.last();
        if last.devtype != Some("usb_interface"@) && !device_of_props(last.properties).is_empty() {
            rest.push(device_of_props(last.properties))
        } else {
            rest
        }
    }
}

/// The ports a scan collects; see `scan_devices_spec`.
pub open spec fn scan_ports_spec(infos: Seq<OsDeviceInfoV>) -> Seq<PortV>
    decreases infos.len(),
{
    if infos.len() == 0 {
        Seq::empty()
    } else {
        let rest = scan_ports_spec(infos.drop_last());
        let last = infos.last();
        if last.devtype != Some("usb_interface"@) && !port_of_info(last).is_empty() {
            rest.push(port_of_info(last))
        } else {
            rest
        }
    }
}

/// Collect the device and port records of an enumeration of currently
/// attached devices, dropping sub-interfaces and empty records.
pub fn scan_collect(infos: &Vec<OsDeviceInfo>) -> (r: (Vec<UsbDevice>, Vec<UsbPort>))
    ensures
        r.0@.map_values(|d: UsbDevice| d@) == scan_devices_spec(
            infos@.map_values(|x: OsDeviceInfo| x@),
        ),
        r.1@.map_values(|p: UsbPort| p@) == scan_ports_spec(
            infos@.map_values(|x: OsDeviceInfo| x@),
        ),
{
    let ghost iv = infos@.map_values(|x: OsDeviceInfo| x@);
    let mut devices: Vec<UsbDevice> = Vec::new();
    let mut ports: Vec<UsbPort> = Vec::new();
    proof {
        assert(devices@.map_values(|d: UsbDevice| d@) =~= scan_devices_spec(iv.take(0)));
        assert(ports@.map_values(|p: UsbPort| p@) =~= scan_ports_spec(iv.take(0)));
    }
    let mut i: usize = 0;
    while i < infos.len()
        invariant
            i <= infos.len(),
            iv == infos@.map_values(|x: OsDeviceInfo| x@),
            iv.len() == infos@.len(),
            devices@.map_values(|d: UsbDevice| d@) == scan_devices_spec(iv.take(i as int)),
            ports@.map_values(|p: UsbPort| p@) == scan_ports_spec(iv.take(i as int)),
        decreases infos.len() - i,
    {
        let ghost prev_d = devices@.map_values(|d: UsbDevice| d@);
        let ghost prev_p = ports@.map_values(|p: UsbPort| p@);
        proof {
            assert(iv[i as int] == infos@[i as int]@);
        }
        let not_interface = match &infos[i].devtype {
            Some(t) => {
                let marker: String = "usb_interface".to_owned();
                !t.eq(&marker)
            },
            None => true,
        };
        if not_interface {
            let dev = device_from_os(&infos[i]);
            let port = port_from_os(&infos[i]);
            if !dev.is_empty() {
                devices.push(dev);
            }
            if !port.is_empty() {
                ports.push(port);
            }
        }
        proof {
            assert(iv.take((i + 1) as int).drop_last() =~= iv.take(i as int));
            assert(iv.take((i + 1) as int).last() == iv[i as int]);
            if not_interface && !device_of_props(iv[i as int].properties).is_empty() {
                assert(devices@.map_values(|d: UsbDevice| d@) =~= prev_d.push(
                    device_of_props(iv[i as int].properties),
                ));
            }
            if not_interface && !port_of_info(iv[i as int]).is_empty() {
                assert(ports@.map_values(|p: UsbPort| p@) =~= prev_p.push(
                    port_of_info(iv[i as int]),
                ));
            }
        }
        i += 1;
    }
    proof {
        assert(iv.take(infos@.len() as int) =~= iv);
    }
    (devices, ports)
}

} // verus!
