//! A normalized hot-plug event: the kind reported by the kernel and the
//! device and port records populated from the kernel device's properties.

use vstd::prelude::*;

use crate::usb::device::DeviceV;
use crate::usb::port::PortV;
use crate::usb::{UsbDevice, UsbEvent, UsbPort};

verus! {

/// One event as seen by the matching engine and the state tracker.
#[derive(Debug)]
pub struct UdevEvent {
    pub event_kind: UsbEvent,
    pub device: UsbDevice,
    pub port: UsbPort,
}

/// The mathematical value of an event.
#[verifier::ext_equal]
pub struct EventV {
    pub event_kind: UsbEvent,
    pub device: DeviceV,
    pub port: PortV,
}

impl View for UdevEvent {
    type V = EventV;

    open spec fn view(&self) -> EventV {
        EventV { event_kind: self.event_kind, device: self.device@, port: self.port@ }
    }
}

impl Clone for UdevEvent {
    fn clone(&self) -> (r: Self)
        ensures
            r@ == self@,
    {
        UdevEvent {
            event_kind: self.event_kind,
            device: self.device.clone(),
            port: self.port.clone(),
        }
    }
}

} // verus!
