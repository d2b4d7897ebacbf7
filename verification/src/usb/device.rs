//! Device records: optionally-named descriptors of a USB peripheral with
//! eleven optional identity fields, compared under a partial-field rule.

use vstd::prelude::*;

verus! {

/// A device list as read from or written to a device file.
#[derive(Debug)]
pub struct UsbDevices {
    pub devices: Vec<UsbDevice>,
}

/// A USB device descriptor. Every field is optional; `name` is a label
/// only and never takes part in comparison or emptiness.
#[derive(Debug)]
pub struct UsbDevice {
    pub name: Option<String>,
    pub id_model: Option<String>,
    pub id_model_enc: Option<String>,
    pub id_model_from_database: Option<String>,
    pub id_model_id: Option<String>,
    pub id_serial: Option<String>,
    pub id_serial_short: Option<String>,
    pub id_vendor: Option<String>,
    pub id_vendor_enc: Option<String>,
    pub id_vendor_from_database: Option<String>,
    pub id_vendor_id: Option<String>,
    pub product: Option<String>,
}

/// The mathematical value of a device record: each field as an optional
/// character sequence.
#[verifier::ext_equal]
pub struct DeviceV {
    pub name: Option<Seq<char>>,
    pub id_model: Option<Seq<char>>,
    pub id_model_enc: Option<Seq<char>>,
    pub id_model_from_database: Option<Seq<char>>,
    pub id_model_id: Option<Seq<char>>,
    pub id_serial: Option<Seq<char>>,
    pub id_serial_short: Option<Seq<char>>,
    pub id_vendor: Option<Seq<char>>,
    pub id_vendor_enc: Option<Seq<char>>,
    pub id_vendor_from_database: Option<Seq<char>>,
    pub id_vendor_id: Option<Seq<char>>,
    pub product: Option<Seq<char>>,
}

/// The view of an optional string.
pub open spec fn ov(o: Option<String>) -> Option<Seq<char>> {
    match o {
        Some(s) => Some(s@),
        None => None,
    }
}

impl View for UsbDevice {
    type V = DeviceV;

    open spec fn view(&self) -> DeviceV {
        DeviceV {
            name: ov(self.name),
            id_model: ov(self.id_model),
            id_model_enc: ov(self.id_model_enc),
            id_model_from_database: ov(self.id_model_from_database),
            id_model_id: ov(self.id_model_id),
            id_serial: ov(self.id_serial),
            id_serial_short: ov(self.id_serial_short),
            id_vendor: ov(self.id_vendor),
            id_vendor_enc: ov(self.id_vendor_enc),
            id_vendor_from_database: ov(self.id_vendor_from_database),
            id_vendor_id: ov(self.id_vendor_id),
            product: ov(self.product),
        }
    }
}

impl DeviceV {
    /// A record with no field set, not even the name.
    pub open spec fn unset() -> DeviceV {
        DeviceV {
            name: None,
            id_model: None,
            id_model_enc: None,
            id_model_from_database: None,
            id_model_id: None,
            id_serial: None,
            id_serial_short: None,
            id_vendor: None,
            id_vendor_enc: None,
            id_vendor_from_database: None,
            id_vendor_id: None,
            product: None,
        }
    }

    /// A record is empty when all eleven identity fields are unset;
    /// the name does not participate.
    pub open spec fn is_empty(self) -> bool {
        &&& self.id_model is None
        &&& self.id_model_enc is None
        &&& self.id_model_from_database is None
        &&& self.id_model_id is None
        &&& self.id_vendor is None
        &&& self.id_vendor_enc is None
        &&& self.id_vendor_from_database is None
        &&& self.id_vendor_id is None
        &&& self.id_serial is None
        &&& self.id_serial_short is None
        &&& self.product is None
    }
}

/// One field of the partial comparison: a field is compared only when
/// both sides carry a value; an unset side skips the field.
pub open spec fn field_matches(a: Option<Seq<char>>, b: Option<Seq<char>>) -> bool {
    match (a, b) {
        (Some(x), Some(y)) => x == y,
        _ => true,
    }
}

/// Partial-field equality of two device records. Two empty records are
/// equal; an empty record never equals a non-empty one; otherwise every
/// identity field set on both sides must agree, and the name is ignored.
pub open spec fn device_matches(a: DeviceV, b: DeviceV) -> bool {
    if a.is_empty() && b.is_empty() {
        true
    } else if a.is_empty() || b.is_empty() {
        false
    } else {
        &&& field_matches(a.id_model, b.id_model)
        &&& field_matches(a.id_model_enc, b.id_model_enc)
        &&& field_matches(a.id_model_from_database, b.id_model_from_database)
        &&& field_matches(a.id_model_id, b.id_model_id)
        &&& field_matches(a.id_vendor, b.id_vendor)
        &&& field_matches(a.id_vendor_enc, b.id_vendor_enc)
        &&& field_matches(a.id_vendor_from_database, b.id_vendor_from_database)
        &&& field_matches(a.id_vendor_id, b.id_vendor_id)
        &&& field_matches(a.id_serial, b.id_serial)
        &&& field_matches(a.id_serial_short, b.id_serial_short)
        &&& field_matches(a.product, b.product)
    }
}

/// Partial-field equality is reflexive on records that are not empty.
pub proof fn lemma_device_matches_reflexive(d: DeviceV)
    requires
        !d.is_empty(),
    ensures
        device_matches(d, d),
{
}

/// Partial-field equality is symmetric: both the empty-one-side rule
/// and the field-wise rule read the same in either order.
pub proof fn lemma_device_matches_symmetric(a: DeviceV, b: DeviceV)
    ensures
        device_matches(a, b) == device_matches(b, a),
{
}

/// The fully unset record equals itself and never equals a non-empty
/// record.
pub proof fn lemma_device_empty_cases(d: DeviceV)
    ensures
        device_matches(DeviceV::unset(), DeviceV::unset()),
        !d.is_empty() ==> !device_matches(DeviceV::unset(), d),
        !d.is_empty() ==> !device_matches(d, DeviceV::unset()),
{
}

fn opt_clone(o: &Option<String>) -> (r: Option<String>)
    ensures
        ov(r) == ov(*o),
{
    match o {
        Some(s) => Some(s.clone()),
        None => None,
    }
}

/// True when both sides carry the field and the values differ, which is
/// the only way a single field can refute the comparison.
fn field_refutes(a: &Option<String>, b: &Option<String>) -> (r: bool)
    ensures
        r == !field_matches(ov(*a), ov(*b)),
{
    match (a, b) {
        (Some(x), Some(y)) => !x.eq(y),
        _ => false,
    }
}

impl UsbDevice {
    /// A record carrying only a name.
    pub fn new(name: &str) -> (r: Self)
        ensures
            r@ == (DeviceV { name: Some(name@), ..DeviceV::unset() }),
    {
        UsbDevice {
            name: Some(name.to_owned()),
            id_model: None,
            id_model_enc: None,
            id_model_from_database: None,
            id_model_id: None,
            id_serial: None,
            id_serial_short: None,
            id_vendor: None,
            id_vendor_enc: None,
            id_vendor_from_database: None,
            id_vendor_id: None,
            product: None,
        }
    }

    /// Whether all eleven identity fields are unset.
    pub fn is_empty(&self) -> (r: bool)
        ensures
            r == self@.is_empty(),
    {
        self.id_model.is_none() && self.id_model_enc.is_none()
            && self.id_model_from_database.is_none() && self.id_model_id.is_none()
            && self.id_vendor.is_none() && self.id_vendor_enc.is_none()
            && self.id_vendor_from_database.is_none() && self.id_vendor_id.is_none()
            && self.id_serial.is_none() && self.id_serial_short.is_none()
            && self.product.is_none()
    }
}

impl Default for UsbDevice {
    /// The empty record: no name and no identity field.
    fn default() -> (r: Self)
        ensures
            r@ == DeviceV::unset(),
    {
        UsbDevice {
            name: None,
            id_model: None,
            id_model_enc: None,
            id_model_from_database: None,
            id_model_id: None,
            id_serial: None,
            id_serial_short: None,
            id_vendor: None,
            id_vendor_enc: None,
            id_vendor_from_database: None,
            id_vendor_id: None,
            product: None,
        }
    }
}

impl Clone for UsbDevice {
    fn clone(&self) -> (r: Self)
        ensures
            r@ == self@,
    {
        UsbDevice {
            name: opt_clone(&self.name),
            id_model: opt_clone(&self.id_model),
            id_model_enc: opt_clone(&self.id_model_enc),
            id_model_from_database: opt_clone(&self.id_model_from_database),
            id_model_id: opt_clone(&self.id_model_id),
            id_serial: opt_clone(&self.id_serial),
            id_serial_short: opt_clone(&self.id_serial_short),
            id_vendor: opt_clone(&self.id_vendor),
            id_vendor_enc: opt_clone(&self.id_vendor_enc),
            id_vendor_from_database: opt_clone(&self.id_vendor_from_database),
            id_vendor_id: opt_clone(&self.id_vendor_id),
            product: opt_clone(&self.product),
        }
    }
}

impl PartialEq for UsbDevice {
    /// Partial-field comparison: see `device_matches`.
    fn eq(&self, other: &UsbDevice) -> (r: bool) {
        let self_empty = self.is_empty();
        let other_empty = other.is_empty();
        if self_empty && other_empty {
            return true;
        }
        if self_empty || other_empty {
            return false;
        }
        if field_refutes(&self.id_model, &other.id_model) {
            return false;
        }
        if field_refutes(&self.id_model_enc, &other.id_model_enc) {
            return false;
        }
        if field_refutes(&self.id_model_from_database, &other.id_model_from_database) {
            return false;
        }
        if field_refutes(&self.id_model_id, &other.id_model_id) {
            return false;
        }
        if field_refutes(&self.id_vendor, &other.id_vendor) {
            return false;
        }
        if field_refutes(&self.id_vendor_enc, &other.id_vendor_enc) {
            return false;
        }
        if field_refutes(&self.id_vendor_from_database, &other.id_vendor_from_database) {
            return false;
        }
        if field_refutes(&self.id_vendor_id, &other.id_vendor_id) {
            return false;
        }
        if field_refutes(&self.id_serial, &other.id_serial) {
            return false;
        }
        if field_refutes(&self.id_serial_short, &other.id_serial_short) {
            return false;
        }
        if field_refutes(&self.product, &other.product) {
            return false;
        }
        true
    }
}

impl vstd::std_specs::cmp::PartialEqSpecImpl for UsbDevice {
    open spec fn obeys_eq_spec() -> bool {
        true
    }

    open spec fn eq_spec(&self, other: &UsbDevice) -> bool {
        device_matches(self@, other@)
    }
}

} // verus!
