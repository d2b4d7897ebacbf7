//! Port records: optionally-named descriptors of the physical port a
//! device occupies, compared under the same partial-field rule as
//! device records.

use vstd::prelude::*;

use crate::usb::device::{field_matches, ov};

verus! {

/// A port list as read from or written to a port file.
#[derive(Debug)]
pub struct UsbPorts {
    pub ports: Vec<UsbPort>,
}

/// A USB port descriptor. Every field is optional; `name` is a label
/// only and never takes part in comparison or emptiness.
#[derive(Debug)]
pub struct UsbPort {
    pub name: Option<String>,
    pub syspath: Option<String>,
    pub devpath: Option<String>,
    pub sysname: Option<String>,
    pub sysnum: Option<usize>,
    pub id_for_seat: Option<String>,
    pub id_path: Option<String>,
    pub id_path_tag: Option<String>,
}

/// The mathematical value of a port record.
#[verifier::ext_equal]
pub struct PortV {
    pub name: Option<Seq<char>>,
    pub syspath: Option<Seq<char>>,
    pub devpath: Option<Seq<char>>,
    pub sysname: Option<Seq<char>>,
    pub sysnum: Option<usize>,
    pub id_for_seat: Option<Seq<char>>,
    pub id_path: Option<Seq<char>>,
    pub id_path_tag: Option<Seq<char>>,
}

impl View for UsbPort {
    type V = PortV;

    open spec fn view(&self) -> PortV {
        PortV {
            name: ov(self.name),
            syspath: ov(self.syspath),
            devpath: ov(self.devpath),
            sysname: ov(self.sysname),
            sysnum: self.sysnum,
            id_for_seat: ov(self.id_for_seat),
            id_path: ov(self.id_path),
            id_path_tag: ov(self.id_path_tag),
        }
    }
}

impl PortV {
    /// A record with no field set, not even the name.
    pub open spec fn unset() -> PortV {
        PortV {
            name: None,
            syspath: None,
            devpath: None,
            sysname: None,
            sysnum: None,
            id_for_seat: None,
            id_path: None,
            id_path_tag: None,
        }
    }

    /// A record is empty when all seven identity fields are unset; the
    /// name does not participate.
    pub open spec fn is_empty(self) -> bool {
        &&& self.syspath is None
        &&& self.devpath is None
        &&& self.sysname is None
        &&& self.sysnum is None
        &&& self.id_for_seat is None
        &&& self.id_path is None
        &&& self.id_path_tag is None
    }
}

/// The numeric field is compared only when both sides carry a value.
pub open spec fn field_matches_num(a: Option<usize>, b: Option<usize>) -> bool {
    match (a, b) {
        (Some(x), Some(y)) => x == y,
        _ => true,
    }
}

/// Partial-field equality of two port records, under the same rule as
/// device records: empty equals empty, empty never equals non-empty,
/// and otherwise every field set on both sides must agree.
pub open spec fn port_matches(a: PortV, b: PortV) -> bool {
    if a.is_empty() && b.is_empty() {
        true
    } else if a.is_empty() || b.is_empty() {
        false
    } else {
        &&& field_matches(a.syspath, b.syspath)
        &&& field_matches(a.devpath, b.devpath)
        &&& field_matches(a.sysname, b.sysname)
        &&& field_matches_num(a.sysnum, b.sysnum)
        &&& field_matches(a.id_for_seat, b.id_for_seat)
        &&& field_matches(a.id_path, b.id_path)
        &&& field_matches(a.id_path_tag, b.id_path_tag)
    }
}

/// Partial-field equality of ports is reflexive on non-empty records
/// and symmetric everywhere.
pub proof fn lemma_port_matches_laws(a: PortV, b: PortV)
    ensures
        !a.is_empty() ==> port_matches(a, a),
        port_matches(a, b) == port_matches(b, a),
        port_matches(PortV::unset(), PortV::unset()),
        !a.is_empty() ==> !port_matches(PortV::unset(), a),
{
}

fn opt_clone(o: &Option<String>) -> (r: Option<String>)
    ensures
        ov(r) == ov(*o),
{
    match o {
        Some(s) => Some(s.clone()),
        None => None,
    }
}

fn field_refutes(a: &Option<String>, b: &Option<String>) -> (r: bool)
    ensures
        r == !field_matches(ov(*a), ov(*b)),
{
    match (a, b) {
        (Some(x), Some(y)) => !x.eq(y),
        _ => false,
    }
}

impl UsbPort {
    /// A record carrying only a name.
    pub fn new(name: &str) -> (r: Self)
        ensures
            r@ == (PortV { name: Some(name@), ..PortV::unset() }),
    {
        UsbPort {
            name: Some(name.to_owned()),
            syspath: None,
            devpath: None,
            sysname: None,
            sysnum: None,
            id_for_seat: None,
            id_path: None,
            id_path_tag: None,
        }
    }

    /// Whether all seven identity fields are unset.
    pub fn is_empty(&self) -> (r: bool)
        ensures
            r == self@.is_empty(),
    {
        self.syspath.is_none() && self.devpath.is_none() && self.sysname.is_none()
            && self.sysnum.is_none() && self.id_for_seat.is_none() && self.id_path.is_none()
            && self.id_path_tag.is_none()
    }
}

impl Default for UsbPort {
    /// The empty record: no name and no identity field.
    fn default() -> (r: Self)
        ensures
            r@ == PortV::unset(),
    {
        UsbPort {
            name: None,
            syspath: None,
            devpath: None,
            sysname: None,
            sysnum: None,
            id_for_seat: None,
            id_path: None,
            id_path_tag: None,
        }
    }
}

impl Clone for UsbPort {
    fn clone(&self) -> (r: Self)
        ensures
            r@ == self@,
    {
        UsbPort {
            name: opt_clone(&self.name),
            syspath: opt_clone(&self.syspath),
            devpath: opt_clone(&self.devpath),
            sysname: opt_clone(&self.sysname),
            sysnum: self.sysnum,
            id_for_seat: opt_clone(&self.id_for_seat),
            id_path: opt_clone(&self.id_path),
            id_path_tag: opt_clone(&self.id_path_tag),
        }
    }
}

impl PartialEq for UsbPort {
    /// Partial-field comparison: see `port_matches`.
    fn eq(&self, other: &UsbPort) -> (r: bool) {
        let self_empty = self.is_empty();
        let other_empty = other.is_empty();
        if self_empty && other_empty {
            return true;
        }
        if self_empty || other_empty {
            return false;
        }
        if field_refutes(&self.syspath, &other.syspath) {
            return false;
        }
        if field_refutes(&self.devpath, &other.devpath) {
            return false;
        }
        if field_refutes(&self.sysname, &other.sysname) {
            return false;
        }
        if let (Some(x), Some(y)) = (&self.sysnum, &other.sysnum) {
            if *x != *y {
                return false;
            }
        }
        if field_refutes(&self.id_for_seat, &other.id_for_seat) {
            return false;
        }
        if field_refutes(&self.id_path, &other.id_path) {
            return false;
        }
        if field_refutes(&self.id_path_tag, &other.id_path_tag) {
            return false;
        }
        true
    }
}

impl vstd::std_specs::cmp::PartialEqSpecImpl for UsbPort {
    open spec fn obeys_eq_spec() -> bool {
        true
    }

    open spec fn eq_spec(&self, other: &UsbPort) -> bool {
        port_matches(self@, other@)
    }
}

} // verus!
