//! The loader: from parsed configuration documents to records, match
//! clauses and rules.
//!
//! File reading and YAML text parsing happen in the surrounding
//! application; the loader receives the document tree and, for the
//! `include_devices`/`exclude_devices`/`include_ports` forms, the
//! already-loaded contents of the referenced files.

use vstd::prelude::*;

use crate::node::{
    entries_get, node_get, node_get_int, node_get_items, node_get_str, node_str, Node,
};
use crate::rule::matcher::{Match, MatchV};
use crate::rule::{Rule, RuleV, Rules};
use crate::usb::device::{ov, DeviceV};
use crate::usb::port::PortV;
use crate::usb::{parse_usb_event, spec_event_label, spec_parse_usb_event, UsbDevice, UsbEvent, UsbPort};

verus! {

/// Why a document was rejected. Each variant names the missing or
/// malformed part, as the user sees it.
#[derive(Copy, Clone, PartialEq, Eq, Structural, Debug)]
pub enum LoadError {
    /// A device record has no `name` key.
    MissingDeviceName,
    /// A port record has no `name` key.
    MissingPortName,
    /// A rule has no `name` key.
    MissingRuleName,
    /// A rule has no `match` key.
    MissingMatch,
    /// A rule has no `command` key.
    MissingCommand,
    /// A match clause has no `on` key.
    MissingOn,
    /// The `on` value names no event kind.
    BadOn,
    /// A `devices` entry is neither an include, an inline record nor a
    /// name.
    BadDeviceEntry,
    /// A `ports` entry is neither an include, an inline record nor a
    /// name.
    BadPortEntry,
    /// An `include_devices`/`exclude_devices` path was not preloaded.
    MissingDeviceFile,
    /// An `include_ports` path was not preloaded.
    MissingPortFile,
    /// The document's top level does not have the expected shape.
    BadDocument,
}

/// The user-facing description of an error.
pub open spec fn spec_error_message(e: LoadError) -> Seq<char> {
    match e {
        LoadError::MissingDeviceName => "failed to parse YAML for Device; missing required 'name' key"@,
        LoadError::MissingPortName => "failed to parse YAML for Port; missing required 'name' key"@,
        LoadError::MissingRuleName => "failed to parse YAML for Rule; missing required 'name' key"@,
        LoadError::MissingMatch => "failed to parse YAML for Rule; missing required 'match' key"@,
        LoadError::MissingCommand => "failed to parse YAML for Rule; missing required 'command' key"@,
        LoadError::MissingOn => "failed to parse YAML for Match; missing required 'on' key"@,
        LoadError::BadOn => "failed to parse YAML for Match; 'on' names no event kind"@,
        LoadError::BadDeviceEntry => "failed to parse YAML for Match; bad 'devices' entry"@,
        LoadError::BadPortEntry => "failed to parse YAML for Match; bad 'ports' entry"@,
        LoadError::MissingDeviceFile => "a devices file named by the rules was not loaded"@,
        LoadError::MissingPortFile => "a ports file named by the rules was not loaded"@,
        LoadError::BadDocument => "failed to parse YAML; unexpected document shape"@,
    }
}

impl LoadError {
    /// The user-facing description of this error.
    pub fn message(&self) -> (r: &'static str)
        ensures
            r@ == spec_error_message(*self),
    {
        match self {
            LoadError::MissingDeviceName => "failed to parse YAML for Device; missing required 'name' key",
            LoadError::MissingPortName => "failed to parse YAML for Port; missing required 'name' key",
            LoadError::MissingRuleName => "failed to parse YAML for Rule; missing required 'name' key",
            LoadError::MissingMatch => "failed to parse YAML for Rule; missing required 'match' key",
            LoadError::MissingCommand => "failed to parse YAML for Rule; missing required 'command' key",
            LoadError::MissingOn => "failed to parse YAML for Match; missing required 'on' key",
            LoadError::BadOn => "failed to parse YAML for Match; 'on' names no event kind",
            LoadError::BadDeviceEntry => "failed to parse YAML for Match; bad 'devices' entry",
            LoadError::BadPortEntry => "failed to parse YAML for Match; bad 'ports' entry",
            LoadError::MissingDeviceFile => "a devices file named by the rules was not loaded",
            LoadError::MissingPortFile => "a ports file named by the rules was not loaded",
            LoadError::BadDocument => "failed to parse YAML; unexpected document shape",
        }
    }
}

/// The device record an inline or file entry describes: `name` is
/// required; the identity fields are read from their wire names.
pub open spec fn spec_device_from_node(n: Node) -> Result<DeviceV, LoadError> {
    match node_get_str(n, "name"@) {
        Some(name) => Ok(
            DeviceV {
                name: Some(name),
                id_model: node_get_str(n, "ID_MODEL"@),
                id_model_enc: node_get_str(n, "ID_MODEL_ENC"@),
                id_model_from_database: node_get_str(n, "ID_MODEL_FROM_DATABASE"@),
                id_model_id: node_get_str(n, "ID_MODEL_ID"@),
                id_serial: node_get_str(n, "ID_SERIAL"@),
                id_serial_short: node_get_str(n, "ID_SERIAL_SHORT"@),
                id_vendor: node_get_str(n, "ID_VENDOR"@),
                id_vendor_enc: node_get_str(n, "ID_VENDOR_ENC"@),
                id_vendor_from_database: node_get_str(n, "ID_VENDOR_FROM_DATABASE"@),
                id_vendor_id: node_get_str(n, "ID_VENDOR_ID"@),
                product: node_get_str(n, "PRODUCT"@),
            },
        ),
        None => Err(LoadError::MissingDeviceName),
    }
}

fn opt_owned(o: Option<&String>) -> (r: Option<String>)
    ensures
        ov(r) == match o {
            Some(s) => Some(s@),
            None => None,
        },
{
    match o {
        Some(s) => Some(s.clone()),
        None => None,
    }
}

/// Read one device record from a document node.
pub fn device_from_node(n: &Node) -> (r: Result<UsbDevice, LoadError>)
    ensures
        match r {
            Ok(d) => spec_device_from_node(*n) == Ok::<DeviceV, LoadError>(d@),
            Err(e) => spec_device_from_node(*n) == Err::<DeviceV, LoadError>(e),
        },
{
    let name = match n.get_str("name") {
        Some(s) => s.clone(),
        None => {
            return Err(LoadError::MissingDeviceName);
        },
    };
    Ok(
        UsbDevice {
            name: Some(name),
            id_model: opt_owned(n.get_str("ID_MODEL")),
            id_model_enc: opt_owned(n.get_str("ID_MODEL_ENC")),
            id_model_from_database: opt_owned(n.get_str("ID_MODEL_FROM_DATABASE")),
            id_model_id: opt_owned(n.get_str("ID_MODEL_ID")),
            id_serial: opt_owned(n.get_str("ID_SERIAL")),
            id_serial_short: opt_owned(n.get_str("ID_SERIAL_SHORT")),
            id_vendor: opt_owned(n.get_str("ID_VENDOR")),
            id_vendor_enc: opt_owned(n.get_str("ID_VENDOR_ENC")),
            id_vendor_from_database: opt_owned(n.get_str("ID_VENDOR_FROM_DATABASE")),
            id_vendor_id: opt_owned(n.get_str("ID_VENDOR_ID")),
            product: opt_owned(n.get_str("PRODUCT")),
        },
    )
}

/// The port record an entry describes: `name` is required; `sysnum`
/// is taken only when it is a non-negative integer.
pub open spec fn spec_port_from_node(n: Node) -> Result<PortV, LoadError> {
    match node_get_str(n, "name"@) {
        Some(name) => Ok(
            PortV {
                name: Some(name),
                syspath: node_get_str(n, "syspath"@),
                devpath: node_get_str(n, "devpath"@),
                sysname: node_get_str(n, "sysname"@),
                sysnum: match node_get_int(n, "sysnum"@) {
                    Some(v) => if v >= 0 {
                        Some(v as usize)
                    } else {
                        None
                    },
                    None => None,
                },
                id_for_seat: node_get_str(n, "ID_FOR_SEAT"@),
                id_path: node_get_str(n, "ID_PATH"@),
                id_path_tag: node_get_str(n, "ID_PATH_TAG"@),
            },
        ),
        None => Err(LoadError::MissingPortName),
    }
}

/// Read one port record from a document node.
pub fn port_from_node(n: &Node) -> (r: Result<UsbPort, LoadError>)
    ensures
        match r {
            Ok(p) => spec_port_from_node(*n) == Ok::<PortV, LoadError>(p@),
            Err(e) => spec_port_from_node(*n) == Err::<PortV, LoadError>(e),
        },
{
    let name = match n.get_str("name") {
        Some(s) => s.clone(),
        None => {
            return Err(LoadError::MissingPortName);
        },
    };
    let sysnum = match n.get_int("sysnum") {
        Some(v) => if v >= 0 {
            Some(v as usize)
        } else {
            None
        },
        None => None,
    };
    Ok(
        UsbPort {
            name: Some(name),
            syspath: opt_owned(n.get_str("syspath")),
            devpath: opt_owned(n.get_str("devpath")),
            sysname: opt_owned(n.get_str("sysname")),
            sysnum,
            id_for_seat: opt_owned(n.get_str("ID_FOR_SEAT")),
            id_path: opt_owned(n.get_str("ID_PATH")),
            id_path_tag: opt_owned(n.get_str("ID_PATH_TAG")),
        },
    )
}

/// The records of a device list, or the first error among them.
pub open spec fn spec_device_list(items: Seq<Node>) -> Result<Seq<DeviceV>, LoadError>
    decreases items.len(),
{
    if items.len() == 0 {
        Ok(Seq::empty())
    } else {
        match spec_device_list(items.drop_last()) {
            Ok(pre) => match spec_device_from_node(items.last()) {
                Ok(d) => Ok(pre.push(d)),
                Err(e) => Err(e),
            },
            Err(e) => Err(e),
        }
    }
}

/// Once a prefix of the list is in error, the whole list is, with the
/// same error.
proof fn lemma_device_list_err_persists(items: Seq<Node>, k: int)
    requires
        0 <= k <= items.len(),
        spec_device_list(items.take(k)) is Err,
    ensures
        spec_device_list(items) == spec_device_list(items.take(k)),
    decreases items.len() - k,
{
    if k < items.len() {
        assert(items.take(k + 1).drop_last() =~= items.take(k));
        lemma_device_list_err_persists(items, k + 1);
    } else {
        assert(items.take(k) =~= items);
    }
}

/// The records of a port list, or the first error among them.
pub open spec fn spec_port_list(items: Seq<Node>) -> Result<Seq<PortV>, LoadError>
    decreases items.len(),
{
    if items.len() == 0 {
        Ok(Seq::empty())
    } else {
        match spec_port_list(items.drop_last()) {
            Ok(pre) => match spec_port_from_node(items.last()) {
                Ok(p) => Ok(pre.push(p)),
                Err(e) => Err(e),
            },
            Err(e) => Err(e),
        }
    }
}

proof fn lemma_port_list_err_persists(items: Seq<Node>, k: int)
    requires
        0 <= k <= items.len(),
        spec_port_list(items.take(k)) is Err,
    ensures
        spec_port_list(items) == spec_port_list(items.take(k)),
    decreases items.len() - k,
{
    if k < items.len() {
        assert(items.take(k + 1).drop_last() =~= items.take(k));
        lemma_port_list_err_persists(items, k + 1);
    } else {
        assert(items.take(k) =~= items);
    }
}

/// What a device file holds: the records under its `devices` key, or
/// the first error; a file without the key or with a non-list value
/// has the wrong shape.
pub open spec fn spec_devices_doc(n: Node) -> Result<Seq<DeviceV>, LoadError> {
    match node_get_items(n, "devices"@) {
        Some(items) => spec_device_list(items),
        None => Err(LoadError::BadDocument),
    }
}

/// Read a device file document.
pub fn devices_doc(n: &Node) -> (r: Result<Vec<UsbDevice>, LoadError>)
    ensures
        match r {
            Ok(ds) => spec_devices_doc(*n) == Ok::<Seq<DeviceV>, LoadError>(
                ds@.map_values(|d: UsbDevice| d@),
            ),
            Err(e) => spec_devices_doc(*n) == Err::<Seq<DeviceV>, LoadError>(e),
        },
{
    let items = match n.get_list("devices") {
        Some(v) => v,
        None => {
            return Err(LoadError::BadDocument);
        },
    };
    let ghost iv = items@;
    let mut out: Vec<UsbDevice> = Vec::new();
    proof {
        assert(out@.map_values(|d: UsbDevice| d@) =~= Seq::<DeviceV>::empty());
        assert(iv.take(0) =~= Seq::<Node>::empty());
    }
    let mut i: usize = 0;
    while i < items.len()
        invariant
            i <= items.len(),
            iv == items@,
            spec_devices_doc(*n) == spec_device_list(iv),
            spec_device_list(iv.take(i as int)) == Ok::<Seq<DeviceV>, LoadError>(
                out@.map_values(|d: UsbDevice| d@),
            ),
        decreases items.len() - i,
    {
        let ghost prev = out@.map_values(|d: UsbDevice| d@);
        proof {
            assert(iv.take((i + 1) as int).drop_last() =~= iv.take(i as int));
            assert(iv.take((i + 1) as int).last() == iv[i as int]);
        }
        match device_from_node(&items[i]) {
            Ok(d) => {
                out.push(d);
                proof {
                    assert(out@.map_values(|x: UsbDevice| x@) =~= prev.push(out@.last()@));
                }
            },
            Err(e) => {
                proof {
                    lemma_device_list_err_persists(iv, (i + 1) as int);
                }
                return Err(e);
            },
        }
        i += 1;
    }
    proof {
        assert(iv.take(items@.len() as int) =~= iv);
    }
    Ok(out)
}

/// What a port file holds: the records under its `ports` key, or the
/// first error.
pub open spec fn spec_ports_doc(n: Node) -> Result<Seq<PortV>, LoadError> {
    match node_get_items(n, "ports"@) {
        Some(items) => spec_port_list(items),
        None => Err(LoadError::BadDocument),
    }
}

/// Read a port file document.
pub fn ports_doc(n: &Node) -> (r: Result<Vec<UsbPort>, LoadError>)
    ensures
        match r {
            Ok(ps) => spec_ports_doc(*n) == Ok::<Seq<PortV>, LoadError>(
                ps@.map_values(|p: UsbPort| p@),
            ),
            Err(e) => spec_ports_doc(*n) == Err::<Seq<PortV>, LoadError>(e),
        },
{
    let items = match n.get_list("ports") {
        Some(v) => v,
        None => {
            return Err(LoadError::BadDocument);
        },
    };
    let ghost iv = items@;
    let mut out: Vec<UsbPort> = Vec::new();
    proof {
        assert(out@.map_values(|p: UsbPort| p@) =~= Seq::<PortV>::empty());
        assert(iv.take(0) =~= Seq::<Node>::empty());
    }
    let mut i: usize = 0;
    while i < items.len()
        invariant
            i <= items.len(),
            iv == items@,
            spec_ports_doc(*n) == spec_port_list(iv),
            spec_port_list(iv.take(i as int)) == Ok::<Seq<PortV>, LoadError>(
                out@.map_values(|p: UsbPort| p@),
            ),
        decreases items.len() - i,
    {
        let ghost prev = out@.map_values(|p: UsbPort| p@);
        proof {
            assert(iv.take((i + 1) as int).drop_last() =~= iv.take(i as int));
            assert(iv.take((i + 1) as int).last() == iv[i as int]);
        }
        match port_from_node(&items[i]) {
            Ok(p) => {
                out.push(p);
                proof {
                    assert(out@.map_values(|x: UsbPort| x@) =~= prev.push(out@.last()@));
                }
            },
            Err(e) => {
                proof {
                    lemma_port_list_err_persists(iv, (i + 1) as int);
                }
                return Err(e);
            },
        }
        i += 1;
    }
    proof {
        assert(iv.take(items@.len() as int) =~= iv);
    }
    Ok(out)
}


/// The preloaded contents of a device file named by the rules.
#[derive(Debug)]
pub struct DeviceFile {
    pub path: String,
    pub devices: Vec<UsbDevice>,
}

/// The mathematical value of a preloaded device file.
#[verifier::ext_equal]
pub struct DeviceFileV {
    pub path: Seq<char>,
    pub devices: Seq<DeviceV>,
}

impl View for DeviceFile {
    type V = DeviceFileV;

    open spec fn view(&self) -> DeviceFileV {
        DeviceFileV { path: self.path@, devices: self.devices@.map_values(|d: UsbDevice| d@) }
    }
}

/// The preloaded contents of a port file named by the rules.
#[derive(Debug)]
pub struct PortFile {
    pub path: String,
    pub ports: Vec<UsbPort>,
}

/// The mathematical value of a preloaded port file.
#[verifier::ext_equal]
pub struct PortFileV {
    pub path: Seq<char>,
    pub ports: Seq<PortV>,
}

impl View for PortFile {
    type V = PortFileV;

    open spec fn view(&self) -> PortFileV {
        PortFileV { path: self.path@, ports: self.ports@.map_values(|p: UsbPort| p@) }
    }
}

/// The contents of the first preloaded device file with this path.
pub open spec fn spec_dev_file_lookup(files: Seq<DeviceFileV>, path: Seq<char>) -> Option<
    Seq<DeviceV>,
>
    decreases files.len(),
{
    if files.len() == 0 {
        None
    } else if files[0].path == path {
        Some(files[0].devices)
    } else {
        spec_dev_file_lookup(files.drop_first(), path)
    }
}

/// The contents of the first preloaded port file with this path.
pub open spec fn spec_port_file_lookup(files: Seq<PortFileV>, path: Seq<char>) -> Option<
    Seq<PortV>,
>
    decreases files.len(),
{
    if files.len() == 0 {
        None
    } else if files[0].path == path {
        Some(files[0].ports)
    } else {
        spec_port_file_lookup(files.drop_first(), path)
    }
}

fn dev_file_lookup<'a>(files: &'a Vec<DeviceFile>, path: &String) -> (r: Option<&'a Vec<UsbDevice>>)
    ensures
        match r {
            Some(v) => spec_dev_file_lookup(
                files@.map_values(|f: DeviceFile| f@),
                path@,
            ) == Some(v@.map_values(|d: UsbDevice| d@)),
            None => spec_dev_file_lookup(files@.map_values(|f: DeviceFile| f@), path@) is None,
        },
{
    let ghost fv = files@.map_values(|f: DeviceFile| f@);
    proof {
        assert(fv.skip(0) =~= fv);
    }
    let mut i: usize = 0;
    while i < files.len()
        invariant
            i <= files.len(),
            fv == files@.map_values(|f: DeviceFile| f@),
            fv.len() == files@.len(),
            spec_dev_file_lookup(fv, path@) == spec_dev_file_lookup(fv.skip(i as int), path@),
        decreases files.len() - i,
    {
        proof {
            assert(fv.skip(i as int)[0] == fv[i as int]);
            assert(fv[i as int] == files@[i as int]@);
            assert(fv.skip(i as int).drop_first() =~= fv.skip((i + 1) as int));
        }
        if files[i].path.eq(path) {
            return Some(&files[i].devices);
        }
        i += 1;
    }
    proof {
        assert(fv.skip(files@.len() as int) =~= Seq::<DeviceFileV>::empty());
    }
    None
}

fn port_file_lookup<'a>(files: &'a Vec<PortFile>, path: &String) -> (r: Option<&'a Vec<UsbPort>>)
    ensures
        match r {
            Some(v) => spec_port_file_lookup(
                files@.map_values(|f: PortFile| f@),
                path@,
            ) == Some(v@.map_values(|p: UsbPort| p@)),
            None => spec_port_file_lookup(files@.map_values(|f: PortFile| f@), path@) is None,
        },
{
    let ghost fv = files@.map_values(|f: PortFile| f@);
    proof {
        assert(fv.skip(0) =~= fv);
    }
    let mut i: usize = 0;
    while i < files.len()
        invariant
            i <= files.len(),
            fv == files@.map_values(|f: PortFile| f@),
            fv.len() == files@.len(),
            spec_port_file_lookup(fv, path@) == spec_port_file_lookup(fv.skip(i as int), path@),
        decreases files.len() - i,
    {
        proof {
            assert(fv.skip(i as int)[0] == fv[i as int]);
            assert(fv[i as int] == files@[i as int]@);
            assert(fv.skip(i as int).drop_first() =~= fv.skip((i + 1) as int));
        }
        if files[i].path.eq(path) {
            return Some(&files[i].ports);
        }
        i += 1;
    }
    proof {
        assert(fv.skip(files@.len() as int) =~= Seq::<PortFileV>::empty());
    }
    None
}

fn clone_devices(v: &Vec<UsbDevice>) -> (r: Vec<UsbDevice>)
    ensures
        r@.map_values(|d: UsbDevice| d@) == v@.map_values(|d: UsbDevice| d@),
{
    let mut out: Vec<UsbDevice> = Vec::new();
    proof {
        assert(out@.map_values(|d: UsbDevice| d@) =~= v@.map_values(|d: UsbDevice| d@).take(0));
    }
    let mut i: usize = 0;
    while i < v.len()
        invariant
            i <= v.len(),
            out@.len() == i,
            out@.map_values(|d: UsbDevice| d@) == v@.map_values(|d: UsbDevice| d@).take(i as int),
        decreases v.len() - i,
    {
        let ghost prevv = out@;
        out.push(v[i].clone());
        proof {
            assert forall|k: int| #![trigger out@[k]]
                0 <= k < i + 1 implies out@.map_values(|d: UsbDevice| d@)[k] == v@.map_values(
                |d: UsbDevice| d@,
            ).take((i + 1) as int)[k] by {
                assert(out@.map_values(|d: UsbDevice| d@)[k] == out@[k]@);
                assert(v@.map_values(|d: UsbDevice| d@)[k] == v@[k]@);
                if k < i {
                    assert(out@[k] == prevv[k]);
                    assert(prevv.map_values(|d: UsbDevice| d@)[k] == prevv[k]@);
                    assert(prevv.map_values(|d: UsbDevice| d@)[k] == v@.map_values(
                        |d: UsbDevice| d@,
                    ).take(i as int)[k]);
                }
            }
            assert(out@.map_values(|d: UsbDevice| d@) =~= v@.map_values(|d: UsbDevice| d@).take(
                (i + 1) as int,
            ));
        }
        i += 1;
    }
    proof {
        assert(v@.map_values(|d: UsbDevice| d@).take(v@.len() as int) =~= v@.map_values(
            |d: UsbDevice| d@,
        ));
    }
    out
}

fn clone_ports(v: &Vec<UsbPort>) -> (r: Vec<UsbPort>)
    ensures
        r@.map_values(|p: UsbPort| p@) == v@.map_values(|p: UsbPort| p@),
{
    let mut out: Vec<UsbPort> = Vec::new();
    proof {
        assert(out@.map_values(|p: UsbPort| p@) =~= v@.map_values(|p: UsbPort| p@).take(0));
    }
    let mut i: usize = 0;
    while i < v.len()
        invariant
            i <= v.len(),
            out@.len() == i,
            out@.map_values(|p: UsbPort| p@) == v@.map_values(|p: UsbPort| p@).take(i as int),
        decreases v.len() - i,
    {
        let ghost prevv = out@;
        out.push(v[i].clone());
        proof {
            assert forall|k: int| #![trigger out@[k]]
                0 <= k < i + 1 implies out@.map_values(|p: UsbPort| p@)[k] == v@.map_values(
                |p: UsbPort| p@,
            ).take((i + 1) as int)[k] by {
                assert(out@.map_values(|p: UsbPort| p@)[k] == out@[k]@);
                assert(v@.map_values(|p: UsbPort| p@)[k] == v@[k]@);
                if k < i {
                    assert(out@[k] == prevv[k]);
                    assert(prevv.map_values(|p: UsbPort| p@)[k] == prevv[k]@);
                    assert(prevv.map_values(|p: UsbPort| p@)[k] == v@.map_values(
                        |p: UsbPort| p@,
                    ).take(i as int)[k]);
                }
            }
            assert(out@.map_values(|p: UsbPort| p@) =~= v@.map_values(|p: UsbPort| p@).take(
                (i + 1) as int,
            ));
        }
        i += 1;
    }
    proof {
        assert(v@.map_values(|p: UsbPort| p@).take(v@.len() as int) =~= v@.map_values(
            |p: UsbPort| p@,
        ));
    }
    out
}

/// The partial result of walking a `devices` list: the records so far,
/// the ignored positions so far, and the `!`-names still to resolve.
#[verifier::ext_equal]
pub struct DevAcc {
    pub devs: Seq<DeviceV>,
    pub ign: Seq<usize>,
    pub pending: Seq<Seq<char>>,
}

impl DevAcc {
    /// The walk starts with nothing collected.
    pub open spec fn start() -> DevAcc {
        DevAcc { devs: Seq::empty(), ign: Seq::empty(), pending: Seq::empty() }
    }
}

/// One entry of a `devices` list. In order of precedence: an
/// `include_devices` file, an `exclude_devices` file (whose records are
/// appended and their positions all marked ignored), an inline record
/// with a `name` key, a bare name (a leading `!` defers an
/// ignore-by-name to the end of the walk), anything else is an error.
pub open spec fn spec_dev_entry(acc: DevAcc, e: Node, files: Seq<DeviceFileV>) -> Result<
    DevAcc,
    LoadError,
> {
    match node_get_str(e, "include_devices"@) {
        Some(path) => match spec_dev_file_lookup(files, path) {
            Some(list) => Ok(DevAcc { devs: acc.devs + list, ..acc }),
            None => Err(LoadError::MissingDeviceFile),
        },
        None => match node_get_str(e, "exclude_devices"@) {
            Some(path) => match spec_dev_file_lookup(files, path) {
                Some(list) => Ok(
                    DevAcc {
                        devs: acc.devs + list,
                        ign: acc.ign + Seq::new(list.len(), |k: int| (acc.devs.len() + k) as usize),
                        ..acc
                    },
                ),
                None => Err(LoadError::MissingDeviceFile),
            },
            None => match node_get_str(e, "name"@) {
                Some(_) => match spec_device_from_node(e) {
                    Ok(d) => Ok(DevAcc { devs: acc.devs.push(d), ..acc }),
                    Err(err) => Err(err),
                },
                None => match node_str(e) {
                    Some(s) => {
                        if s.len() > 0 && s[0] == '!' {
                            Ok(DevAcc { pending: acc.pending.push(s.subrange(1, s.len() as int)), ..acc })
                        } else {
                            Ok(
                                DevAcc {
                                    devs: acc.devs.push(DeviceV { name: Some(s), ..DeviceV::unset() }),
                                    ..acc
                                },
                            )
                        }
                    },
                    None => Err(LoadError::BadDeviceEntry),
                },
            },
        },
    }
}

/// The walk of a whole `devices` list, or its first error.
pub open spec fn spec_dev_fold(items: Seq<Node>, files: Seq<DeviceFileV>, acc: DevAcc) -> Result<
    DevAcc,
    LoadError,
>
    decreases items.len(),
{
    if items.len() == 0 {
        Ok(acc)
    } else {
        match spec_dev_fold(items.drop_last(), files, acc) {
            Ok(a) => spec_dev_entry(a, items.last(), files),
            Err(e) => Err(e),
        }
    }
}

proof fn lemma_dev_fold_err_persists(items: Seq<Node>, files: Seq<DeviceFileV>, acc: DevAcc, k: int)
    requires
        0 <= k <= items.len(),
        spec_dev_fold(items.take(k), files, acc) is Err,
    ensures
        spec_dev_fold(items, files, acc) == spec_dev_fold(items.take(k), files, acc),
    decreases items.len() - k,
{
    if k < items.len() {
        assert(items.take(k + 1).drop_last() =~= items.take(k));
        lemma_dev_fold_err_persists(items, files, acc, k + 1);
    } else {
        assert(items.take(k) =~= items);
    }
}

/// `i` is the position of the first record whose name is exactly
/// `name`.
pub open spec fn is_first_named(devs: Seq<DeviceV>, name: Seq<char>, i: int) -> bool {
    &&& 0 <= i < devs.len()
    &&& devs[i].name == Some(name)
    &&& forall|j: int| 0 <= j < i ==> devs[j].name != Some(name)
}

/// Resolving one deferred `!`-name: the position of the first record
/// with that name is appended to the ignore list; an unknown name adds
/// nothing.
pub open spec fn spec_resolve_one(devs: Seq<DeviceV>, ign: Seq<usize>, name: Seq<char>) -> Seq<
    usize,
> {
    if exists|i: int| is_first_named(devs, name, i) {
        ign.push((choose|i: int| is_first_named(devs, name, i)) as usize)
    } else {
        ign
    }
}

/// Resolving all deferred `!`-names, in order of appearance.
pub open spec fn spec_resolve(devs: Seq<DeviceV>, ign: Seq<usize>, pending: Seq<Seq<char>>) -> Seq<
    usize,
>
    decreases pending.len(),
{
    if pending.len() == 0 {
        ign
    } else {
        spec_resolve_one(devs, spec_resolve(devs, ign, pending.drop_last()), pending.last())
    }
}

fn find_first_named(devs: &Vec<UsbDevice>, name: &String) -> (r: Option<usize>)
    ensures
        match r {
            Some(j) => is_first_named(devs@.map_values(|d: UsbDevice| d@), name@, j as int),
            None => forall|m: int|
                0 <= m < devs@.len() ==> (#[trigger] devs@[m]@).name != Some(name@),
        },
{
    let ghost dv = devs@.map_values(|d: UsbDevice| d@);
    let mut j: usize = 0;
    while j < devs.len()
        invariant
            j <= devs.len(),
            dv == devs@.map_values(|d: UsbDevice| d@),
            dv.len() == devs@.len(),
            forall|m: int| 0 <= m < j ==> (#[trigger] dv[m]).name != Some(name@),
        decreases devs.len() - j,
    {
        proof {
            assert(dv[j as int] == devs@[j as int]@);
        }
        let hit = match &devs[j].name {
            Some(nm) => nm.eq(name),
            None => false,
        };
        if hit {
            return Some(j);
        }
        j += 1;
    }
    proof {
        assert forall|m: int|
            0 <= m < devs@.len() implies (#[trigger] devs@[m]@).name != Some(name@) by {
            assert(dv[m] == devs@[m]@);
        }
    }
    None
}

/// One entry of a `ports` list: an `include_ports` file, an inline
/// record with a `name` key, or a bare name; anything else is an error.
pub open spec fn spec_port_entry(acc: Seq<PortV>, e: Node, files: Seq<PortFileV>) -> Result<
    Seq<PortV>,
    LoadError,
> {
    match node_get_str(e, "include_ports"@) {
        Some(path) => match spec_port_file_lookup(files, path) {
            Some(list) => Ok(acc + list),
            None => Err(LoadError::MissingPortFile),
        },
        None => match node_get_str(e, "name"@) {
            Some(_) => match spec_port_from_node(e) {
                Ok(p) => Ok(acc.push(p)),
                Err(err) => Err(err),
            },
            None => match node_str(e) {
                Some(s) => Ok(acc.push(PortV { name: Some(s), ..PortV::unset() })),
                None => Err(LoadError::BadPortEntry),
            },
        },
    }
}

/// The walk of a whole `ports` list, or its first error.
pub open spec fn spec_port_fold(items: Seq<Node>, files: Seq<PortFileV>, acc: Seq<PortV>) -> Result<
    Seq<PortV>,
    LoadError,
>
    decreases items.len(),
{
    if items.len() == 0 {
        Ok(acc)
    } else {
        match spec_port_fold(items.drop_last(), files, acc) {
            Ok(a) => spec_port_entry(a, items.last(), files),
            Err(e) => Err(e),
        }
    }
}

proof fn lemma_port_fold_err_persists(
    items: Seq<Node>,
    files: Seq<PortFileV>,
    acc: Seq<PortV>,
    k: int,
)
    requires
        0 <= k <= items.len(),
        spec_port_fold(items.take(k), files, acc) is Err,
    ensures
        spec_port_fold(items, files, acc) == spec_port_fold(items.take(k), files, acc),
    decreases items.len() - k,
{
    if k < items.len() {
        assert(items.take(k + 1).drop_last() =~= items.take(k));
        lemma_port_fold_err_persists(items, files, acc, k + 1);
    } else {
        assert(items.take(k) =~= items);
    }
}

/// The match clause a `match` node describes: `on` is required and
/// must name an event kind; the `devices` and `ports` lists are walked
/// when present as lists, and deferred `!`-names are resolved against
/// the fully collected device list.
/// The walk of the `devices` list of a match node; a missing key, or a
/// value that is not a list, leaves the clause without device
/// constraint.
pub open spec fn spec_match_devices_part(n: Node, dfiles: Seq<DeviceFileV>) -> Result<
    DevAcc,
    LoadError,
> {
    match node_get_items(n, "devices"@) {
        Some(items) => spec_dev_fold(items, dfiles, DevAcc::start()),
        None => Ok(DevAcc::start()),
    }
}

/// The walk of the `ports` list of a match node; a missing key, or a
/// value that is not a list, leaves the clause without port constraint.
pub open spec fn spec_match_ports_part(n: Node, pfiles: Seq<PortFileV>) -> Result<
    Seq<PortV>,
    LoadError,
> {
    match node_get_items(n, "ports"@) {
        Some(items) => spec_port_fold(items, pfiles, Seq::empty()),
        None => Ok(Seq::empty()),
    }
}

pub open spec fn spec_match_from_node(
    n: Node,
    dfiles: Seq<DeviceFileV>,
    pfiles: Seq<PortFileV>,
) -> Result<MatchV, LoadError> {
    match node_get_str(n, "on"@) {
        None => Err(LoadError::MissingOn),
        Some(on_str) => match spec_parse_usb_event(on_str) {
            None => Err(LoadError::BadOn),
            Some(on) => match spec_match_devices_part(n, dfiles) {
                Err(e) => Err(e),
                Ok(acc) => {
                    let ign = spec_resolve(acc.devs, acc.ign, acc.pending);
                    match spec_match_ports_part(n, pfiles) {
                        Err(e) => Err(e),
                        Ok(ports) => Ok(
                            MatchV { on, devices: acc.devs, ports, ignore_devices: ign },
                        ),
                    }
                },
            },
        },
    }
}


/// Read the match clause of a rule. The `include_devices`,
/// `exclude_devices` and `include_ports` forms are resolved against the
/// preloaded files; a path that was not preloaded is an error.
pub fn match_from_node(
    n: &Node,
    dev_files: &Vec<DeviceFile>,
    port_files: &Vec<PortFile>,
) -> (r: Result<Match, LoadError>)
    ensures
        match r {
            Ok(m) => spec_match_from_node(
                *n,
                dev_files@.map_values(|f: DeviceFile| f@),
                port_files@.map_values(|f: PortFile| f@),
            ) == Ok::<MatchV, LoadError>(m@),
            Err(e) => spec_match_from_node(
                *n,
                dev_files@.map_values(|f: DeviceFile| f@),
                port_files@.map_values(|f: PortFile| f@),
            ) == Err::<MatchV, LoadError>(e),
        },
{
    let ghost dfv = dev_files@.map_values(|f: DeviceFile| f@);
    let ghost pfv = port_files@.map_values(|f: PortFile| f@);
    let on_str = match n.get_str("on") {
        Some(s) => s,
        None => {
            return Err(LoadError::MissingOn);
        },
    };
    let ghost onv = on_str@;
    let on = match parse_usb_event(on_str.as_str()) {
        Some(k) => k,
        None => {
            return Err(LoadError::BadOn);
        },
    };
    let mut devs: Vec<UsbDevice> = Vec::new();
    let mut ign: Vec<usize> = Vec::new();
    let mut pending: Vec<String> = Vec::new();
    proof {
        assert(devs@.map_values(|d: UsbDevice| d@) =~= Seq::<DeviceV>::empty());
        assert(pending@.map_values(|s: String| s@) =~= Seq::<Seq<char>>::empty());
        assert((DevAcc {
            devs: devs@.map_values(|d: UsbDevice| d@),
            ign: ign@,
            pending: pending@.map_values(|s: String| s@),
        }) =~= DevAcc::start());
    }
    match n.get_list("devices") {
        Some(items) => {
            let ghost iv = items@;
            proof {
                assert(iv.take(0) =~= Seq::<Node>::empty());
            }
            let mut i: usize = 0;
            while i < items.len()
                invariant
                    i <= items.len(),
                    iv == items@,
                    dfv == dev_files@.map_values(|f: DeviceFile| f@),
                    pfv == port_files@.map_values(|f: PortFile| f@),
                    node_get_str(*n, "on"@) == Some(onv),
                    spec_parse_usb_event(onv) == Some(on),
                    node_get_items(*n, "devices"@) == Some(iv),
                    spec_dev_fold(iv.take(i as int), dfv, DevAcc::start()) == Ok::<
                        DevAcc,
                        LoadError,
                    >(
                        DevAcc {
                            devs: devs@.map_values(|d: UsbDevice| d@),
                            ign: ign@,
                            pending: pending@.map_values(|s: String| s@),
                        },
                    ),
                decreases items.len() - i,
            {
                let ghost acc_pre = DevAcc {
                    devs: devs@.map_values(|d: UsbDevice| d@),
                    ign: ign@,
                    pending: pending@.map_values(|s: String| s@),
                };
                let e = &items[i];
                proof {
                    assert(iv.take((i + 1) as int).drop_last() =~= iv.take(i as int));
                    assert(iv.take((i + 1) as int).last() == iv[i as int]);
                    assert(*e == iv[i as int]);
                }
                if let Some(path) = e.get_str("include_devices") {
                    match dev_file_lookup(dev_files, path) {
                        Some(list) => {
                            let ghost lv = list@.map_values(|d: UsbDevice| d@);
                            let mut extra = clone_devices(list);
                            devs.append(&mut extra);
                            proof {
                                assert(devs@.map_values(|d: UsbDevice| d@) =~= acc_pre.devs + lv);
                                assert(spec_dev_entry(acc_pre, iv[i as int], dfv) == Ok::<
                                    DevAcc,
                                    LoadError,
                                >(
                                    DevAcc {
                                        devs: devs@.map_values(|d: UsbDevice| d@),
                                        ign: ign@,
                                        pending: pending@.map_values(|s: String| s@),
                                    },
                                ));
                            }
                        },
                        None => {
                            proof {
                                assert(spec_dev_fold(iv.take((i + 1) as int), dfv, DevAcc::start())
                                    == Err::<DevAcc, LoadError>(LoadError::MissingDeviceFile));
                                lemma_dev_fold_err_persists(iv, dfv, DevAcc::start(), (i + 1) as int);
                            }
                            return Err(LoadError::MissingDeviceFile);
                        },
                    }
                } else if let Some(path) = e.get_str("exclude_devices") {
                    match dev_file_lookup(dev_files, path) {
                        Some(list) => {
                            let ghost lv = list@.map_values(|d: UsbDevice| d@);
                            let ghost ign_pre = ign@;
                            let pre = devs.len();
                            let mut extra = clone_devices(list);
                            let n_new = extra.len();
                            devs.append(&mut extra);
                            let total = devs.len();
                            proof {
                                assert(total == pre + n_new);
                                assert(devs@.map_values(|d: UsbDevice| d@) =~= acc_pre.devs + lv);
                                assert(ign@ =~= ign_pre + Seq::new(
                                    0,
                                    |t: int| (pre + t) as usize,
                                ));
                            }
                            let mut k: usize = 0;
                            while k < n_new
                                invariant
                                    k <= n_new,
                                    pre + n_new <= usize::MAX,
                                    ign@ == ign_pre + Seq::new(
                                        k as nat,
                                        |t: int| (pre + t) as usize,
                                    ),
                                decreases n_new - k,
                            {
                                ign.push(pre + k);
                                proof {
                                    assert(ign@ =~= ign_pre + Seq::new(
                                        (k + 1) as nat,
                                        |t: int| (pre + t) as usize,
                                    ));
                                }
                                k += 1;
                            }
                            proof {
                                assert(Seq::new(n_new as nat, |t: int| (pre + t) as usize) =~= Seq::new(
                                    lv.len(),
                                    |t: int| (acc_pre.devs.len() + t) as usize,
                                ));
                                assert(spec_dev_entry(acc_pre, iv[i as int], dfv) == Ok::<
                                    DevAcc,
                                    LoadError,
                                >(
                                    DevAcc {
                                        devs: devs@.map_values(|d: UsbDevice| d@),
                                        ign: ign@,
                                        pending: pending@.map_values(|s: String| s@),
                                    },
                                ));
                            }
                        },
                        None => {
                            proof {
                                assert(spec_dev_fold(iv.take((i + 1) as int), dfv, DevAcc::start())
                                    == Err::<DevAcc, LoadError>(LoadError::MissingDeviceFile));
                                lemma_dev_fold_err_persists(iv, dfv, DevAcc::start(), (i + 1) as int);
                            }
                            return Err(LoadError::MissingDeviceFile);
                        },
                    }
                } else if e.get_str("name").is_some() {
                    match device_from_node(e) {
                        Ok(d) => {
                            devs.push(d);
                            proof {
                                assert(devs@.map_values(|x: UsbDevice| x@) =~= acc_pre.devs.push(
                                    devs@.last()@,
                                ));
                                assert(spec_dev_entry(acc_pre, iv[i as int], dfv) == Ok::<
                                    DevAcc,
                                    LoadError,
                                >(
                                    DevAcc {
                                        devs: devs@.map_values(|x: UsbDevice| x@),
                                        ign: ign@,
                                        pending: pending@.map_values(|s: String| s@),
                                    },
                                ));
                            }
                        },
                        Err(err) => {
                            proof {
                                assert(spec_dev_fold(iv.take((i + 1) as int), dfv, DevAcc::start())
                                    == Err::<DevAcc, LoadError>(err));
                                lemma_dev_fold_err_persists(iv, dfv, DevAcc::start(), (i + 1) as int);
                            }
                            return Err(err);
                        },
                    }
                } else {
                    match e.as_str() {
                        Some(sref) => {
                            let slen = sref.as_str().unicode_len();
                            let is_bang: bool = if slen > 0 {
                                sref.as_str().get_char(0) == '!'
                            } else {
                                false
                            };
                            if is_bang {
                                let stripped: String = sref.as_str().substring_char(
                                    1,
                                    slen,
                                ).to_owned();
                                pending.push(stripped);
                                proof {
                                    assert(pending@.map_values(|s: String| s@)
                                        =~= acc_pre.pending.push(pending@.last()@));
                                    assert(spec_dev_entry(acc_pre, iv[i as int], dfv) == Ok::<
                                        DevAcc,
                                        LoadError,
                                    >(
                                        DevAcc {
                                            devs: devs@.map_values(|x: UsbDevice| x@),
                                            ign: ign@,
                                            pending: pending@.map_values(|s: String| s@),
                                        },
                                    ));
                                }
                            } else {
                                devs.push(crate::usb::UsbDevice::new(sref.as_str()));
                                proof {
                                    assert(devs@.map_values(|x: UsbDevice| x@)
                                        =~= acc_pre.devs.push(devs@.last()@));
                                    assert(spec_dev_entry(acc_pre, iv[i as int], dfv) == Ok::<
                                        DevAcc,
                                        LoadError,
                                    >(
                                        DevAcc {
                                            devs: devs@.map_values(|x: UsbDevice| x@),
                                            ign: ign@,
                                            pending: pending@.map_values(|s: String| s@),
                                        },
                                    ));
                                }
                            }
                        },
                        None => {
                            proof {
                                assert(spec_dev_entry(acc_pre, iv[i as int], dfv) == Err::<
                                    DevAcc,
                                    LoadError,
                                >(LoadError::BadDeviceEntry));
                                assert(spec_dev_fold(iv.take((i + 1) as int), dfv, DevAcc::start())
                                    == Err::<DevAcc, LoadError>(LoadError::BadDeviceEntry));
                                lemma_dev_fold_err_persists(iv, dfv, DevAcc::start(), (i + 1) as int);
                            }
                            return Err(LoadError::BadDeviceEntry);
                        },
                    }
                }
                i += 1;
            }
            proof {
                assert(iv.take(items@.len() as int) =~= iv);
                assert(spec_match_devices_part(*n, dfv) == Ok::<DevAcc, LoadError>(
                    DevAcc {
                        devs: devs@.map_values(|d: UsbDevice| d@),
                        ign: ign@,
                        pending: pending@.map_values(|s: String| s@),
                    },
                ));
            }
        },
        None => {
            proof {
                assert(spec_match_devices_part(*n, dfv) == Ok::<DevAcc, LoadError>(
                    DevAcc {
                        devs: devs@.map_values(|d: UsbDevice| d@),
                        ign: ign@,
                        pending: pending@.map_values(|s: String| s@),
                    },
                ));
            }
        },
    }
    let ghost acc_f = DevAcc {
        devs: devs@.map_values(|d: UsbDevice| d@),
        ign: ign@,
        pending: pending@.map_values(|s: String| s@),
    };
    let ghost devsv = acc_f.devs;
    let ghost ign_base = acc_f.ign;
    let ghost pendv = acc_f.pending;
    proof {
        assert(pendv.take(0) =~= Seq::<Seq<char>>::empty());
    }
    let mut k: usize = 0;
    while k < pending.len()
        invariant
            k <= pending.len(),
            devsv == devs@.map_values(|d: UsbDevice| d@),
            pendv == pending@.map_values(|s: String| s@),
            pendv.len() == pending@.len(),
            ign@ == spec_resolve(devsv, ign_base, pendv.take(k as int)),
        decreases pending.len() - k,
    {
        let ghost ign_cur = ign@;
        proof {
            assert(pendv.take((k + 1) as int).drop_last() =~= pendv.take(k as int));
            assert(pendv.take((k + 1) as int).last() == pendv[k as int]);
            assert(pendv[k as int] == pending@[k as int]@);
        }
        match find_first_named(&devs, &pending[k]) {
            Some(j) => {
                ign.push(j);
                proof {
                    assert(is_first_named(devsv, pendv[k as int], j as int));
                    assert forall|x: int|
                        is_first_named(devsv, pendv[k as int], x) implies x == j as int by {
                        if x < j as int {
                            assert(devsv[x].name != Some(pendv[k as int]));
                        } else if x > j as int {
                            assert(devsv[j as int].name != Some(pendv[k as int]));
                        }
                    }
                    assert(spec_resolve_one(devsv, ign_cur, pendv[k as int]) == ign_cur.push(j));
                }
            },
            None => {
                proof {
                    if exists|x: int| is_first_named(devsv, pendv[k as int], x) {
                        let x = choose|x: int| is_first_named(devsv, pendv[k as int], x);
                        assert(devsv[x] == devs@[x]@);
                    }
                    assert(spec_resolve_one(devsv, ign_cur, pendv[k as int]) == ign_cur);
                }
            },
        }
        k += 1;
    }
    proof {
        assert(pendv.take(pending@.len() as int) =~= pendv);
    }
    let ghost resolved = spec_resolve(devsv, ign_base, pendv);
    let mut ports: Vec<UsbPort> = Vec::new();
    proof {
        assert(ports@.map_values(|p: UsbPort| p@) =~= Seq::<PortV>::empty());
    }
    match n.get_list("ports") {
        Some(pitems) => {
            let ghost piv = pitems@;
            proof {
                assert(piv.take(0) =~= Seq::<Node>::empty());
            }
            let mut i: usize = 0;
            while i < pitems.len()
                invariant
                    i <= pitems.len(),
                    piv == pitems@,
                    dfv == dev_files@.map_values(|f: DeviceFile| f@),
                    pfv == port_files@.map_values(|f: PortFile| f@),
                    node_get_str(*n, "on"@) == Some(onv),
                    spec_parse_usb_event(onv) == Some(on),
                    spec_match_devices_part(*n, dfv) == Ok::<DevAcc, LoadError>(acc_f),
                    node_get_items(*n, "ports"@) == Some(piv),
                    spec_port_fold(piv.take(i as int), pfv, Seq::empty()) == Ok::<
                        Seq<PortV>,
                        LoadError,
                    >(ports@.map_values(|p: UsbPort| p@)),
                decreases pitems.len() - i,
            {
                let ghost acc_pre = ports@.map_values(|p: UsbPort| p@);
                let e = &pitems[i];
                proof {
                    assert(piv.take((i + 1) as int).drop_last() =~= piv.take(i as int));
                    assert(piv.take((i + 1) as int).last() == piv[i as int]);
                    assert(*e == piv[i as int]);
                }
                if let Some(path) = e.get_str("include_ports") {
                    match port_file_lookup(port_files, path) {
                        Some(list) => {
                            let ghost lv = list@.map_values(|p: UsbPort| p@);
                            let mut extra = clone_ports(list);
                            ports.append(&mut extra);
                            proof {
                                assert(ports@.map_values(|p: UsbPort| p@) =~= acc_pre + lv);
                                assert(spec_port_entry(acc_pre, piv[i as int], pfv) == Ok::<
                                    Seq<PortV>,
                                    LoadError,
                                >(ports@.map_values(|p: UsbPort| p@)));
                            }
                        },
                        None => {
                            proof {
                                assert(spec_port_fold(piv.take((i + 1) as int), pfv, Seq::empty())
                                    == Err::<Seq<PortV>, LoadError>(LoadError::MissingPortFile));
                                lemma_port_fold_err_persists(piv, pfv, Seq::empty(), (i + 1) as int);
                            }
                            return Err(LoadError::MissingPortFile);
                        },
                    }
                } else if e.get_str("name").is_some() {
                    match port_from_node(e) {
                        Ok(p) => {
                            ports.push(p);
                            proof {
                                assert(ports@.map_values(|x: UsbPort| x@) =~= acc_pre.push(
                                    ports@.last()@,
                                ));
                                assert(spec_port_entry(acc_pre, piv[i as int], pfv) == Ok::<
                                    Seq<PortV>,
                                    LoadError,
                                >(ports@.map_values(|x: UsbPort| x@)));
                            }
                        },
                        Err(err) => {
                            proof {
                                assert(spec_port_fold(piv.take((i + 1) as int), pfv, Seq::empty())
                                    == Err::<Seq<PortV>, LoadError>(err));
                                lemma_port_fold_err_persists(piv, pfv, Seq::empty(), (i + 1) as int);
                            }
                            return Err(err);
                        },
                    }
                } else {
                    match e.as_str() {
                        Some(sref) => {
                            ports.push(crate::usb::UsbPort::new(sref.as_str()));
                            proof {
                                assert(ports@.map_values(|x: UsbPort| x@) =~= acc_pre.push(
                                    ports@.last()@,
                                ));
                                assert(spec_port_entry(acc_pre, piv[i as int], pfv) == Ok::<
                                    Seq<PortV>,
                                    LoadError,
                                >(ports@.map_values(|x: UsbPort| x@)));
                            }
                        },
                        None => {
                            proof {
                                assert(spec_port_entry(acc_pre, piv[i as int], pfv) == Err::<
                                    Seq<PortV>,
                                    LoadError,
                                >(LoadError::BadPortEntry));
                                assert(spec_port_fold(piv.take((i + 1) as int), pfv, Seq::empty())
                                    == Err::<Seq<PortV>, LoadError>(LoadError::BadPortEntry));
                                lemma_port_fold_err_persists(piv, pfv, Seq::empty(), (i + 1) as int);
                            }
                            return Err(LoadError::BadPortEntry);
                        },
                    }
                }
                i += 1;
            }
            proof {
                assert(piv.take(pitems@.len() as int) =~= piv);
                assert(spec_match_ports_part(*n, pfv) == Ok::<Seq<PortV>, LoadError>(
                    ports@.map_values(|p: UsbPort| p@),
                ));
            }
        },
        None => {
            proof {
                assert(spec_match_ports_part(*n, pfv) == Ok::<Seq<PortV>, LoadError>(
                    ports@.map_values(|p: UsbPort| p@),
                ));
            }
        },
    }
    let m = Match { on, devices: devs, ports, ignore_devices: ign };
    proof {
        assert(m@ =~= (MatchV {
            on,
            devices: acc_f.devs,
            ports: m@.ports,
            ignore_devices: resolved,
        }));
        assert(spec_match_from_node(*n, dfv, pfv) == Ok::<MatchV, LoadError>(m@));
    }
    Ok(m)
}


/// The rule a document node describes: `name` and `command` are
/// required, `command_shell` defaults to `/bin/sh`, and the `match`
/// clause is read as `spec_match_from_node` says.
pub open spec fn spec_rule_from_node(
    n: Node,
    dfiles: Seq<DeviceFileV>,
    pfiles: Seq<PortFileV>,
) -> Result<RuleV, LoadError> {
    match node_get_str(n, "name"@) {
        None => Err(LoadError::MissingRuleName),
        Some(name) => match node_get(n, "match"@) {
            None => Err(LoadError::MissingMatch),
            Some(mn) => match spec_match_from_node(mn, dfiles, pfiles) {
                Err(e) => Err(e),
                Ok(m) => {
                    let shell = match node_get_str(n, "command_shell"@) {
                        Some(s) => s,
                        None => "/bin/sh"@,
                    };
                    match node_get_str(n, "command"@) {
                        None => Err(LoadError::MissingCommand),
                        Some(c) => Ok(
                            RuleV { name, match_clause: m, command_shell: shell, command: c },
                        ),
                    }
                },
            },
        },
    }
}

/// Read one rule from a document node.
pub fn rule_from_node(
    n: &Node,
    dev_files: &Vec<DeviceFile>,
    port_files: &Vec<PortFile>,
) -> (r: Result<Rule, LoadError>)
    ensures
        match r {
            Ok(rule) => spec_rule_from_node(
                *n,
                dev_files@.map_values(|f: DeviceFile| f@),
                port_files@.map_values(|f: PortFile| f@),
            ) == Ok::<RuleV, LoadError>(rule@),
            Err(e) => spec_rule_from_node(
                *n,
                dev_files@.map_values(|f: DeviceFile| f@),
                port_files@.map_values(|f: PortFile| f@),
            ) == Err::<RuleV, LoadError>(e),
        },
{
    let name = match n.get_str("name") {
        Some(s) => s.clone(),
        None => {
            return Err(LoadError::MissingRuleName);
        },
    };
    let mn = match n.get("match") {
        Some(v) => v,
        None => {
            return Err(LoadError::MissingMatch);
        },
    };
    let m = match match_from_node(mn, dev_files, port_files) {
        Ok(m) => m,
        Err(e) => {
            return Err(e);
        },
    };
    let command_shell = match n.get_str("command_shell") {
        Some(s) => s.clone(),
        None => "/bin/sh".to_owned(),
    };
    let command = match n.get_str("command") {
        Some(s) => s.clone(),
        None => {
            return Err(LoadError::MissingCommand);
        },
    };
    Ok(Rule { name, match_clause: m, command_shell, command })
}

/// The rules of a rule list, or the first error among them.
pub open spec fn spec_rule_list(
    items: Seq<Node>,
    dfiles: Seq<DeviceFileV>,
    pfiles: Seq<PortFileV>,
) -> Result<Seq<RuleV>, LoadError>
    decreases items.len(),
{
    if items.len() == 0 {
        Ok(Seq::empty())
    } else {
        match spec_rule_list(items.drop_last(), dfiles, pfiles) {
            Ok(pre) => match spec_rule_from_node(items.last(), dfiles, pfiles) {
                Ok(rule) => Ok(pre.push(rule)),
                Err(e) => Err(e),
            },
            Err(e) => Err(e),
        }
    }
}

proof fn lemma_rule_list_err_persists(
    items: Seq<Node>,
    dfiles: Seq<DeviceFileV>,
    pfiles: Seq<PortFileV>,
    k: int,
)
    requires
        0 <= k <= items.len(),
        spec_rule_list(items.take(k), dfiles, pfiles) is Err,
    ensures
        spec_rule_list(items, dfiles, pfiles) == spec_rule_list(items.take(k), dfiles, pfiles),
    decreases items.len() - k,
{
    if k < items.len() {
        assert(items.take(k + 1).drop_last() =~= items.take(k));
        lemma_rule_list_err_persists(items, dfiles, pfiles, k + 1);
    } else {
        assert(items.take(k) =~= items);
    }
}

/// What a rule document holds: the rules under its `rules` key, in
/// order; a document without the key, or with a non-list value there,
/// holds no rules.
pub open spec fn spec_rules_doc(
    n: Node,
    dfiles: Seq<DeviceFileV>,
    pfiles: Seq<PortFileV>,
) -> Result<Seq<RuleV>, LoadError> {
    match node_get_items(n, "rules"@) {
        Some(items) => spec_rule_list(items, dfiles, pfiles),
        None => Ok(Seq::empty()),
    }
}

/// Read a rule document.
pub fn rules_doc(
    n: &Node,
    dev_files: &Vec<DeviceFile>,
    port_files: &Vec<PortFile>,
) -> (r: Result<Rules, LoadError>)
    ensures
        match r {
            Ok(rs) => spec_rules_doc(
                *n,
                dev_files@.map_values(|f: DeviceFile| f@),
                port_files@.map_values(|f: PortFile| f@),
            ) == Ok::<Seq<RuleV>, LoadError>(rs.rules@.map_values(|ru: Rule| ru@)),
            Err(e) => spec_rules_doc(
                *n,
                dev_files@.map_values(|f: DeviceFile| f@),
                port_files@.map_values(|f: PortFile| f@),
            ) == Err::<Seq<RuleV>, LoadError>(e),
        },
{
    let ghost dfv = dev_files@.map_values(|f: DeviceFile| f@);
    let ghost pfv = port_files@.map_values(|f: PortFile| f@);
    let mut out: Vec<Rule> = Vec::new();
    proof {
        assert(out@.map_values(|ru: Rule| ru@) =~= Seq::<RuleV>::empty());
    }
    match n.get_list("rules") {
        Some(items) => {
            let ghost iv = items@;
            proof {
                assert(iv.take(0) =~= Seq::<Node>::empty());
            }
            let mut i: usize = 0;
            while i < items.len()
                invariant
                    i <= items.len(),
                    iv == items@,
                    dfv == dev_files@.map_values(|f: DeviceFile| f@),
                    pfv == port_files@.map_values(|f: PortFile| f@),
                    node_get_items(*n, "rules"@) == Some(iv),
                    spec_rule_list(iv.take(i as int), dfv, pfv) == Ok::<Seq<RuleV>, LoadError>(
                        out@.map_values(|ru: Rule| ru@),
                    ),
                decreases items.len() - i,
            {
                let ghost prev = out@.map_values(|ru: Rule| ru@);
                proof {
                    assert(iv.take((i + 1) as int).drop_last() =~= iv.take(i as int));
                    assert(iv.take((i + 1) as int).last() == iv[i as int]);
                }
                match rule_from_node(&items[i], dev_files, port_files) {
                    Ok(rule) => {
                        out.push(rule);
                        proof {
                            assert(out@.map_values(|ru: Rule| ru@) =~= prev.push(out@.last()@));
                        }
                    },
                    Err(e) => {
                        proof {
                            lemma_rule_list_err_persists(iv, dfv, pfv, (i + 1) as int);
                        }
                        return Err(e);
                    },
                }
                i += 1;
            }
            proof {
                assert(iv.take(items@.len() as int) =~= iv);
            }
        },
        None => {},
    }
    Ok(Rules { rules: out })
}


/// The device-file path one `devices` entry names, if any: either an
/// include or an exclude form.
pub open spec fn spec_entry_dev_paths(e: Node) -> Seq<Seq<char>> {
    match node_get_str(e, "include_devices"@) {
        Some(p) => seq![p],
        None => match node_get_str(e, "exclude_devices"@) {
            Some(p) => seq![p],
            None => Seq::empty(),
        },
    }
}

/// The device-file paths a `devices` list names, in order.
pub open spec fn spec_entries_dev_paths(es: Seq<Node>) -> Seq<Seq<char>>
    decreases es.len(),
{
    if es.len() == 0 {
        Seq::empty()
    } else {
        spec_entries_dev_paths(es.drop_last()) + spec_entry_dev_paths(es.last())
    }
}

/// The port-file path one `ports` entry names, if any.
pub open spec fn spec_entry_port_paths(e: Node) -> Seq<Seq<char>> {
    match node_get_str(e, "include_ports"@) {
        Some(p) => seq![p],
        None => Seq::empty(),
    }
}

/// The port-file paths a `ports` list names, in order.
pub open spec fn spec_entries_port_paths(es: Seq<Node>) -> Seq<Seq<char>>
    decreases es.len(),
{
    if es.len() == 0 {
        Seq::empty()
    } else {
        spec_entries_port_paths(es.drop_last()) + spec_entry_port_paths(es.last())
    }
}

/// The device-file paths one rule names through its match clause.
pub open spec fn spec_rule_dev_paths(rn: Node) -> Seq<Seq<char>> {
    match node_get(rn, "match"@) {
        Some(mn) => match node_get_items(mn, "devices"@) {
            Some(es) => spec_entries_dev_paths(es),
            None => Seq::empty(),
        },
        None => Seq::empty(),
    }
}

/// The port-file paths one rule names through its match clause.
pub open spec fn spec_rule_port_paths(rn: Node) -> Seq<Seq<char>> {
    match node_get(rn, "match"@) {
        Some(mn) => match node_get_items(mn, "ports"@) {
            Some(es) => spec_entries_port_paths(es),
            None => Seq::empty(),
        },
        None => Seq::empty(),
    }
}

/// The device-file paths of a rule list, in order of appearance.
pub open spec fn spec_rules_dev_paths(items: Seq<Node>) -> Seq<Seq<char>>
    decreases items.len(),
{
    if items.len() == 0 {
        Seq::empty()
    } else {
        spec_rules_dev_paths(items.drop_last()) + spec_rule_dev_paths(items.last())
    }
}

/// The port-file paths of a rule list, in order of appearance.
pub open spec fn spec_rules_port_paths(items: Seq<Node>) -> Seq<Seq<char>>
    decreases items.len(),
{
    if items.len() == 0 {
        Seq::empty()
    } else {
        spec_rules_port_paths(items.drop_last()) + spec_rule_port_paths(items.last())
    }
}

/// The device-file paths a whole rule document names.
pub open spec fn spec_doc_dev_paths(n: Node) -> Seq<Seq<char>> {
    match node_get_items(n, "rules"@) {
        Some(items) => spec_rules_dev_paths(items),
        None => Seq::empty(),
    }
}

/// The port-file paths a whole rule document names.
pub open spec fn spec_doc_port_paths(n: Node) -> Seq<Seq<char>> {
    match node_get_items(n, "rules"@) {
        Some(items) => spec_rules_port_paths(items),
        None => Seq::empty(),
    }
}

fn entry_dev_paths_into(es: &Vec<Node>, out: &mut Vec<String>)
    ensures
        final(out)@.map_values(|s: String| s@) == old(out)@.map_values(|s: String| s@)
            + spec_entries_dev_paths(es@),
{
    let ghost base = out@.map_values(|s: String| s@);
    let ghost ev = es@;
    proof {
        assert(ev.take(0) =~= Seq::<Node>::empty());
        assert(base + spec_entries_dev_paths(ev.take(0)) =~= base);
    }
    let mut i: usize = 0;
    while i < es.len()
        invariant
            i <= es.len(),
            ev == es@,
            base == old(out)@.map_values(|s: String| s@),
            out@.map_values(|s: String| s@) == base + spec_entries_dev_paths(ev.take(i as int)),
        decreases es.len() - i,
    {
        let ghost prev = out@.map_values(|s: String| s@);
        proof {
            assert(ev.take((i + 1) as int).drop_last() =~= ev.take(i as int));
            assert(ev.take((i + 1) as int).last() == ev[i as int]);
        }
        let e = &es[i];
        if let Some(p) = e.get_str("include_devices") {
            out.push(p.clone());
            proof {
                assert(out@.map_values(|s: String| s@) =~= prev + seq![out@.last()@]);
                assert(prev + spec_entry_dev_paths(ev[i as int]) =~= base + spec_entries_dev_paths(
                    ev.take((i + 1) as int),
                ));
            }
        } else if let Some(p) = e.get_str("exclude_devices") {
            out.push(p.clone());
            proof {
                assert(out@.map_values(|s: String| s@) =~= prev + seq![out@.last()@]);
                assert(prev + spec_entry_dev_paths(ev[i as int]) =~= base + spec_entries_dev_paths(
                    ev.take((i + 1) as int),
                ));
            }
        } else {
            proof {
                assert(spec_entry_dev_paths(ev[i as int]) =~= Seq::<Seq<char>>::empty());
                assert(prev + spec_entry_dev_paths(ev[i as int]) =~= prev);
                assert(base + spec_entries_dev_paths(ev.take((i + 1) as int)) =~= prev);
            }
        }
        i += 1;
    }
    proof {
        assert(ev.take(es@.len() as int) =~= ev);
    }
}

fn entry_port_paths_into(es: &Vec<Node>, out: &mut Vec<String>)
    ensures
        final(out)@.map_values(|s: String| s@) == old(out)@.map_values(|s: String| s@)
            + spec_entries_port_paths(es@),
{
    let ghost base = out@.map_values(|s: String| s@);
    let ghost ev = es@;
    proof {
        assert(ev.take(0) =~= Seq::<Node>::empty());
        assert(base + spec_entries_port_paths(ev.take(0)) =~= base);
    }
    let mut i: usize = 0;
    while i < es.len()
        invariant
            i <= es.len(),
            ev == es@,
            base == old(out)@.map_values(|s: String| s@),
            out@.map_values(|s: String| s@) == base + spec_entries_port_paths(ev.take(i as int)),
        decreases es.len() - i,
    {
        let ghost prev = out@.map_values(|s: String| s@);
        proof {
            assert(ev.take((i + 1) as int).drop_last() =~= ev.take(i as int));
            assert(ev.take((i + 1) as int).last() == ev[i as int]);
        }
        let e = &es[i];
        if let Some(p) = e.get_str("include_ports") {
            out.push(p.clone());
            proof {
                assert(out@.map_values(|s: String| s@) =~= prev + seq![out@.last()@]);
                assert(prev + spec_entry_port_paths(ev[i as int]) =~= base
                    + spec_entries_port_paths(ev.take((i + 1) as int)));
            }
        } else {
            proof {
                assert(spec_entry_port_paths(ev[i as int]) =~= Seq::<Seq<char>>::empty());
                assert(prev + spec_entry_port_paths(ev[i as int]) =~= prev);
                assert(base + spec_entries_port_paths(ev.take((i + 1) as int)) =~= prev);
            }
        }
        i += 1;
    }
    proof {
        assert(ev.take(es@.len() as int) =~= ev);
    }
}

/// The file paths a rule document names: the device files of every
/// `include_devices`/`exclude_devices` entry and the port files of
/// every `include_ports` entry, in order of appearance. The caller
/// loads these before reading the rules.
pub fn include_paths(n: &Node) -> (r: (Vec<String>, Vec<String>))
    ensures
        r.0@.map_values(|s: String| s@) == spec_doc_dev_paths(*n),
        r.1@.map_values(|s: String| s@) == spec_doc_port_paths(*n),
{
    let mut dev_out: Vec<String> = Vec::new();
    let mut port_out: Vec<String> = Vec::new();
    proof {
        assert(dev_out@.map_values(|s: String| s@) =~= Seq::<Seq<char>>::empty());
        assert(port_out@.map_values(|s: String| s@) =~= Seq::<Seq<char>>::empty());
    }
    match n.get_list("rules") {
        Some(items) => {
            let ghost iv = items@;
            proof {
                assert(iv.take(0) =~= Seq::<Node>::empty());
                assert(dev_out@.map_values(|s: String| s@) =~= spec_rules_dev_paths(iv.take(0)));
                assert(port_out@.map_values(|s: String| s@) =~= spec_rules_port_paths(iv.take(0)));
            }
            let mut i: usize = 0;
            while i < items.len()
                invariant
                    i <= items.len(),
                    iv == items@,
                    node_get_items(*n, "rules"@) == Some(iv),
                    dev_out@.map_values(|s: String| s@) == spec_rules_dev_paths(iv.take(i as int)),
                    port_out@.map_values(|s: String| s@) == spec_rules_port_paths(
                        iv.take(i as int),
                    ),
                decreases items.len() - i,
            {
                let ghost dev_prev = dev_out@.map_values(|s: String| s@);
                let ghost port_prev = port_out@.map_values(|s: String| s@);
                proof {
                    assert(iv.take((i + 1) as int).drop_last() =~= iv.take(i as int));
                    assert(iv.take((i + 1) as int).last() == iv[i as int]);
                }
                match items[i].get("match") {
                    Some(mn) => {
                        match mn.get_list("devices") {
                            Some(des) => {
                                entry_dev_paths_into(des, &mut dev_out);
                            },
                            None => {
                                proof {
                                    assert(spec_rule_dev_paths(iv[i as int]) =~= Seq::<
                                        Seq<char>,
                                    >::empty());
                                }
                            },
                        }
                        match mn.get_list("ports") {
                            Some(pes) => {
                                entry_port_paths_into(pes, &mut port_out);
                            },
                            None => {
                                proof {
                                    assert(spec_rule_port_paths(iv[i as int]) =~= Seq::<
                                        Seq<char>,
                                    >::empty());
                                }
                            },
                        }
                    },
                    None => {
                        proof {
                            assert(spec_rule_dev_paths(iv[i as int]) =~= Seq::<Seq<char>>::empty());
                            assert(spec_rule_port_paths(iv[i as int]) =~= Seq::<
                                Seq<char>,
                            >::empty());
                        }
                    },
                }
                proof {
                    assert(dev_out@.map_values(|s: String| s@) =~= dev_prev + spec_rule_dev_paths(
                        iv[i as int],
                    ));
                    assert(port_out@.map_values(|s: String| s@) =~= port_prev
                        + spec_rule_port_paths(iv[i as int]));
                }
                i += 1;
            }
            proof {
                assert(iv.take(items@.len() as int) =~= iv);
            }
        },
        None => {},
    }
    (dev_out, port_out)
}


/// The shape of the rule document the create-rule mode emits: the
/// name, command and kind as given, the shell only when it is not the
/// default, and one include entry per named device or port file.
pub open spec fn spec_rule_doc_shape(
    r: Node,
    name: Seq<char>,
    shell: Seq<char>,
    command: Seq<char>,
    on: UsbEvent,
    dpaths: Seq<Seq<char>>,
    ppaths: Seq<Seq<char>>,
) -> bool {
    &&& (match r {
        Node::Dict(es) => es@.len() == (if shell == "/bin/sh"@ {
            3int
        } else {
            4int
        }),
        _ => false,
    })
    &&& node_get_str(r, "name"@) == Some(name)
    &&& (shell == "/bin/sh"@ ==> node_get(r, "command_shell"@) is None)
    &&& (shell != "/bin/sh"@ ==> node_get_str(r, "command_shell"@) == Some(shell))
    &&& node_get_str(r, "command"@) == Some(command)
    &&& match node_get(r, "match"@) {
        Some(mn) => {
            &&& (match mn {
                Node::Dict(mes) => mes@.len() == 1 + (if dpaths.len() > 0 {
                    1int
                } else {
                    0int
                }) + (if ppaths.len() > 0 {
                    1int
                } else {
                    0int
                }),
                _ => false,
            })
            &&& node_get_str(mn, "on"@) == Some(spec_event_label(on))
            &&& (match node_get_items(mn, "devices"@) {
                Some(items) => dpaths.len() > 0 && items.len() == dpaths.len() && (forall|k: int|
                    0 <= k < items.len() ==> node_get_str(#[trigger] items[k], "include_devices"@)
                        == Some(dpaths[k])),
                None => dpaths.len() == 0,
            })
            &&& (match node_get_items(mn, "ports"@) {
                Some(items) => ppaths.len() > 0 && items.len() == ppaths.len() && (forall|k: int|
                    0 <= k < items.len() ==> node_get_str(#[trigger] items[k], "include_ports"@)
                        == Some(ppaths[k])),
                None => ppaths.len() == 0,
            })
        },
        None => false,
    }
}

fn include_items(key: &str, paths: &Vec<String>) -> (r: Vec<Node>)
    ensures
        r@.len() == paths@.len(),
        forall|k: int|
            0 <= k < r@.len() ==> node_get_str(#[trigger] r@[k], key@) == Some(paths@[k]@),
{
    let mut items: Vec<Node> = Vec::new();
    let mut i: usize = 0;
    while i < paths.len()
        invariant
            i <= paths.len(),
            items@.len() == i,
            forall|k: int|
                0 <= k < i ==> node_get_str(#[trigger] items@[k], key@) == Some(paths@[k]@),
        decreases paths.len() - i,
    {
        let mut pair: Vec<(String, Node)> = Vec::new();
        pair.push((key.to_owned(), Node::Str(paths[i].clone())));
        items.push(Node::Dict(pair));
        proof {
            reveal_with_fuel(entries_get, 3);
            assert(node_get_str(items@.last(), key@) == Some(paths@[i as int]@));
        }
        i += 1;
    }
    items
}

/// Build the rule document the create-rule mode prints: one rule whose
/// match clause includes the given device and port files. Empty lists
/// leave their key out, and the default shell is left implicit.
pub fn create_rule_doc(
    name: &str,
    shell: &str,
    command: &str,
    on: UsbEvent,
    device_paths: &Vec<String>,
    port_paths: &Vec<String>,
) -> (r: Node)
    ensures
        spec_rule_doc_shape(
            r,
            name@,
            shell@,
            command@,
            on,
            device_paths@.map_values(|s: String| s@),
            port_paths@.map_values(|s: String| s@),
        ),
{
    let mut match_entries: Vec<(String, Node)> = Vec::new();
    match_entries.push(("on".to_owned(), Node::Str(on.label().to_owned())));
    let ghost dpaths = device_paths@.map_values(|s: String| s@);
    let ghost ppaths = port_paths@.map_values(|s: String| s@);
    let dev_items = include_items("include_devices", device_paths);
    let ghost dev_itemsv = dev_items@;
    if device_paths.len() > 0 {
        match_entries.push(("devices".to_owned(), Node::List(dev_items)));
    }
    let port_items = include_items("include_ports", port_paths);
    let ghost port_itemsv = port_items@;
    if port_paths.len() > 0 {
        match_entries.push(("ports".to_owned(), Node::List(port_items)));
    }
    let mn = Node::Dict(match_entries);
    let ghost mnv = mn;
    proof {
        broadcast use vstd::string::group_string_axioms;

        reveal_strlit("on");
        reveal_strlit("devices");
        reveal_strlit("ports");
        reveal_with_fuel(entries_get, 5);
        assert("on"@.len() == 2 && "devices"@.len() == 7 && "ports"@.len() == 5);
        assert(node_get_str(mnv, "on"@) == Some(spec_event_label(on)));
        if dpaths.len() > 0 {
            assert(node_get_items(mnv, "devices"@) == Some(dev_itemsv));
        } else {
            assert(node_get_items(mnv, "devices"@) is None);
        }
        if ppaths.len() > 0 {
            assert(node_get_items(mnv, "ports"@) == Some(port_itemsv));
        } else {
            assert(node_get_items(mnv, "ports"@) is None);
        }
        assert(match node_get_items(mnv, "devices"@) {
            Some(items) => dpaths.len() > 0 && items.len() == dpaths.len() && (forall|k: int|
                0 <= k < items.len() ==> node_get_str(#[trigger] items[k], "include_devices"@)
                    == Some(dpaths[k])),
            None => dpaths.len() == 0,
        });
        assert(match node_get_items(mnv, "ports"@) {
            Some(items) => ppaths.len() > 0 && items.len() == ppaths.len() && (forall|k: int|
                0 <= k < items.len() ==> node_get_str(#[trigger] items[k], "include_ports"@)
                    == Some(ppaths[k])),
            None => ppaths.len() == 0,
        });
    }
    let mut rule_entries: Vec<(String, Node)> = Vec::new();
    rule_entries.push(("name".to_owned(), Node::Str(name.to_owned())));
    let default_shell: String = "/bin/sh".to_owned();
    let is_default = default_shell.eq(&shell.to_owned());
    if !is_default {
        rule_entries.push(("command_shell".to_owned(), Node::Str(shell.to_owned())));
    }
    rule_entries.push(("command".to_owned(), Node::Str(command.to_owned())));
    rule_entries.push(("match".to_owned(), mn));
    let r = Node::Dict(rule_entries);
    proof {
        broadcast use vstd::string::group_string_axioms;

        reveal_strlit("name");
        reveal_strlit("command_shell");
        reveal_strlit("command");
        reveal_strlit("match");
        reveal_with_fuel(entries_get, 6);
        assert("name"@.len() == 4 && "command_shell"@.len() == 13 && "command"@.len() == 7
            && "match"@.len() == 5);
        assert(node_get_str(r, "name"@) == Some(name@));
        assert(shell@ == "/bin/sh"@ ==> node_get(r, "command_shell"@) is None);
        assert(shell@ != "/bin/sh"@ ==> node_get_str(r, "command_shell"@) == Some(shell@));
        assert(node_get_str(r, "command"@) == Some(command@));
        assert(node_get(r, "match"@) == Some(mnv));
        assert(spec_rule_doc_shape(r, name@, shell@, command@, on, dpaths, ppaths));
    }
    r
}

} // verus!
