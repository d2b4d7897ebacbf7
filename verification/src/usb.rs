//! Event kinds observed on the USB subsystem, and their textual form.

pub mod device;
pub mod port;

pub use device::{UsbDevice, UsbDevices};
pub use port::{UsbPort, UsbPorts};

use vstd::prelude::*;

verus! {

/// The kind of a hot-plug event. `All` is a wildcard used only in rule
/// predicates; events normalized from the operating system never carry it.
#[derive(Copy, Clone, PartialEq, Eq, Structural, Debug)]
pub enum UsbEvent {
    Add,
    Bind,
    Unbind,
    Remove,
    Change,
    Unknown,
    All,
}

impl Default for UsbEvent {
    fn default() -> (r: Self)
        ensures
            r == UsbEvent::All,
    {
        UsbEvent::All
    }
}

/// The character code of `c` with ASCII upper-case letters folded to
/// lower case; all other characters are left as they are.
pub open spec fn lower_code(c: char) -> int {
    if 65 <= c as int <= 90 {
        c as int + 32
    } else {
        c as int
    }
}

/// Two character sequences are equal once ASCII letters are compared
/// without regard to case.
pub open spec fn eq_ignore_ascii_case_spec(a: Seq<char>, b: Seq<char>) -> bool {
    a.len() == b.len() && forall|i: int| 0 <= i < a.len() ==> lower_code(a[i]) == lower_code(b[i])
}

/// Relies on str::eq_ignore_ascii_case: the strings match when ASCII
/// letters are compared case-insensitively and every other character
/// is compared exactly.
#[verifier::external_body]
pub(crate) fn str_eq_ignore_case(a: &str, b: &str) -> (r: bool)
    ensures
        r == eq_ignore_ascii_case_spec(a@, b@),
{
    a.eq_ignore_ascii_case(b)
}

/// The event kind named by `s`, compared case-insensitively; `None`
/// when `s` names no kind.
pub open spec fn spec_parse_usb_event(s: Seq<char>) -> Option<UsbEvent> {
    if eq_ignore_ascii_case_spec(s, "add"@) {
        Some(UsbEvent::Add)
    } else if eq_ignore_ascii_case_spec(s, "bind"@) {
        Some(UsbEvent::Bind)
    } else if eq_ignore_ascii_case_spec(s, "unbind"@) {
        Some(UsbEvent::Unbind)
    } else if eq_ignore_ascii_case_spec(s, "remove"@) {
        Some(UsbEvent::Remove)
    } else if eq_ignore_ascii_case_spec(s, "change"@) {
        Some(UsbEvent::Change)
    } else if eq_ignore_ascii_case_spec(s, "unknown"@) {
        Some(UsbEvent::Unknown)
    } else if eq_ignore_ascii_case_spec(s, "all"@) {
        Some(UsbEvent::All)
    } else {
        None
    }
}

/// Parse an event kind from its lower-case name, accepting any mix of
/// ASCII case.
pub fn parse_usb_event(s: &str) -> (r: Option<UsbEvent>)
    ensures
        r == spec_parse_usb_event(s@),
{
    if str_eq_ignore_case(s, "add") {
        Some(UsbEvent::Add)
    } else if str_eq_ignore_case(s, "bind") {
        Some(UsbEvent::Bind)
    } else if str_eq_ignore_case(s, "unbind") {
        Some(UsbEvent::Unbind)
    } else if str_eq_ignore_case(s, "remove") {
        Some(UsbEvent::Remove)
    } else if str_eq_ignore_case(s, "change") {
        Some(UsbEvent::Change)
    } else if str_eq_ignore_case(s, "unknown") {
        Some(UsbEvent::Unknown)
    } else if str_eq_ignore_case(s, "all") {
        Some(UsbEvent::All)
    } else {
        None
    }
}

/// The lower-case name of each event kind.
pub open spec fn spec_event_label(e: UsbEvent) -> Seq<char> {
    match e {
        UsbEvent::Add => "add"@,
        UsbEvent::Bind => "bind"@,
        UsbEvent::Unbind => "unbind"@,
        UsbEvent::Remove => "remove"@,
        UsbEvent::Change => "change"@,
        UsbEvent::Unknown => "unknown"@,
        UsbEvent::All => "all"@,
    }
}

impl UsbEvent {
    /// The lower-case name of this kind, as written in rule files.
    pub fn label(&self) -> (r: &'static str)
        ensures
            r@ == spec_event_label(*self),
    {
        match self {
            UsbEvent::Add => "add",
            UsbEvent::Bind => "bind",
            UsbEvent::Unbind => "unbind",
            UsbEvent::Remove => "remove",
            UsbEvent::Change => "change",
            UsbEvent::Unknown => "unknown",
            UsbEvent::All => "all",
        }
    }
}

/// Whether a listen-mode filter set to `filter` selects an event of
/// kind `kind`: either the kinds agree or the filter is the wildcard.
pub fn event_selected(filter: &UsbEvent, kind: &UsbEvent) -> (r: bool)
    ensures
        r == (filter == kind || *filter == UsbEvent::All),
{
    filter == kind || *filter == UsbEvent::All
}

} // verus!
