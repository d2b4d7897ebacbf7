//! Output selection: the format and color choices the command line
//! offers. The printing machinery itself is part of the surrounding
//! application; here live the choices and their textual forms.

use vstd::prelude::*;

use crate::usb::eq_ignore_ascii_case_spec;

verus! {

/// How records are printed.
#[derive(Copy, Clone, PartialEq, Eq, Structural, Debug)]
pub enum OutFormat {
    Raw,
    Yaml,
}

impl Default for OutFormat {
    fn default() -> (r: Self)
        ensures
            r == OutFormat::Yaml,
    {
        OutFormat::Yaml
    }
}

/// Whether output is colored.
#[derive(Copy, Clone, PartialEq, Eq, Structural, Debug)]
pub enum ColorChoice {
    Always,
    Ansi,
    Auto,
    Never,
}

impl Default for ColorChoice {
    fn default() -> (r: Self)
        ensures
            r == ColorChoice::Auto,
    {
        ColorChoice::Auto
    }
}

/// The colors the printers use.
#[derive(Copy, Clone, PartialEq, Eq, Structural, Debug)]
pub enum Color {
    Black,
    Blue,
    Green,
    Red,
    Cyan,
    Magenta,
    Yellow,
    White,
}

/// The output format named by `s`, compared case-insensitively.
pub open spec fn spec_parse_out_format(s: Seq<char>) -> Option<OutFormat> {
    if eq_ignore_ascii_case_spec(s, "raw"@) {
        Some(OutFormat::Raw)
    } else if eq_ignore_ascii_case_spec(s, "yaml"@) {
        Some(OutFormat::Yaml)
    } else {
        None
    }
}

/// Parse an output format from its name, accepting any mix of ASCII
/// case.
pub fn parse_out_format(s: &str) -> (r: Option<OutFormat>)
    ensures
        r == spec_parse_out_format(s@),
{
    if crate::usb::str_eq_ignore_case(s, "raw") {
        Some(OutFormat::Raw)
    } else if crate::usb::str_eq_ignore_case(s, "yaml") {
        Some(OutFormat::Yaml)
    } else {
        None
    }
}

/// The color choice named by `s`, compared case-insensitively.
pub open spec fn spec_parse_color_choice(s: Seq<char>) -> Option<ColorChoice> {
    if eq_ignore_ascii_case_spec(s, "always"@) {
        Some(ColorChoice::Always)
    } else if eq_ignore_ascii_case_spec(s, "ansi"@) {
        Some(ColorChoice::Ansi)
    } else if eq_ignore_ascii_case_spec(s, "auto"@) {
        Some(ColorChoice::Auto)
    } else if eq_ignore_ascii_case_spec(s, "never"@) {
        Some(ColorChoice::Never)
    } else {
        None
    }
}

/// Parse a color choice from its name, accepting any mix of ASCII case.
pub fn parse_color_choice(s: &str) -> (r: Option<ColorChoice>)
    ensures
        r == spec_parse_color_choice(s@),
{
    if crate::usb::str_eq_ignore_case(s, "always") {
        Some(ColorChoice::Always)
    } else if crate::usb::str_eq_ignore_case(s, "ansi") {
        Some(ColorChoice::Ansi)
    } else if crate::usb::str_eq_ignore_case(s, "auto") {
        Some(ColorChoice::Auto)
    } else if crate::usb::str_eq_ignore_case(s, "never") {
        Some(ColorChoice::Never)
    } else {
        None
    }
}

} // verus!
