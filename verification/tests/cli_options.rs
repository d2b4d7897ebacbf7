//! The command-line facing types: context defaults, verbosity levels
//! and the format/color choices.

use usbwatch::ctx::Ctx;
use usbwatch::log::LogLevel;
use usbwatch::printer::{parse_color_choice, parse_out_format, ColorChoice, OutFormat};
use usbwatch::usb::{UsbDevice, UsbDevices, UsbPort, UsbPorts};

#[test]
fn ctx_defaults_and_event_bound() {
    let mut ctx = Ctx::default();
    assert_eq!(ctx.verbose, 0);
    assert!(!ctx.tracing);
    assert_eq!(ctx.format, OutFormat::Yaml);
    assert_eq!(ctx.color, ColorChoice::Auto);
    ctx.set_num_events(0);
    assert_eq!(ctx.num_events, usize::MAX);
    ctx.set_num_events(7);
    assert_eq!(ctx.num_events, 7);
}

#[test]
fn log_levels_from_flags() {
    assert_eq!(LogLevel::from_flags(0, 0), LogLevel::Info);
    assert_eq!(LogLevel::from_flags(0, 1), LogLevel::Warn);
    assert_eq!(LogLevel::from_flags(0, 2), LogLevel::Error);
    assert_eq!(LogLevel::from_flags(0, 3), LogLevel::Off);
    assert_eq!(LogLevel::from_flags(1, 0), LogLevel::Debug);
    assert_eq!(LogLevel::from_flags(2, 5), LogLevel::Trace);
}

#[test]
fn log_levels_gate_messages() {
    assert!(LogLevel::Info.shows(&LogLevel::Error));
    assert!(LogLevel::Info.shows(&LogLevel::Info));
    assert!(!LogLevel::Info.shows(&LogLevel::Debug));
    assert!(!LogLevel::Off.shows(&LogLevel::Error));
}

#[test]
fn format_and_color_parse_case_insensitively() {
    assert_eq!(parse_out_format("raw"), Some(OutFormat::Raw));
    assert_eq!(parse_out_format("YAML"), Some(OutFormat::Yaml));
    assert_eq!(parse_out_format("xml"), None);
    assert_eq!(parse_color_choice("Always"), Some(ColorChoice::Always));
    assert_eq!(parse_color_choice("ansi"), Some(ColorChoice::Ansi));
    assert_eq!(parse_color_choice("AUTO"), Some(ColorChoice::Auto));
    assert_eq!(parse_color_choice("never"), Some(ColorChoice::Never));
    assert_eq!(parse_color_choice("sometimes"), None);
}

#[test]
fn record_lists_hold_their_records() {
    let devices = UsbDevices { devices: vec![UsbDevice::new("stick")] };
    assert_eq!(devices.devices.len(), 1);
    assert_eq!(devices.devices[0].name, Some("stick".to_string()));
    assert!(devices.devices[0].is_empty());

    let ports = UsbPorts { ports: vec![UsbPort::new("left")] };
    assert_eq!(ports.ports.len(), 1);
    assert!(ports.ports[0].is_empty());
}
