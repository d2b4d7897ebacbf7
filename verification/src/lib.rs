//! Core of a USB hot-plug watcher: typed device/port records with
//! partial-field equality, a rule matching engine, an attachment-state
//! tracker, the event ingest filter, the dispatcher that plans child
//! commands for matching rules, and a loader for rule documents.
//!
//! Everything here is pure logic on plain values; reading the kernel
//! event stream, files, signals and process spawning live in the
//! surrounding application.

pub mod ctx;
pub mod dispatch;
pub mod ingest;
pub mod loader;
pub mod log;
pub mod node;
pub mod printer;
pub mod rule;
pub mod shutdown;
pub mod state;
pub mod udev;
pub mod usb;
