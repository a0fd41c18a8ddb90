//! Verified core of a WiFi hotspot manager.
//!
//! The library owns the logic of the system: the configuration record and
//! its on-disk JSON format, the parsers for the network manager's command
//! output, the coordination state machine that serializes toggle commands
//! against status polling, the presentation reducer with its message hold
//! counter, and the settings protocol. All process invocation, file and
//! channel I/O lives outside the library, which exchanges plain values
//! with that shell.

pub mod adapter;
pub mod config;
pub mod coordinator;
pub mod jsonio;
pub mod reducer;
pub mod ripple;
pub mod settings;
pub mod settings_page;
pub mod strutil;

use vstd::prelude::*;

verus! {

} // verus!
