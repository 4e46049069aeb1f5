//! Wooting Switch: selects the onboard profile of a Wooting keyboard that
//! belongs to the operating system the keyboard is attached to.
//!
//! The library holds the logic of the tool: the HID command protocol
//! (report framing, response validation, heartbeat and metadata decoding),
//! the profile-switch and watcher decision procedures, configuration
//! validation and scoped updates, profile discovery with its fallback order,
//! and the authenticated loopback control protocol.
use vstd::prelude::*;

pub mod config;
pub mod ipc;
pub mod profiles;
pub mod protocol;
pub mod switch;
pub mod text;
pub mod watcher;
pub mod wootility;

verus! {

} // verus!
