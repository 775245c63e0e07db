//! The errors that reach a caller.

use vstd::prelude::*;

verus! {

/// A listener could not be opened on its port.
#[derive(Debug, Clone, Copy, PartialEq, Eq)]
pub struct BindError {
    /// The port that was asked for.
    pub port: u16,
}

/// A command was sent to a device that has no live session.
#[derive(Debug, Clone, Copy, PartialEq, Eq)]
pub struct NotConnected {
    pub device_id: i32,
}

impl NotConnected {
    /// The words for the caller.
    pub fn message(&self) -> (text: &'static str)
        ensures
            text@ == "Device not connected"@,
    {
        "Device not connected"
    }
}

} // verus!
