//! The two switches that the configuration provider offers.

use vstd::prelude::*;

verus! {

/// The settings read at the start of a session.
#[derive(Clone, Copy, Debug, PartialEq, Eq, Structural)]
pub struct Config {
    /// Try a hardware device before the software device.
    pub prefer_hardware: bool,
    /// Write the debug log.
    pub debug_logging: bool,
}

/// Whether a stored value switches its setting on: only the value 1 does.
pub open spec fn enabled(value: Option<u32>) -> bool {
    value == Some(1u32)
}

/// Tells whether a stored value switches its setting on. A value that is
/// missing or is not 1 leaves the setting off.
pub fn flag_enabled(value: Option<u32>) -> (b: bool)
    ensures
        b == enabled(value),
{
    match value {
        Some(v) => v == 1,
        None => false,
    }
}

impl Config {
    /// The settings that the stored values stand for.
    pub fn from_values(hardware: Option<u32>, logging: Option<u32>) -> (c: Config)
        ensures
            c == (Config { prefer_hardware: enabled(hardware), debug_logging: enabled(logging) }),
    {
        Config { prefer_hardware: flag_enabled(hardware), debug_logging: flag_enabled(logging) }
    }
}

} // verus!
