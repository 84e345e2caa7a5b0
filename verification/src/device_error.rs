//! The failure cases a device operation can report.

use vstd::prelude::*;

verus! {

/// Every public device operation returns one of these on failure; there is no
/// silent failure path.
#[derive(Clone, Copy, Debug, PartialEq, Eq, Structural)]
pub enum DeviceError {
    /// The requested block range is empty or runs past the device capacity.
    InvalidRange,
    /// The supplied buffer holds a different number of blocks than requested.
    BufferSizeMismatch,
    /// The medium failed; carries the raw completion or I/O code for
    /// diagnostics (`-1` where no code is available).
    MediumError(i32),
    /// A load was attempted while no durable store exists.
    NotFound,
    /// Construction was attempted with an invalid size.
    ConfigError,
}

} // verus!
