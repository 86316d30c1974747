//! Host-side dispatch engine for GPU compute kernels: dispatch geometry,
//! the byte layout shared with the kernels, the scene records of the ray
//! tracer and the read-back protocol.
use vstd::prelude::*;

pub mod binding;
pub mod chunks;
pub mod cli;
pub mod counted;
pub mod dispatch;
pub mod kernel_text;
pub mod layout;
pub mod ppm;
pub mod readback;
pub mod shaders;
pub mod vector;

verus! {

/// What can go wrong between acquiring a device and reading results back.
#[derive(Clone, Copy, Debug, PartialEq, Eq, Structural)]
pub enum Error {
    /// No compatible compute device was found.
    DeviceNotFound,
    /// A device was found but the connection to it failed.
    DeviceRequestFailed,
    /// Bytes read back are shorter than the layout they should hold.
    LayoutMismatch,
    /// The task that waits for the device could not run to completion.
    PollTaskFailed,
    /// The device failed to map a staging buffer for reading.
    MapFailed,
}

} // verus!
