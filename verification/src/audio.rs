//! Audio device records.
//!
//! Device discovery and switching shell out to platform utilities in the
//! host layer; this module holds the record those probes fill in.

use vstd::prelude::*;

verus! {

/// Whether a device records or plays.
#[derive(Debug, Clone, Copy, PartialEq, Eq, Structural)]
pub enum AudioDeviceType {
    /// A microphone or other capture device.
    Input,
    /// A speaker, headphone or other playback device.
    Output,
}

/// One audio device as the platform reports it.
#[derive(Debug, Clone, PartialEq)]
pub struct AudioDevice {
    /// Platform identifier of the device.
    pub id: String,
    /// Human-readable device name.
    pub name: String,
    /// Whether this is the current default device of its kind.
    pub is_default: bool,
    /// Capture or playback.
    pub device_type: AudioDeviceType,
}

} // verus!
