//! Power and battery status records.
//!
//! Reading the battery and toggling sleep inhibition are host-layer work;
//! this module holds the record those probes produce.

use vstd::prelude::*;

verus! {

/// System power and battery status.
#[derive(Debug, Clone, PartialEq)]
pub struct PowerStatus {
    /// Whether the machine draws AC power.
    pub is_ac_power: bool,
    /// Whether the battery is charging.
    pub is_charging: bool,
    /// Battery charge in percent, when a battery is present.
    pub battery_percentage: Option<u8>,
    /// Estimated time remaining, as the platform words it.
    pub time_remaining: Option<String>,
    /// Whether a power-save mode is active.
    pub is_power_save_mode: bool,
}

} // verus!
