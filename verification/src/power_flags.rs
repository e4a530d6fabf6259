//! Bit flags carried in `WeatherPacket::power_flags`.

use vstd::prelude::*;

verus! {

/// SOC has fallen below the low-battery threshold (default 20 %).
pub const LOW_SOC: u8 = 1;

/// Battery is currently discharging: no net solar harvest.
pub const NEGATIVE_TREND: u8 = 2;

/// Solar charger is actively delivering current to the battery.
pub const CHARGING: u8 = 4;

/// SOC has fallen below the critical threshold (default 10 %); the gateway
/// should alert immediately.
pub const CRITICAL_SOC: u8 = 8;

} // verus!
