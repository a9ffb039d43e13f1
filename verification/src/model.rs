//! Normalised telemetry: the device settings read back from the stream and the status
//! flag bitmask of a snapshot.
use vstd::prelude::*;

pub mod status;

verus! {

/// Current device settings read back from the telemetry stream, so the control UI can
/// show real values instead of guesses: charge/discharge limits live in the EMS pack,
/// the rest in the src=0x05 config pack.
#[derive(Debug, Clone, Copy, PartialEq, Eq)]
pub struct DeviceSettings {
    pub ac_enabled: Option<bool>,
    pub xboost_enabled: Option<bool>,
    pub dc_enabled: Option<bool>,
    pub dc_mode: Option<u8>,
    pub ac_charge_watts: Option<u16>,
    pub car_input_ma: Option<u16>,
    pub charge_limit: Option<u8>,
    pub discharge_limit: Option<u8>,
    pub unit_timeout_min: Option<u16>,
    pub screen_timeout_sec: Option<u16>,
    pub ac_timeout_min: Option<u16>,
}

/// Settings with nothing read back yet.
pub open spec fn empty_settings() -> DeviceSettings {
    DeviceSettings {
        ac_enabled: None,
        xboost_enabled: None,
        dc_enabled: None,
        dc_mode: None,
        ac_charge_watts: None,
        car_input_ma: None,
        charge_limit: None,
        discharge_limit: None,
        unit_timeout_min: None,
        screen_timeout_sec: None,
        ac_timeout_min: None,
    }
}

impl Default for DeviceSettings {
    fn default() -> (r: Self)
        ensures
            r == empty_settings(),
    {
        DeviceSettings {
            ac_enabled: None,
            xboost_enabled: None,
            dc_enabled: None,
            dc_mode: None,
            ac_charge_watts: None,
            car_input_ma: None,
            charge_limit: None,
            discharge_limit: None,
            unit_timeout_min: None,
            screen_timeout_sec: None,
            ac_timeout_min: None,
        }
    }
}

} // verus!
