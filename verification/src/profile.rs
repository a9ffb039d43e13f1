//! Device profiles: map a device family to its telemetry decoder, capabilities and
//! validation status.
use vstd::prelude::*;

use crate::river::{fresh_state, RiverState};

verus! {

/// Whether a profile's decoding has been validated on hardware.
#[derive(Debug, Clone, Copy, PartialEq, Eq)]
pub enum ValidationStatus {
    Validated,
    Beta,
}

/// What a profile can do.
#[derive(Debug, Clone)]
pub struct Capabilities {
    /// Command identifiers this profile can encode (none yet).
    pub commands: Vec<&'static str>,
}

/// Errors of profile operations.
#[derive(Debug, Clone, Copy, PartialEq, Eq)]
pub enum CoreError {
    Unsupported,
}

impl CoreError {
    /// The error's message.
    pub fn message(&self) -> (m: &'static str)
        ensures
            m == "operation not supported by this profile",
    {
        match self {
            CoreError::Unsupported => "operation not supported by this profile",
        }
    }
}

/// A device family: the validated River profile, or a generic beta profile that reuses
/// the River decoder but is flagged unvalidated.
#[derive(Debug, Clone, Copy, PartialEq, Eq)]
pub enum Profile {
    River,
    GenericBeta,
}

/// Whether a serial names a River device (`R6` prefix).
pub open spec fn is_river_serial(serial: Option<Seq<char>>) -> bool {
    match serial {
        Some(s) => s.len() >= 2 && s[0] == 'R' && s[1] == '6',
        None => false,
    }
}

/// The view of an optional string.
pub open spec fn opt_str_view(s: Option<&str>) -> Option<Seq<char>> {
    match s {
        Some(x) => Some(x@),
        None => None,
    }
}

/// Resolve a device to its profile by serial prefix. River serials start with `R6`.
pub fn profile_for(serial: Option<&str>, _product_type: u8) -> (p: Profile)
    ensures
        p == (if is_river_serial(opt_str_view(serial)) {
            Profile::River
        } else {
            Profile::GenericBeta
        }),
{
    match serial {
        Some(s) => {
            if s.unicode_len() >= 2 && s.get_char(0) == 'R' && s.get_char(1) == '6' {
                Profile::River
            } else {
                Profile::GenericBeta
            }
        },
        None => Profile::GenericBeta,
    }
}

impl Profile {
    /// The profile's identifier.
    pub fn id(&self) -> (r: &'static str)
        ensures
            r == (match self {
                Profile::River => "river",
                Profile::GenericBeta => "generic-beta",
            }),
    {
        match self {
            Profile::River => "river",
            Profile::GenericBeta => "generic-beta",
        }
    }

    /// The profile's validation status.
    pub fn validation(&self) -> (r: ValidationStatus)
        ensures
            r == (match self {
                Profile::River => ValidationStatus::Validated,
                Profile::GenericBeta => ValidationStatus::Beta,
            }),
    {
        match self {
            Profile::River => ValidationStatus::Validated,
            Profile::GenericBeta => ValidationStatus::Beta,
        }
    }

    /// The profile's capabilities (no encodable commands yet).
    pub fn capabilities(&self) -> (r: Capabilities)
        ensures
            r.commands@ == Seq::<&'static str>::empty(),
    {
        Capabilities { commands: Vec::new() }
    }

    /// A fresh decoder for one live connection (both profiles use the River decoder).
    pub fn new_decoder(&self, serial: Option<String>) -> (d: RiverState)
        ensures
            d == fresh_state(serial),
    {
        RiverState::new(serial)
    }
}

} // verus!
