//! Single-byte code fields of the NMEA 0183 sentence types.

use vstd::prelude::*;

verus! {

/// GGA fix quality indicator.
#[derive(Debug, Clone, Copy, PartialEq, Eq, Structural)]
#[non_exhaustive]
pub enum GgaFixQuality {
    /// `0` — fix not available.
    Invalid,
    /// `1` — GPS fix.
    GpsFix,
    /// `2` — differential GPS fix.
    DgpsFix,
    /// `3` — PPS fix.
    PpsFix,
    /// `4` — real-time kinematic, fixed integers.
    RtkFixed,
    /// `5` — real-time kinematic, float integers.
    RtkFloat,
    /// `6` — estimated (dead reckoning).
    DeadReckoning,
    /// `7` — manual input mode.
    ManualInput,
    /// `8` — simulation mode.
    Simulator,
    /// Any other byte, carried verbatim.
    Other(u8),
}

pub open spec fn gga_fix_quality_of(b: u8) -> GgaFixQuality {
    if b == 0x30 {
        GgaFixQuality::Invalid
    } else if b == 0x31 {
        GgaFixQuality::GpsFix
    } else if b == 0x32 {
        GgaFixQuality::DgpsFix
    } else if b == 0x33 {
        GgaFixQuality::PpsFix
    } else if b == 0x34 {
        GgaFixQuality::RtkFixed
    } else if b == 0x35 {
        GgaFixQuality::RtkFloat
    } else if b == 0x36 {
        GgaFixQuality::DeadReckoning
    } else if b == 0x37 {
        GgaFixQuality::ManualInput
    } else if b == 0x38 {
        GgaFixQuality::Simulator
    } else {
        GgaFixQuality::Other(b)
    }
}

impl GgaFixQuality {
    /// Map the field's byte to its variant.
    pub fn from_byte(b: u8) -> (r: Self)
        ensures
            r == gga_fix_quality_of(b),
    {
        match b {
            0x30 => Self::Invalid,
            0x31 => Self::GpsFix,
            0x32 => Self::DgpsFix,
            0x33 => Self::PpsFix,
            0x34 => Self::RtkFixed,
            0x35 => Self::RtkFloat,
            0x36 => Self::DeadReckoning,
            0x37 => Self::ManualInput,
            0x38 => Self::Simulator,
            other => Self::Other(other),
        }
    }
}

/// Positioning mode indicator (VTG, RMC).
#[derive(Debug, Clone, Copy, PartialEq, Eq, Structural)]
#[non_exhaustive]
pub enum VtgMode {
    /// `A` — autonomous.
    Autonomous,
    /// `D` — differential.
    Differential,
    /// `E` — estimated (dead reckoning).
    Estimated,
    /// `N` — data not valid.
    NotValid,
    /// `M` — manual input.
    Manual,
    /// `S` — simulator.
    Simulator,
    /// Any other byte, carried verbatim.
    Other(u8),
}

pub open spec fn vtg_mode_of(b: u8) -> VtgMode {
    if b == 0x41 || b == 0x61 {
        VtgMode::Autonomous
    } else if b == 0x44 || b == 0x64 {
        VtgMode::Differential
    } else if b == 0x45 || b == 0x65 {
        VtgMode::Estimated
    } else if b == 0x4E || b == 0x6E {
        VtgMode::NotValid
    } else if b == 0x4D || b == 0x6D {
        VtgMode::Manual
    } else if b == 0x53 || b == 0x73 {
        VtgMode::Simulator
    } else {
        VtgMode::Other(b)
    }
}

impl VtgMode {
    /// Map the field's byte to its variant.
    pub fn from_byte(b: u8) -> (r: Self)
        ensures
            r == vtg_mode_of(b),
    {
        match b {
            0x41 | 0x61 => Self::Autonomous,
            0x44 | 0x64 => Self::Differential,
            0x45 | 0x65 => Self::Estimated,
            0x4E | 0x6E => Self::NotValid,
            0x4D | 0x6D => Self::Manual,
            0x53 | 0x73 => Self::Simulator,
            other => Self::Other(other),
        }
    }
}

/// RMC navigational status (NMEA 4.10+).
#[derive(Debug, Clone, Copy, PartialEq, Eq, Structural)]
#[non_exhaustive]
pub enum RmcNavStatus {
    /// `S` — safe.
    Safe,
    /// `C` — caution.
    Caution,
    /// `U` — unsafe.
    Unsafe,
    /// `V` — navigational status not valid.
    NotValid,
    /// Any other byte, carried verbatim.
    Other(u8),
}

pub open spec fn rmc_nav_status_of(b: u8) -> RmcNavStatus {
    if b == 0x53 || b == 0x73 {
        RmcNavStatus::Safe
    } else if b == 0x43 || b == 0x63 {
        RmcNavStatus::Caution
    } else if b == 0x55 || b == 0x75 {
        RmcNavStatus::Unsafe
    } else if b == 0x56 || b == 0x76 {
        RmcNavStatus::NotValid
    } else {
        RmcNavStatus::Other(b)
    }
}

impl RmcNavStatus {
    /// Map the field's byte to its variant.
    pub fn from_byte(b: u8) -> (r: Self)
        ensures
            r == rmc_nav_status_of(b),
    {
        match b {
            0x53 | 0x73 => Self::Safe,
            0x43 | 0x63 => Self::Caution,
            0x55 | 0x75 => Self::Unsafe,
            0x56 | 0x76 => Self::NotValid,
            other => Self::Other(other),
        }
    }
}

/// Reference of a bearing or course (TTM).
#[derive(Debug, Clone, Copy, PartialEq, Eq, Structural)]
#[non_exhaustive]
pub enum AngleReference {
    /// `T` — true.
    True,
    /// `R` — relative.
    Relative,
    /// Any other byte, carried verbatim.
    Other(u8),
}

pub open spec fn angle_reference_of(b: u8) -> AngleReference {
    if b == 0x54 || b == 0x74 {
        AngleReference::True
    } else if b == 0x52 || b == 0x72 {
        AngleReference::Relative
    } else {
        AngleReference::Other(b)
    }
}

impl AngleReference {
    /// Map the field's byte to its variant.
    pub fn from_byte(b: u8) -> (r: Self)
        ensures
            r == angle_reference_of(b),
    {
        match b {
            0x54 | 0x74 => Self::True,
            0x52 | 0x72 => Self::Relative,
            other => Self::Other(other),
        }
    }
}

/// Units of distance and speed (TTM).
#[derive(Debug, Clone, Copy, PartialEq, Eq, Structural)]
#[non_exhaustive]
pub enum DistanceUnits {
    /// `N` — nautical miles, knots.
    Nautical,
    /// `K` — kilometres, km/h.
    Kilometers,
    /// `S` — statute miles, mph.
    Statute,
    /// Any other byte, carried verbatim.
    Other(u8),
}

pub open spec fn distance_units_of(b: u8) -> DistanceUnits {
    if b == 0x4E || b == 0x6E {
        DistanceUnits::Nautical
    } else if b == 0x4B || b == 0x6B {
        DistanceUnits::Kilometers
    } else if b == 0x53 || b == 0x73 {
        DistanceUnits::Statute
    } else {
        DistanceUnits::Other(b)
    }
}

impl DistanceUnits {
    /// Map the field's byte to its variant.
    pub fn from_byte(b: u8) -> (r: Self)
        ensures
            r == distance_units_of(b),
    {
        match b {
            0x4E | 0x6E => Self::Nautical,
            0x4B | 0x6B => Self::Kilometers,
            0x53 | 0x73 => Self::Statute,
            other => Self::Other(other),
        }
    }
}

/// Type of target acquisition (TTM).
#[derive(Debug, Clone, Copy, PartialEq, Eq, Structural)]
#[non_exhaustive]
pub enum AcquisitionType {
    /// `A` — automatic.
    Automatic,
    /// `M` — manual.
    Manual,
    /// `R` — reported.
    Reported,
    /// Any other byte, carried verbatim.
    Other(u8),
}

pub open spec fn acquisition_type_of(b: u8) -> AcquisitionType {
    if b == 0x41 || b == 0x61 {
        AcquisitionType::Automatic
    } else if b == 0x4D || b == 0x6D {
        AcquisitionType::Manual
    } else if b == 0x52 || b == 0x72 {
        AcquisitionType::Reported
    } else {
        AcquisitionType::Other(b)
    }
}

impl AcquisitionType {
    /// Map the field's byte to its variant.
    pub fn from_byte(b: u8) -> (r: Self)
        ensures
            r == acquisition_type_of(b),
    {
        match b {
            0x41 | 0x61 => Self::Automatic,
            0x4D | 0x6D => Self::Manual,
            0x52 | 0x72 => Self::Reported,
            other => Self::Other(other),
        }
    }
}

} // verus!
