//! Status indicator fields.

use vstd::prelude::*;

verus! {

/// Data validity status (A/V), shared by RMC and GLL.
#[derive(Debug, Clone, Copy, PartialEq, Eq, Structural)]
#[non_exhaustive]
pub enum DataStatus {
    /// `A` — data valid.
    Active,
    /// `V` — data invalid.
    Void,
    /// Any other byte, carried verbatim.
    Other(u8),
}

pub open spec fn data_status_of(b: u8) -> DataStatus {
    if b == 0x41 || b == 0x61 {
        DataStatus::Active
    } else if b == 0x56 || b == 0x76 {
        DataStatus::Void
    } else {
        DataStatus::Other(b)
    }
}

impl DataStatus {
    /// Map the field's byte to its variant.
    pub fn from_byte(b: u8) -> (r: Self)
        ensures
            r == data_status_of(b),
    {
        match b {
            0x41 | 0x61 => Self::Active,
            0x56 | 0x76 => Self::Void,
            other => Self::Other(other),
        }
    }
}

/// Tracked-target status (TTM and TLL).
#[derive(Debug, Clone, Copy, PartialEq, Eq, Structural)]
#[non_exhaustive]
pub enum TargetStatus {
    /// `L` — target lost.
    Lost,
    /// `Q` — target being acquired.
    Query,
    /// `T` — target tracked.
    Tracking,
    /// Any other byte, carried verbatim.
    Other(u8),
}

pub open spec fn target_status_of(b: u8) -> TargetStatus {
    if b == 0x4C || b == 0x6C {
        TargetStatus::Lost
    } else if b == 0x51 || b == 0x71 {
        TargetStatus::Query
    } else if b == 0x54 || b == 0x74 {
        TargetStatus::Tracking
    } else {
        TargetStatus::Other(b)
    }
}

impl TargetStatus {
    /// Map the field's byte to its variant.
    pub fn from_byte(b: u8) -> (r: Self)
        ensures
            r == target_status_of(b),
    {
        match b {
            0x4C | 0x6C => Self::Lost,
            0x51 | 0x71 => Self::Query,
            0x54 | 0x74 => Self::Tracking,
            other => Self::Other(other),
        }
    }
}

} // verus!
