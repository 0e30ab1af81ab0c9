//! Class A position reports — AIS message types 1, 2 and 3 (one shared
//! 168-bit layout).
//!
//! Quantities are kept as their wire integers; the "not available"
//! sentinels map to `None`: rate of turn −128, speed 1023, longitude
//! 181° (108 600 000 × 10⁻⁴ min), latitude 91° (54 600 000 × 10⁻⁴ min),
//! course 3600, heading 511.

use vstd::prelude::*;
use vstd::arithmetic::power2::lemma2_to64;
use crate::ais::bit_reader::BitReader;
use crate::ais::error::AisError;
use crate::ais::fields::{read_flag, read_i32, read_u16, read_u32, read_u8, sf, skip, uf};

verus! {

/// Navigation status field — 4 bits. Values 9..=13 are reserved and kept verbatim.
#[derive(Debug, Clone, Copy, PartialEq, Eq, Structural)]
#[non_exhaustive]
pub enum NavStatus {
    /// 0 — under way using engine.
    UnderwayUsingEngine,
    /// 1 — at anchor.
    AtAnchor,
    /// 2 — not under command.
    NotUnderCommand,
    /// 3 — restricted maneuverability.
    RestrictedManeuverability,
    /// 4 — constrained by her draft.
    ConstrainedByDraft,
    /// 5 — moored.
    Moored,
    /// 6 — aground.
    Aground,
    /// 7 — engaged in fishing.
    EngagedInFishing,
    /// 8 — under way sailing.
    UnderwaySailing,
    /// 14 — AIS-SART is active.
    AisSartActive,
    /// 15 — not defined (default).
    NotDefined,
    /// Reserved values (9..=13), carried verbatim.
    Reserved(u8),
}

pub open spec fn nav_status_of(v: u8) -> NavStatus {
    if v == 0 {
        NavStatus::UnderwayUsingEngine
    } else if v == 1 {
        NavStatus::AtAnchor
    } else if v == 2 {
        NavStatus::NotUnderCommand
    } else if v == 3 {
        NavStatus::RestrictedManeuverability
    } else if v == 4 {
        NavStatus::ConstrainedByDraft
    } else if v == 5 {
        NavStatus::Moored
    } else if v == 6 {
        NavStatus::Aground
    } else if v == 7 {
        NavStatus::EngagedInFishing
    } else if v == 8 {
        NavStatus::UnderwaySailing
    } else if v == 14 {
        NavStatus::AisSartActive
    } else if v == 15 {
        NavStatus::NotDefined
    } else {
        NavStatus::Reserved(v)
    }
}

impl NavStatus {
    /// Map the 4-bit navigation status code to its variant.
    pub fn from_u4(v: u8) -> (s: Self)
        ensures
            s == nav_status_of(v),
    {
        match v {
            0 => Self::UnderwayUsingEngine,
            1 => Self::AtAnchor,
            2 => Self::NotUnderCommand,
            3 => Self::RestrictedManeuverability,
            4 => Self::ConstrainedByDraft,
            5 => Self::Moored,
            6 => Self::Aground,
            7 => Self::EngagedInFishing,
            8 => Self::UnderwaySailing,
            14 => Self::AisSartActive,
            15 => Self::NotDefined,
            other => Self::Reserved(other),
        }
    }
}

/// Special maneuver indicator — 2 bits.
#[derive(Debug, Clone, Copy, PartialEq, Eq, Structural)]
#[non_exhaustive]
pub enum ManeuverIndicator {
    /// 0 — not available (default).
    NotAvailable,
    /// 1 — no special maneuver.
    NoSpecial,
    /// 2 — special maneuver.
    Special,
    /// 3 — reserved.
    Reserved,
}

pub open spec fn maneuver_of(v: u8) -> ManeuverIndicator {
    if v == 1 {
        ManeuverIndicator::NoSpecial
    } else if v == 2 {
        ManeuverIndicator::Special
    } else if v == 3 {
        ManeuverIndicator::Reserved
    } else {
        ManeuverIndicator::NotAvailable
    }
}

impl ManeuverIndicator {
    /// Map the 2-bit maneuver code to its variant (other values read as
    /// not available).
    pub fn from_u2(v: u8) -> (m: Self)
        ensures
            m == maneuver_of(v),
    {
        match v {
            1 => Self::NoSpecial,
            2 => Self::Special,
            3 => Self::Reserved,
            _ => Self::NotAvailable,
        }
    }
}

/// Decoded Class A position report (AIS Type 1, 2 or 3), with wire integers.
#[derive(Debug, Clone, Copy, PartialEq, Eq, Structural)]
pub struct PositionReportA {
    /// Maritime Mobile Service Identity of the reporting vessel.
    pub mmsi: u32,
    /// Navigation status.
    pub navigation_status: NavStatus,
    /// The `ROT_AIS` rate-of-turn indicator; `None` for the sentinel −128.
    pub rate_of_turn_raw: Option<i8>,
    /// Speed over ground in tenths of a knot; `None` for the sentinel 1023.
    pub speed_over_ground_raw: Option<u16>,
    /// Position accuracy flag (`true` = DGNSS-corrected).
    pub position_accuracy: bool,
    /// Longitude in 1/10 000 minute, east positive; `None` for 181°.
    pub longitude_raw: Option<i32>,
    /// Latitude in 1/10 000 minute, north positive; `None` for 91°.
    pub latitude_raw: Option<i32>,
    /// Course over ground in tenths of a degree; `None` for the sentinel 3600.
    pub course_over_ground_raw: Option<u16>,
    /// True heading in degrees; `None` for the sentinel 511.
    pub true_heading: Option<u16>,
    /// Raw timestamp: seconds 0..=59, 60 = not available, 61..=63 status.
    pub timestamp: u8,
    /// Special maneuver indicator.
    pub special_maneuver: ManeuverIndicator,
    /// RAIM flag.
    pub raim: bool,
    /// Radio status, 19 bits.
    pub radio_status: u32,
}

/// Minimum payload size for Types 1/2/3.
pub const POSITION_REPORT_A_BITS: usize = 168;

/// Longitude sentinel: 181° in 1/10 000 minute.
pub const LON_NOT_AVAILABLE: i32 = 108_600_000;

/// Latitude sentinel: 91° in 1/10 000 minute.
pub const LAT_NOT_AVAILABLE: i32 = 54_600_000;

/// An unsigned field, `None` when it equals `sentinel`.
pub open spec fn unless_u(v: nat, sentinel: nat) -> Option<nat> {
    if v == sentinel {
        None
    } else {
        Some(v)
    }
}

pub open spec fn opt_u16_of(o: Option<nat>) -> Option<u16> {
    match o {
        Some(v) => Some(v as u16),
        None => None,
    }
}

pub open spec fn opt_i32_of(v: int, sentinel: int) -> Option<i32> {
    if v == sentinel {
        None
    } else {
        Some(v as i32)
    }
}

/// The report the 168-bit layout of types 1/2/3 spells at the front of the stream.
pub open spec fn position_report_a_of(b: Seq<u8>, t: int) -> PositionReportA {
    PositionReportA {
        mmsi: uf(b, t, 8, 30) as u32,
        navigation_status: nav_status_of(uf(b, t, 38, 4) as u8),
        rate_of_turn_raw: if sf(b, t, 42, 8) == -128 {
            None
        } else {
            Some(sf(b, t, 42, 8) as i8)
        },
        speed_over_ground_raw: opt_u16_of(unless_u(uf(b, t, 50, 10), 1023)),
        position_accuracy: uf(b, t, 60, 1) == 1,
        longitude_raw: opt_i32_of(sf(b, t, 61, 28), LON_NOT_AVAILABLE as int),
        latitude_raw: opt_i32_of(sf(b, t, 89, 27), LAT_NOT_AVAILABLE as int),
        course_over_ground_raw: opt_u16_of(unless_u(uf(b, t, 116, 12), 3600)),
        true_heading: opt_u16_of(unless_u(uf(b, t, 128, 9), 511)),
        timestamp: uf(b, t, 137, 6) as u8,
        special_maneuver: maneuver_of(uf(b, t, 143, 2) as u8),
        raim: uf(b, t, 148, 1) == 1,
        radio_status: uf(b, t, 149, 19) as u32,
    }
}

/// Speed, position and course fields shared by the Class A and Class B
/// position layouts: speed at `at`, accuracy, longitude, latitude, course,
/// heading and timestamp following it.
pub struct Kinematics {
    pub speed_over_ground_raw: Option<u16>,
    pub position_accuracy: bool,
    pub longitude_raw: Option<i32>,
    pub latitude_raw: Option<i32>,
    pub course_over_ground_raw: Option<u16>,
    pub true_heading: Option<u16>,
    pub timestamp: u8,
}

pub open spec fn kinematics_of(b: Seq<u8>, t: int, at: int) -> Kinematics {
    Kinematics {
        speed_over_ground_raw: opt_u16_of(unless_u(uf(b, t, at, 10), 1023)),
        position_accuracy: uf(b, t, at + 10, 1) == 1,
        longitude_raw: opt_i32_of(sf(b, t, at + 11, 28), LON_NOT_AVAILABLE as int),
        latitude_raw: opt_i32_of(sf(b, t, at + 39, 27), LAT_NOT_AVAILABLE as int),
        course_over_ground_raw: opt_u16_of(unless_u(uf(b, t, at + 66, 12), 3600)),
        true_heading: opt_u16_of(unless_u(uf(b, t, at + 78, 9), 511)),
        timestamp: uf(b, t, at + 87, 6) as u8,
    }
}

/// Read the kinematic block (93 bits) at the reader's cursor.
pub fn read_kinematics(r: &mut BitReader) -> (k: Kinematics)
    requires
        old(r).spec_cursor() + 93 <= usize::MAX,
    ensures
        k == kinematics_of(old(r).spec_bits(), old(r).spec_total(), old(r).spec_cursor()),
        crate::ais::fields::advanced(*final(r), *old(r), 93),
{
    proof {
        lemma2_to64();
    }
    let sog = read_u16(r, 10);
    let position_accuracy = read_flag(r);
    let lon = read_i32(r, 28);
    let lat = read_i32(r, 27);
    let cog = read_u16(r, 12);
    let heading = read_u16(r, 9);
    let timestamp = read_u8(r, 6);
    Kinematics {
        speed_over_ground_raw: if sog == 1023 { None } else { Some(sog) },
        position_accuracy,
        longitude_raw: if lon == LON_NOT_AVAILABLE { None } else { Some(lon) },
        latitude_raw: if lat == LAT_NOT_AVAILABLE { None } else { Some(lat) },
        course_over_ground_raw: if cog == 3600 { None } else { Some(cog) },
        true_heading: if heading == 511 { None } else { Some(heading) },
        timestamp,
    }
}

/// Decode a Class A position report (Type 1, 2 or 3). The message type
/// field is consumed but not checked.
pub fn decode_position_report_a(bits: &[u8], total_bits: usize) -> (res: Result<PositionReportA, AisError>)
    ensures
        total_bits < POSITION_REPORT_A_BITS ==> res == Err::<PositionReportA, AisError>(AisError::PayloadTooShort),
        total_bits >= POSITION_REPORT_A_BITS ==> res == Ok::<PositionReportA, AisError>(
            position_report_a_of(bits@, total_bits as int),
        ),
{
    if total_bits < POSITION_REPORT_A_BITS {
        return Err(AisError::PayloadTooShort);
    }
    proof {
        lemma2_to64();
    }
    let mut r = BitReader::new(bits, total_bits);
    skip(&mut r, 6);
    skip(&mut r, 2);
    let mmsi = read_u32(&mut r, 30);
    let nav = read_u8(&mut r, 4);
    let rot = read_i32(&mut r, 8);
    let k = read_kinematics(&mut r);
    let maneuver = read_u8(&mut r, 2);
    skip(&mut r, 3);
    let raim = read_flag(&mut r);
    let radio_status = read_u32(&mut r, 19);
    Ok(
        PositionReportA {
            mmsi,
            navigation_status: NavStatus::from_u4(nav),
            rate_of_turn_raw: if rot == -128 { None } else { Some(rot as i8) },
            speed_over_ground_raw: k.speed_over_ground_raw,
            position_accuracy: k.position_accuracy,
            longitude_raw: k.longitude_raw,
            latitude_raw: k.latitude_raw,
            course_over_ground_raw: k.course_over_ground_raw,
            true_heading: k.true_heading,
            timestamp: k.timestamp,
            special_maneuver: ManeuverIndicator::from_u2(maneuver),
            raim,
            radio_status,
        },
    )
}

} // verus!
