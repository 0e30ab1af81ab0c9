//! Extended Class B position report — AIS message type 19 (312 bits).

use vstd::prelude::*;
use vstd::arithmetic::power2::lemma2_to64;
use crate::ais::bit_reader::BitReader;
use crate::ais::error::AisError;
use crate::ais::fields::{read_flag, read_u32, read_u8, skip, uf};
use crate::ais::position_report_a::{kinematics_of, read_kinematics, Kinematics};
use crate::ais::shared_types::{
    dimensions_of, epfd_of, opt_string_view, read_dimensions, read_text, text_field, Dimensions, EpfdType,
};

verus! {

/// Decoded extended Class B position report (AIS Type 19), with wire integers.
#[derive(Debug, Clone, PartialEq, Eq)]
pub struct ExtendedPositionReportB {
    /// Maritime Mobile Service Identity.
    pub mmsi: u32,
    /// Speed over ground in tenths of a knot; `None` for the sentinel 1023.
    pub speed_over_ground_raw: Option<u16>,
    /// Position accuracy flag.
    pub position_accuracy: bool,
    /// Longitude in 1/10 000 minute; `None` for 181°.
    pub longitude_raw: Option<i32>,
    /// Latitude in 1/10 000 minute; `None` for 91°.
    pub latitude_raw: Option<i32>,
    /// Course over ground in tenths of a degree; `None` for the sentinel 3600.
    pub course_over_ground_raw: Option<u16>,
    /// True heading in degrees; `None` for the sentinel 511.
    pub true_heading: Option<u16>,
    /// Raw timestamp.
    pub timestamp: u8,
    /// Vessel name (20 characters, padding trimmed); `None` when blank.
    pub vessel_name: Option<String>,
    /// Ship and cargo type code.
    pub ship_type: u8,
    /// Dimensions to the reference point.
    pub dimensions: Dimensions,
    /// Position-fixing device type.
    pub epfd: EpfdType,
    /// RAIM flag.
    pub raim: bool,
    /// Data terminal equipment flag (`false` = ready).
    pub dte: bool,
    /// Assigned-mode flag.
    pub assigned_flag: bool,
}

/// Minimum payload size for Type 19.
pub const EXTENDED_POSITION_REPORT_B_BITS: usize = 312;

/// `m` is the report the Type 19 layout spells at the front of the stream.
pub open spec fn extended_position_report_b_matches(m: ExtendedPositionReportB, b: Seq<u8>, t: int) -> bool {
    let k = kinematics_of(b, t, 46);
    &&& m.mmsi == uf(b, t, 8, 30)
    &&& m.speed_over_ground_raw == k.speed_over_ground_raw
    &&& m.position_accuracy == k.position_accuracy
    &&& m.longitude_raw == k.longitude_raw
    &&& m.latitude_raw == k.latitude_raw
    &&& m.course_over_ground_raw == k.course_over_ground_raw
    &&& m.true_heading == k.true_heading
    &&& m.timestamp == k.timestamp
    &&& opt_string_view(m.vessel_name) == text_field(b, t, 143, 20)
    &&& m.ship_type == uf(b, t, 263, 8)
    &&& m.dimensions == dimensions_of(b, t, 271)
    &&& m.epfd == epfd_of(uf(b, t, 301, 4) as u8)
    &&& m.raim == (uf(b, t, 305, 1) == 1)
    &&& m.dte == (uf(b, t, 306, 1) == 1)
    &&& m.assigned_flag == (uf(b, t, 307, 1) == 1)
}

/// Decode an extended Class B position report (Type 19).
pub fn decode_extended_position_report_b(bits: &[u8], total_bits: usize) -> (res: Result<
    ExtendedPositionReportB,
    AisError,
>)
    ensures
        total_bits < EXTENDED_POSITION_REPORT_B_BITS ==> (res matches Err(e) && e == AisError::PayloadTooShort),
        total_bits >= EXTENDED_POSITION_REPORT_B_BITS ==> (res matches Ok(m) && extended_position_report_b_matches(
            m,
            bits@,
            total_bits as int,
        )),
{
    if total_bits < EXTENDED_POSITION_REPORT_B_BITS {
        return Err(AisError::PayloadTooShort);
    }
    proof {
        lemma2_to64();
    }
    let mut r = BitReader::new(bits, total_bits);
    skip(&mut r, 6);
    skip(&mut r, 2);
    let mmsi = read_u32(&mut r, 30);
    skip(&mut r, 8);
    let k = read_kinematics(&mut r);
    skip(&mut r, 4);
    let vessel_name = read_text(&mut r, 20);
    let ship_type = read_u8(&mut r, 8);
    let dimensions = read_dimensions(&mut r);
    let epfd = EpfdType::from_u4(read_u8(&mut r, 4));
    let raim = read_flag(&mut r);
    let dte = read_flag(&mut r);
    let assigned_flag = read_flag(&mut r);
    Ok(
        ExtendedPositionReportB {
            mmsi,
            speed_over_ground_raw: k.speed_over_ground_raw,
            position_accuracy: k.position_accuracy,
            longitude_raw: k.longitude_raw,
            latitude_raw: k.latitude_raw,
            course_over_ground_raw: k.course_over_ground_raw,
            true_heading: k.true_heading,
            timestamp: k.timestamp,
            vessel_name,
            ship_type,
            dimensions,
            epfd,
            raim,
            dte,
            assigned_flag,
        },
    )
}

} // verus!
