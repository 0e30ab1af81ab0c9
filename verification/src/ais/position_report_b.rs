//! Class B position report — AIS message type 18 (168 bits).

use vstd::prelude::*;
use vstd::arithmetic::power2::lemma2_to64;
use crate::ais::bit_reader::BitReader;
use crate::ais::error::AisError;
use crate::ais::fields::{read_flag, read_u32, skip, uf};
use crate::ais::position_report_a::{kinematics_of, read_kinematics};

verus! {

/// Decoded Class B position report (AIS Type 18), with wire integers.
#[derive(Debug, Clone, Copy, PartialEq, Eq, Structural)]
pub struct PositionReportB {
    /// Maritime Mobile Service Identity.
    pub mmsi: u32,
    /// Speed over ground in tenths of a knot; `None` for the sentinel 1023.
    pub speed_over_ground_raw: Option<u16>,
    /// Position accuracy flag.
    pub position_accuracy: bool,
    /// Longitude in 1/10 000 minute; `None` for 181°.
    pub longitude_raw: Option<i32>,
    /// Latitude in 1/10 000 minute; `None` for 91°.
    pub latitude_raw: Option<i32>,
    /// Course over ground in tenths of a degree; `None` for the sentinel 3600.
    pub course_over_ground_raw: Option<u16>,
    /// True heading in degrees; `None` for the sentinel 511.
    pub true_heading: Option<u16>,
    /// Raw timestamp.
    pub timestamp: u8,
    /// Class B unit flag (`true` = carrier-sense unit).
    pub class_b_cs_flag: bool,
    /// Class B display flag.
    pub class_b_display_flag: bool,
    /// Class B DSC flag.
    pub class_b_dsc_flag: bool,
    /// Class B band flag.
    pub class_b_band_flag: bool,
    /// Class B Message 22 flag.
    pub class_b_message22_flag: bool,
    /// Assigned-mode flag.
    pub assigned_flag: bool,
    /// RAIM flag.
    pub raim: bool,
    /// Radio status, 20 bits.
    pub radio_status: u32,
}

/// Minimum payload size for Type 18.
pub const POSITION_REPORT_B_BITS: usize = 168;

/// The report the Type 18 layout spells at the front of the stream.
pub open spec fn position_report_b_of(b: Seq<u8>, t: int) -> PositionReportB {
    let k = kinematics_of(b, t, 46);
    PositionReportB {
        mmsi: uf(b, t, 8, 30) as u32,
        speed_over_ground_raw: k.speed_over_ground_raw,
        position_accuracy: k.position_accuracy,
        longitude_raw: k.longitude_raw,
        latitude_raw: k.latitude_raw,
        course_over_ground_raw: k.course_over_ground_raw,
        true_heading: k.true_heading,
        timestamp: k.timestamp,
        class_b_cs_flag: uf(b, t, 141, 1) == 1,
        class_b_display_flag: uf(b, t, 142, 1) == 1,
        class_b_dsc_flag: uf(b, t, 143, 1) == 1,
        class_b_band_flag: uf(b, t, 144, 1) == 1,
        class_b_message22_flag: uf(b, t, 145, 1) == 1,
        assigned_flag: uf(b, t, 146, 1) == 1,
        raim: uf(b, t, 147, 1) == 1,
        radio_status: uf(b, t, 148, 20) as u32,
    }
}

/// Decode a Class B position report (Type 18).
pub fn decode_position_report_b(bits: &[u8], total_bits: usize) -> (res: Result<PositionReportB, AisError>)
    ensures
        total_bits < POSITION_REPORT_B_BITS ==> res == Err::<PositionReportB, AisError>(AisError::PayloadTooShort),
        total_bits >= POSITION_REPORT_B_BITS ==> res == Ok::<PositionReportB, AisError>(
            position_report_b_of(bits@, total_bits as int),
        ),
{
    if total_bits < POSITION_REPORT_B_BITS {
        return Err(AisError::PayloadTooShort);
    }
    proof {
        lemma2_to64();
    }
    let mut r = BitReader::new(bits, total_bits);
    skip(&mut r, 6);
    skip(&mut r, 2);
    let mmsi = read_u32(&mut r, 30);
    skip(&mut r, 8);
    let k = read_kinematics(&mut r);
    skip(&mut r, 2);
    let class_b_cs_flag = read_flag(&mut r);
    let class_b_display_flag = read_flag(&mut r);
    let class_b_dsc_flag = read_flag(&mut r);
    let class_b_band_flag = read_flag(&mut r);
    let class_b_message22_flag = read_flag(&mut r);
    let assigned_flag = read_flag(&mut r);
    let raim = read_flag(&mut r);
    let radio_status = read_u32(&mut r, 20);
    Ok(
        PositionReportB {
            mmsi,
            speed_over_ground_raw: k.speed_over_ground_raw,
            position_accuracy: k.position_accuracy,
            longitude_raw: k.longitude_raw,
            latitude_raw: k.latitude_raw,
            course_over_ground_raw: k.course_over_ground_raw,
            true_heading: k.true_heading,
            timestamp: k.timestamp,
            class_b_cs_flag,
            class_b_display_flag,
            class_b_dsc_flag,
            class_b_band_flag,
            class_b_message22_flag,
            assigned_flag,
            raim,
            radio_status,
        },
    )
}

} // verus!
