//! Class B static data — AIS message type 24, parts A and B.

use vstd::prelude::*;
use vstd::arithmetic::power2::lemma2_to64;
use crate::ais::bit_reader::BitReader;
use crate::ais::error::AisError;
use crate::ais::fields::{read_u32, read_u8, skip, uf};
use crate::ais::shared_types::{dimensions_of, opt_string_view, read_dimensions, read_text, text_field, Dimensions};

verus! {

/// Minimum payload size for Type 24 part A.
pub const STATIC_DATA_B_24A_BITS: usize = 160;

/// Minimum payload size for Type 24 part B.
pub const STATIC_DATA_B_24B_BITS: usize = 168;

/// Which part of a Type 24 message a payload carries (2 bits).
#[derive(Debug, Clone, Copy, PartialEq, Eq, Structural)]
#[non_exhaustive]
pub enum Type24Part {
    /// 0 — part A (vessel name).
    A,
    /// 1 — part B (ship type, vendor, call sign, dimensions).
    B,
    /// 2, 3 — reserved.
    Reserved(u8),
}

/// Type 24 part A.
#[derive(Debug, Clone, PartialEq, Eq)]
pub struct StaticDataB24A {
    /// Maritime Mobile Service Identity.
    pub mmsi: u32,
    /// Vessel name (20 characters, trimmed); `None` when blank.
    pub vessel_name: Option<String>,
}

/// Type 24 part B.
#[derive(Debug, Clone, PartialEq, Eq)]
pub struct StaticDataB24B {
    /// Maritime Mobile Service Identity.
    pub mmsi: u32,
    /// Ship and cargo type code.
    pub ship_type: u8,
    /// Vendor identification (7 characters, trimmed); `None` when blank.
    pub vendor_id: Option<String>,
    /// Call sign (7 characters, trimmed); `None` when blank.
    pub call_sign: Option<String>,
    /// Dimensions to the reference point.
    pub dimensions: Dimensions,
}

/// A decoded Type 24 message, by part.
#[derive(Debug, Clone, PartialEq, Eq)]
pub enum StaticDataB {
    /// Part A.
    PartA(StaticDataB24A),
    /// Part B.
    PartB(StaticDataB24B),
    /// A reserved part number; only the MMSI is decoded.
    Reserved {
        /// Maritime Mobile Service Identity.
        mmsi: u32,
        /// The part number as sent (2 or 3).
        part_code: u8,
    },
}

pub open spec fn part_a_matches(m: StaticDataB24A, b: Seq<u8>, t: int) -> bool {
    &&& m.mmsi == uf(b, t, 8, 30)
    &&& opt_string_view(m.vessel_name) == text_field(b, t, 40, 20)
}

pub open spec fn part_b_matches(m: StaticDataB24B, b: Seq<u8>, t: int) -> bool {
    &&& m.mmsi == uf(b, t, 8, 30)
    &&& m.ship_type == uf(b, t, 40, 8)
    &&& opt_string_view(m.vendor_id) == text_field(b, t, 48, 7)
    &&& opt_string_view(m.call_sign) == text_field(b, t, 90, 7)
    &&& m.dimensions == dimensions_of(b, t, 132)
}

/// Decode Type 24 part A. The part number is consumed but not checked.
pub fn decode_static_data_b_24a(bits: &[u8], total_bits: usize) -> (res: Result<StaticDataB24A, AisError>)
    ensures
        total_bits < STATIC_DATA_B_24A_BITS ==> (res matches Err(e) && e == AisError::PayloadTooShort),
        total_bits >= STATIC_DATA_B_24A_BITS ==> (res matches Ok(m) && part_a_matches(m, bits@, total_bits as int)),
{
    if total_bits < STATIC_DATA_B_24A_BITS {
        return Err(AisError::PayloadTooShort);
    }
    proof {
        lemma2_to64();
    }
    let mut r = BitReader::new(bits, total_bits);
    skip(&mut r, 6);
    skip(&mut r, 2);
    let mmsi = read_u32(&mut r, 30);
    skip(&mut r, 2);
    let vessel_name = read_text(&mut r, 20);
    Ok(StaticDataB24A { mmsi, vessel_name })
}

/// Decode Type 24 part B. The part number is consumed but not checked.
pub fn decode_static_data_b_24b(bits: &[u8], total_bits: usize) -> (res: Result<StaticDataB24B, AisError>)
    ensures
        total_bits < STATIC_DATA_B_24B_BITS ==> (res matches Err(e) && e == AisError::PayloadTooShort),
        total_bits >= STATIC_DATA_B_24B_BITS ==> (res matches Ok(m) && part_b_matches(m, bits@, total_bits as int)),
{
    if total_bits < STATIC_DATA_B_24B_BITS {
        return Err(AisError::PayloadTooShort);
    }
    proof {
        lemma2_to64();
    }
    let mut r = BitReader::new(bits, total_bits);
    skip(&mut r, 6);
    skip(&mut r, 2);
    let mmsi = read_u32(&mut r, 30);
    skip(&mut r, 2);
    let ship_type = read_u8(&mut r, 8);
    let vendor_id = read_text(&mut r, 7);
    let call_sign = read_text(&mut r, 7);
    let dimensions = read_dimensions(&mut r);
    Ok(StaticDataB24B { mmsi, ship_type, vendor_id, call_sign, dimensions })
}

/// `res` is what a Type 24 payload decodes to: part A or B by the part
/// number at bit 38, reserved parts carrying only the MMSI.
pub open spec fn static_data_b_matches(res: Result<StaticDataB, AisError>, b: Seq<u8>, t: int) -> bool {
    if t < STATIC_DATA_B_24A_BITS {
        res matches Err(e) && e == AisError::PayloadTooShort
    } else if uf(b, t, 38, 2) == 0 {
        res matches Ok(StaticDataB::PartA(m)) && part_a_matches(m, b, t)
    } else if uf(b, t, 38, 2) == 1 {
        if t < STATIC_DATA_B_24B_BITS {
            res matches Err(e) && e == AisError::PayloadTooShort
        } else {
            res matches Ok(StaticDataB::PartB(m)) && part_b_matches(m, b, t)
        }
    } else {
        res matches Ok(StaticDataB::Reserved { mmsi, part_code }) && mmsi == uf(b, t, 8, 30) && part_code == uf(
            b,
            t,
            38,
            2,
        )
    }
}

/// Decode a Type 24 message, dispatching on its part number.
pub fn decode_static_data_b(bits: &[u8], total_bits: usize) -> (res: Result<StaticDataB, AisError>)
    ensures
        static_data_b_matches(res, bits@, total_bits as int),
{
    if total_bits < STATIC_DATA_B_24A_BITS {
        return Err(AisError::PayloadTooShort);
    }
    proof {
        lemma2_to64();
    }
    let mut peek = BitReader::new(bits, total_bits);
    skip(&mut peek, 6);
    skip(&mut peek, 2);
    let mmsi = read_u32(&mut peek, 30);
    let part = read_u8(&mut peek, 2);
    if part == 0 {
        match decode_static_data_b_24a(bits, total_bits) {
            Ok(a) => Ok(StaticDataB::PartA(a)),
            Err(e) => Err(e),
        }
    } else if part == 1 {
        match decode_static_data_b_24b(bits, total_bits) {
            Ok(b) => Ok(StaticDataB::PartB(b)),
            Err(e) => Err(e),
        }
    } else {
        Ok(StaticDataB::Reserved { mmsi, part_code: part })
    }
}

} // verus!
