//! Static and voyage-related data — AIS message type 5 (424 bits).

use vstd::prelude::*;
use vstd::arithmetic::power2::lemma2_to64;
use crate::ais::bit_reader::BitReader;
use crate::ais::error::AisError;
use crate::ais::fields::{lemma_field_bound, read_flag, read_u32, read_u8, skip, uf};
use crate::ais::shared_types::{
    dimensions_of, epfd_of, opt_string_view, read_dimensions, read_text, text_field, Dimensions, EpfdType,
};

verus! {

/// ITU-R M.1371 revision the station complies with (2 bits).
#[derive(Debug, Clone, Copy, PartialEq, Eq, Structural)]
#[non_exhaustive]
pub enum AisVersion {
    /// 0 — ITU-R M.1371-1.
    Itu1371v1,
    /// 1 — ITU-R M.1371-3.
    Itu1371v3,
    /// 2 — ITU-R M.1371-5.
    Itu1371v5,
    /// 3 — a future edition.
    Future,
}

pub open spec fn ais_version_of(v: u8) -> AisVersion {
    if v == 0 {
        AisVersion::Itu1371v1
    } else if v == 1 {
        AisVersion::Itu1371v3
    } else if v == 2 {
        AisVersion::Itu1371v5
    } else {
        AisVersion::Future
    }
}

impl AisVersion {
    /// Map the 2-bit version code to its variant.
    pub fn from_u2(v: u8) -> (a: Self)
        ensures
            a == ais_version_of(v),
    {
        match v {
            0 => Self::Itu1371v1,
            1 => Self::Itu1371v3,
            2 => Self::Itu1371v5,
            _ => Self::Future,
        }
    }
}

/// Estimated time of arrival; each part is `None` for its "not available" value.
#[derive(Debug, Clone, Copy, PartialEq, Eq, Default, Structural)]
pub struct Eta {
    /// Month 1..=12 (0 = not available).
    pub month: Option<u8>,
    /// Day 1..=31 (0 = not available).
    pub day: Option<u8>,
    /// Hour 0..=23 (24 = not available).
    pub hour: Option<u8>,
    /// Minute 0..=59 (60 = not available).
    pub minute: Option<u8>,
}

/// Decoded static and voyage data (AIS Type 5), with wire integers.
#[derive(Debug, Clone, PartialEq, Eq)]
pub struct StaticAndVoyageA {
    /// Maritime Mobile Service Identity.
    pub mmsi: u32,
    /// AIS version indicator.
    pub ais_version: AisVersion,
    /// IMO ship identification number; `None` when 0.
    pub imo_number: Option<u32>,
    /// Call sign (7 characters, trimmed); `None` when blank.
    pub call_sign: Option<String>,
    /// Vessel name (20 characters, trimmed); `None` when blank.
    pub vessel_name: Option<String>,
    /// Ship and cargo type code.
    pub ship_type: u8,
    /// Dimensions to the reference point.
    pub dimensions: Dimensions,
    /// Position-fixing device type.
    pub epfd: EpfdType,
    /// Estimated time of arrival.
    pub eta: Eta,
    /// Maximum present static draught in tenths of a metre; `None` when 0.
    pub draught_raw: Option<u8>,
    /// Destination (20 characters, trimmed); `None` when blank.
    pub destination: Option<String>,
    /// Data terminal equipment flag (`false` = ready).
    pub dte: bool,
}

/// Minimum payload size for Type 5.
pub const STATIC_VOYAGE_A_BITS: usize = 424;

/// `raw` as a `u8`, or `None` when it equals `sentinel`.
pub fn sentinel_u8(raw: u64, sentinel: u64) -> (r: Option<u8>)
    ensures
        r == if raw == sentinel { None } else { Some((raw % 256) as u8) },
{
    if raw == sentinel {
        None
    } else {
        let v = raw & 0xFF;
        proof {
            assert(raw & 0xFF == raw % 256) by (bit_vector);
        }
        Some(v as u8)
    }
}

pub open spec fn unless_u8(v: nat, sentinel: nat) -> Option<u8> {
    if v == sentinel {
        None
    } else {
        Some(v as u8)
    }
}

/// `m` is the message the Type 5 layout spells at the front of the stream.
pub open spec fn static_and_voyage_a_matches(m: StaticAndVoyageA, b: Seq<u8>, t: int) -> bool {
    &&& m.mmsi == uf(b, t, 8, 30)
    &&& m.ais_version == ais_version_of(uf(b, t, 38, 2) as u8)
    &&& m.imo_number == if uf(b, t, 40, 30) == 0 { None } else { Some(uf(b, t, 40, 30) as u32) }
    &&& opt_string_view(m.call_sign) == text_field(b, t, 70, 7)
    &&& opt_string_view(m.vessel_name) == text_field(b, t, 112, 20)
    &&& m.ship_type == uf(b, t, 232, 8)
    &&& m.dimensions == dimensions_of(b, t, 240)
    &&& m.epfd == epfd_of(uf(b, t, 270, 4) as u8)
    &&& m.eta == (Eta {
        month: unless_u8(uf(b, t, 274, 4), 0),
        day: unless_u8(uf(b, t, 278, 5), 0),
        hour: unless_u8(uf(b, t, 283, 5), 24),
        minute: unless_u8(uf(b, t, 288, 6), 60),
    })
    &&& m.draught_raw == unless_u8(uf(b, t, 294, 8), 0)
    &&& opt_string_view(m.destination) == text_field(b, t, 302, 20)
    &&& m.dte == (uf(b, t, 422, 1) == 1)
}

/// Decode static and voyage data (Type 5).
pub fn decode_static_and_voyage_a(bits: &[u8], total_bits: usize) -> (res: Result<StaticAndVoyageA, AisError>)
    ensures
        total_bits < STATIC_VOYAGE_A_BITS ==> (res matches Err(e) && e == AisError::PayloadTooShort),
        total_bits >= STATIC_VOYAGE_A_BITS ==> (res matches Ok(m) && static_and_voyage_a_matches(
            m,
            bits@,
            total_bits as int,
        )),
{
    if total_bits < STATIC_VOYAGE_A_BITS {
        return Err(AisError::PayloadTooShort);
    }
    proof {
        lemma2_to64();
    }
    let mut r = BitReader::new(bits, total_bits);
    skip(&mut r, 6);
    skip(&mut r, 2);
    let mmsi = read_u32(&mut r, 30);
    let ais_version = AisVersion::from_u2(read_u8(&mut r, 2));
    let imo_raw = read_u32(&mut r, 30);
    let imo_number = if imo_raw == 0 { None } else { Some(imo_raw) };
    let call_sign = read_text(&mut r, 7);
    let vessel_name = read_text(&mut r, 20);
    let ship_type = read_u8(&mut r, 8);
    let dimensions = read_dimensions(&mut r);
    let epfd = EpfdType::from_u4(read_u8(&mut r, 4));
    let month = read_u8(&mut r, 4);
    let day = read_u8(&mut r, 5);
    let hour = read_u8(&mut r, 5);
    let minute = read_u8(&mut r, 6);
    let eta = Eta {
        month: sentinel_u8(month as u64, 0),
        day: sentinel_u8(day as u64, 0),
        hour: sentinel_u8(hour as u64, 24),
        minute: sentinel_u8(minute as u64, 60),
    };
    let draught = read_u8(&mut r, 8);
    let draught_raw = if draught == 0 { None } else { Some(draught) };
    let destination = read_text(&mut r, 20);
    let dte = read_flag(&mut r);
    Ok(
        StaticAndVoyageA {
            mmsi,
            ais_version,
            imo_number,
            call_sign,
            vessel_name,
            ship_type,
            dimensions,
            epfd,
            eta,
            draught_raw,
            destination,
            dte,
        },
    )
}

} // verus!
