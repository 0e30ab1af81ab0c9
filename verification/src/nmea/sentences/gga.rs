//! GGA — GPS fix data.

use vstd::prelude::*;
use crate::envelope::{RawSentence, SentenceView};
use crate::nmea::codes::{gga_fix_quality_of, GgaFixQuality};
use crate::nmea::error::DecodeError;
use crate::nmea::number::{
    opt_number_text, opt_signed_text, optional_coordinate, optional_number, optional_number_spec, signed_spec,
    Number, SignedNumber,
};
use crate::nmea::sentences::fields::{opt_u16_nat, opt_u8_nat, optional_utc_spec, talker_view, too_few};
use crate::nmea::util::{optional_u16, optional_u8, optional_unsigned_spec};
use crate::nmea::utc_time::UtcTime;

verus! {

/// Minimum number of GGA fields.
pub const GGA_MIN_FIELDS: usize = 14;

/// Decoded GGA fields. Numeric fields keep their text; coordinates keep
/// their text and the sign of their hemisphere letter.
#[derive(Debug, Clone, PartialEq, Eq)]
pub struct GgaData {
    /// Talker of the sentence.
    pub talker: Option<[u8; 2]>,
    /// UTC time of the fix.
    pub utc: Option<UtcTime>,
    /// Latitude (`ddmm.mmmm`, south negative).
    pub latitude: Option<SignedNumber>,
    /// Longitude (`dddmm.mmmm`, west negative).
    pub longitude: Option<SignedNumber>,
    /// Fix quality; an empty field reads as `Invalid`.
    pub fix_quality: GgaFixQuality,
    /// Satellites in use.
    pub satellites_used: Option<u8>,
    /// Horizontal dilution of precision.
    pub hdop: Option<Number>,
    /// Antenna altitude above mean sea level, metres.
    pub altitude_m: Option<Number>,
    /// Geoid separation, metres.
    pub geoid_separation_m: Option<Number>,
    /// Age of the DGPS correction, seconds.
    pub dgps_age_s: Option<Number>,
    /// DGPS reference station.
    pub dgps_station_id: Option<u16>,
}

pub struct GgaModel {
    pub talker: Option<Seq<u8>>,
    pub utc: Option<UtcTime>,
    pub latitude: Option<(Seq<u8>, bool)>,
    pub longitude: Option<(Seq<u8>, bool)>,
    pub fix_quality: GgaFixQuality,
    pub satellites_used: Option<nat>,
    pub hdop: Option<Seq<u8>>,
    pub altitude_m: Option<Seq<u8>>,
    pub geoid_separation_m: Option<Seq<u8>>,
    pub dgps_age_s: Option<Seq<u8>>,
    pub dgps_station_id: Option<nat>,
}

impl View for GgaData {
    type V = GgaModel;

    open spec fn view(&self) -> GgaModel {
        GgaModel {
            talker: talker_view(self.talker),
            utc: self.utc,
            latitude: opt_signed_text(self.latitude),
            longitude: opt_signed_text(self.longitude),
            fix_quality: self.fix_quality,
            satellites_used: opt_u8_nat(self.satellites_used),
            hdop: opt_number_text(self.hdop),
            altitude_m: opt_number_text(self.altitude_m),
            geoid_separation_m: opt_number_text(self.geoid_separation_m),
            dgps_age_s: opt_number_text(self.dgps_age_s),
            dgps_station_id: opt_u16_nat(self.dgps_station_id),
        }
    }
}

pub open spec fn gga_result_view(r: Result<GgaData, DecodeError>) -> Result<GgaModel, DecodeError> {
    match r {
        Ok(d) => Ok(d@),
        Err(e) => Err(e),
    }
}

/// Field 5: empty → `Invalid`, one byte → its quality, longer → an error.
pub open spec fn fix_quality_spec(b: Seq<u8>) -> Result<GgaFixQuality, DecodeError> {
    if b.len() == 0 {
        Ok(GgaFixQuality::Invalid)
    } else if b.len() == 1 {
        Ok(gga_fix_quality_of(b[0]))
    } else {
        Err(DecodeError::InvalidNumber { field_index: 5 })
    }
}

/// What a GGA sentence decodes to. Fields are checked in order and the
/// first failure is reported; `lat_ok` / `lon_ok` are the range checks of
/// the two coordinates.
pub open spec fn gga_spec(s: SentenceView, lat_ok: bool, lon_ok: bool) -> Result<GgaModel, DecodeError> {
    let f = s.fields;
    if f.len() < GGA_MIN_FIELDS {
        Err(too_few(GGA_MIN_FIELDS, f.len()))
    } else {
        let utc = optional_utc_spec(f[0], 0);
        let lat = signed_spec(f[1], f[2], 1, 2, 0x4E, 0x53, lat_ok);
        let lon = signed_spec(f[3], f[4], 3, 4, 0x45, 0x57, lon_ok);
        let fix = fix_quality_spec(f[5]);
        let sats = optional_unsigned_spec(f[6], 255, 6);
        let hdop = optional_number_spec(f[7], 7);
        let alt = optional_number_spec(f[8], 8);
        let geoid = optional_number_spec(f[10], 10);
        let age = optional_number_spec(f[12], 12);
        let station = optional_unsigned_spec(f[13], 65535, 13);
        if utc is Err {
            Err(utc->Err_0)
        } else if lat is Err {
            Err(lat->Err_0)
        } else if lon is Err {
            Err(lon->Err_0)
        } else if fix is Err {
            Err(fix->Err_0)
        } else if sats is Err {
            Err(sats->Err_0)
        } else if hdop is Err {
            Err(hdop->Err_0)
        } else if alt is Err {
            Err(alt->Err_0)
        } else if geoid is Err {
            Err(geoid->Err_0)
        } else if age is Err {
            Err(age->Err_0)
        } else if station is Err {
            Err(station->Err_0)
        } else {
            Ok(
                GgaModel {
                    talker: s.talker,
                    utc: utc->Ok_0,
                    latitude: lat->Ok_0,
                    longitude: lon->Ok_0,
                    fix_quality: fix->Ok_0,
                    satellites_used: sats->Ok_0,
                    hdop: hdop->Ok_0,
                    altitude_m: alt->Ok_0,
                    geoid_separation_m: geoid->Ok_0,
                    dgps_age_s: age->Ok_0,
                    dgps_station_id: station->Ok_0,
                },
            )
        }
    }
}

/// Decode the fields of a GGA sentence. `latitude_in_range` and
/// `longitude_in_range` are the range checks of fields 1 and 3 (see
/// [`optional_coordinate`]).
pub fn decode_gga(raw: &RawSentence, latitude_in_range: bool, longitude_in_range: bool) -> (res: Result<
    GgaData,
    DecodeError,
>)
    ensures
        gga_result_view(res) == gga_spec(raw@, latitude_in_range, longitude_in_range),
{
    let f = &raw.fields;
    if f.len() < GGA_MIN_FIELDS {
        return Err(DecodeError::NotEnoughFields { expected: GGA_MIN_FIELDS, got: f.len() });
    }
    let utc = match UtcTime::parse_optional(f[0].as_slice(), 0) {
        Ok(v) => v,
        Err(e) => return Err(e),
    };
    let latitude = match optional_coordinate(f[1].as_slice(), f[2].as_slice(), 1, 2, false, latitude_in_range) {
        Ok(v) => v,
        Err(e) => return Err(e),
    };
    let longitude = match optional_coordinate(f[3].as_slice(), f[4].as_slice(), 3, 4, true, longitude_in_range) {
        Ok(v) => v,
        Err(e) => return Err(e),
    };
    let fix_quality = if f[5].len() == 0 {
        GgaFixQuality::Invalid
    } else if f[5].len() == 1 {
        GgaFixQuality::from_byte(f[5][0])
    } else {
        return Err(DecodeError::InvalidNumber { field_index: 5 });
    };
    let satellites_used = match optional_u8(f[6].as_slice(), 6) {
        Ok(v) => v,
        Err(e) => return Err(e),
    };
    let hdop = match optional_number(f[7].as_slice(), 7) {
        Ok(v) => v,
        Err(e) => return Err(e),
    };
    let altitude_m = match optional_number(f[8].as_slice(), 8) {
        Ok(v) => v,
        Err(e) => return Err(e),
    };
    let geoid_separation_m = match optional_number(f[10].as_slice(), 10) {
        Ok(v) => v,
        Err(e) => return Err(e),
    };
    let dgps_age_s = match optional_number(f[12].as_slice(), 12) {
        Ok(v) => v,
        Err(e) => return Err(e),
    };
    let dgps_station_id = match optional_u16(f[13].as_slice(), 13) {
        Ok(v) => v,
        Err(e) => return Err(e),
    };
    Ok(
        GgaData {
            talker: raw.talker,
            utc,
            latitude,
            longitude,
            fix_quality,
            satellites_used,
            hdop,
            altitude_m,
            geoid_separation_m,
            dgps_age_s,
            dgps_station_id,
        },
    )
}

} // verus!
