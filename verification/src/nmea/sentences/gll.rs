//! GLL — geographic position, latitude and longitude.

use vstd::prelude::*;
use crate::envelope::{RawSentence, SentenceView};
use crate::nmea::codes::VtgMode;
use crate::nmea::error::DecodeError;
use crate::nmea::number::{opt_signed_text, optional_coordinate, signed_spec, SignedNumber};
use crate::nmea::sentences::fields::{first_byte, first_byte_of, optional_utc_spec, talker_view, too_few};
use crate::nmea::sentences::rmc::{opt_map_mode, status_spec};
use crate::nmea::status::DataStatus;
use crate::nmea::utc_time::UtcTime;

verus! {

/// Minimum number of GLL fields.
pub const GLL_MIN_FIELDS: usize = 6;

/// Decoded GLL fields.
#[derive(Debug, Clone, PartialEq, Eq)]
pub struct GllData {
    /// Talker of the sentence.
    pub talker: Option<[u8; 2]>,
    /// Latitude (south negative).
    pub latitude: Option<SignedNumber>,
    /// Longitude (west negative).
    pub longitude: Option<SignedNumber>,
    /// UTC time of the position.
    pub utc: Option<UtcTime>,
    /// Validity status; an empty field reads as `Other(0)`.
    pub status: DataStatus,
    /// Mode indicator (NMEA 2.3 and later).
    pub mode: Option<VtgMode>,
}

pub struct GllModel {
    pub talker: Option<Seq<u8>>,
    pub latitude: Option<(Seq<u8>, bool)>,
    pub longitude: Option<(Seq<u8>, bool)>,
    pub utc: Option<UtcTime>,
    pub status: DataStatus,
    pub mode: Option<VtgMode>,
}

impl View for GllData {
    type V = GllModel;

    open spec fn view(&self) -> GllModel {
        GllModel {
            talker: talker_view(self.talker),
            latitude: opt_signed_text(self.latitude),
            longitude: opt_signed_text(self.longitude),
            utc: self.utc,
            status: self.status,
            mode: self.mode,
        }
    }
}

pub open spec fn gll_result_view(r: Result<GllData, DecodeError>) -> Result<GllModel, DecodeError> {
    match r {
        Ok(d) => Ok(d@),
        Err(e) => Err(e),
    }
}

/// What a GLL sentence decodes to; `lat_ok` / `lon_ok` are the range
/// checks of fields 0 and 2.
pub open spec fn gll_spec(s: SentenceView, lat_ok: bool, lon_ok: bool) -> Result<GllModel, DecodeError> {
    let f = s.fields;
    if f.len() < GLL_MIN_FIELDS {
        Err(too_few(GLL_MIN_FIELDS, f.len()))
    } else {
        let lat = signed_spec(f[0], f[1], 0, 1, 0x4E, 0x53, lat_ok);
        let lon = signed_spec(f[2], f[3], 2, 3, 0x45, 0x57, lon_ok);
        let utc = optional_utc_spec(f[4], 4);
        if lat is Err {
            Err(lat->Err_0)
        } else if lon is Err {
            Err(lon->Err_0)
        } else if utc is Err {
            Err(utc->Err_0)
        } else {
            Ok(
                GllModel {
                    talker: s.talker,
                    latitude: lat->Ok_0,
                    longitude: lon->Ok_0,
                    utc: utc->Ok_0,
                    status: status_spec(f[5]),
                    mode: opt_map_mode(first_byte_of(f, 6)),
                },
            )
        }
    }
}

/// Decode the fields of a GLL sentence.
pub fn decode_gll(raw: &RawSentence, latitude_in_range: bool, longitude_in_range: bool) -> (res: Result<
    GllData,
    DecodeError,
>)
    ensures
        gll_result_view(res) == gll_spec(raw@, latitude_in_range, longitude_in_range),
{
    let f = &raw.fields;
    if f.len() < GLL_MIN_FIELDS {
        return Err(DecodeError::NotEnoughFields { expected: GLL_MIN_FIELDS, got: f.len() });
    }
    let latitude = match optional_coordinate(f[0].as_slice(), f[1].as_slice(), 0, 1, false, latitude_in_range) {
        Ok(v) => v,
        Err(e) => return Err(e),
    };
    let longitude = match optional_coordinate(f[2].as_slice(), f[3].as_slice(), 2, 3, true, longitude_in_range) {
        Ok(v) => v,
        Err(e) => return Err(e),
    };
    let utc = match UtcTime::parse_optional(f[4].as_slice(), 4) {
        Ok(v) => v,
        Err(e) => return Err(e),
    };
    let status = if f[5].len() == 0 {
        DataStatus::Other(0)
    } else {
        DataStatus::from_byte(f[5][0])
    };
    let mode = match first_byte(raw, 6) {
        Some(b) => Some(VtgMode::from_byte(b)),
        None => None,
    };
    Ok(GllData { talker: raw.talker, latitude, longitude, utc, status, mode })
}

} // verus!
