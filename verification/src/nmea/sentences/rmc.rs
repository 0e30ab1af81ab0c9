//! RMC — recommended minimum specific GNSS data.

use vstd::prelude::*;
use crate::envelope::{RawSentence, SentenceView};
use crate::nmea::codes::{rmc_nav_status_of, vtg_mode_of, RmcNavStatus, VtgMode};
use crate::nmea::error::DecodeError;
use crate::nmea::number::{
    opt_number_text, opt_signed_text, optional_coordinate, optional_number, optional_number_spec, optional_signed_ew,
    signed_spec, Number, SignedNumber,
};
use crate::nmea::sentences::fields::{first_byte, first_byte_of, optional_utc_spec, talker_view, too_few};
use crate::nmea::status::{data_status_of, DataStatus};
use crate::nmea::utc_time::{utc_date_spec, UtcDate, UtcTime};

verus! {

/// Minimum number of RMC fields.
pub const RMC_MIN_FIELDS: usize = 11;

/// Decoded RMC fields; numbers keep their text.
#[derive(Debug, Clone, PartialEq, Eq)]
pub struct RmcData {
    /// Talker of the sentence.
    pub talker: Option<[u8; 2]>,
    /// UTC time of the fix.
    pub utc: Option<UtcTime>,
    /// Validity status; an empty field reads as `Other(0)`.
    pub status: DataStatus,
    /// Latitude (south negative).
    pub latitude: Option<SignedNumber>,
    /// Longitude (west negative).
    pub longitude: Option<SignedNumber>,
    /// Speed over ground, knots.
    pub speed_knots: Option<Number>,
    /// Course over ground, degrees true.
    pub course_true_deg: Option<Number>,
    /// Date of the fix.
    pub date: Option<UtcDate>,
    /// Magnetic variation (west negative).
    pub magnetic_variation: Option<SignedNumber>,
    /// Mode indicator (NMEA 2.3 and later).
    pub mode: Option<VtgMode>,
    /// Navigational status (NMEA 4.10 and later).
    pub nav_status: Option<RmcNavStatus>,
}

pub struct RmcModel {
    pub talker: Option<Seq<u8>>,
    pub utc: Option<UtcTime>,
    pub status: DataStatus,
    pub latitude: Option<(Seq<u8>, bool)>,
    pub longitude: Option<(Seq<u8>, bool)>,
    pub speed_knots: Option<Seq<u8>>,
    pub course_true_deg: Option<Seq<u8>>,
    pub date: Option<UtcDate>,
    pub magnetic_variation: Option<(Seq<u8>, bool)>,
    pub mode: Option<VtgMode>,
    pub nav_status: Option<RmcNavStatus>,
}

impl View for RmcData {
    type V = RmcModel;

    open spec fn view(&self) -> RmcModel {
        RmcModel {
            talker: talker_view(self.talker),
            utc: self.utc,
            status: self.status,
            latitude: opt_signed_text(self.latitude),
            longitude: opt_signed_text(self.longitude),
            speed_knots: opt_number_text(self.speed_knots),
            course_true_deg: opt_number_text(self.course_true_deg),
            date: self.date,
            magnetic_variation: opt_signed_text(self.magnetic_variation),
            mode: self.mode,
            nav_status: self.nav_status,
        }
    }
}

pub open spec fn rmc_result_view(r: Result<RmcData, DecodeError>) -> Result<RmcModel, DecodeError> {
    match r {
        Ok(d) => Ok(d@),
        Err(e) => Err(e),
    }
}

/// An optional date field: empty → `None`, else `ddmmyy` or `InvalidUtcTime`.
pub open spec fn optional_date_spec(b: Seq<u8>, field_index: usize) -> Result<Option<UtcDate>, DecodeError> {
    if b.len() == 0 {
        Ok(None)
    } else {
        match utc_date_spec(b) {
            Some(d) => Ok(Some(d)),
            None => Err(DecodeError::InvalidUtcTime { field_index }),
        }
    }
}

/// A one-letter status field: its first byte, or `Other(0)` when empty.
pub open spec fn status_spec(b: Seq<u8>) -> DataStatus {
    if b.len() == 0 {
        DataStatus::Other(0)
    } else {
        data_status_of(b[0])
    }
}

pub open spec fn opt_map_mode(o: Option<u8>) -> Option<VtgMode> {
    match o {
        Some(b) => Some(vtg_mode_of(b)),
        None => None,
    }
}

pub open spec fn opt_map_nav(o: Option<u8>) -> Option<RmcNavStatus> {
    match o {
        Some(b) => Some(rmc_nav_status_of(b)),
        None => None,
    }
}

/// What an RMC sentence decodes to; the first failing field, in order, is
/// reported. `lat_ok` / `lon_ok` are the coordinates' range checks.
pub open spec fn rmc_spec(s: SentenceView, lat_ok: bool, lon_ok: bool) -> Result<RmcModel, DecodeError> {
    let f = s.fields;
    if f.len() < RMC_MIN_FIELDS {
        Err(too_few(RMC_MIN_FIELDS, f.len()))
    } else {
        let utc = optional_utc_spec(f[0], 0);
        let lat = signed_spec(f[2], f[3], 2, 3, 0x4E, 0x53, lat_ok);
        let lon = signed_spec(f[4], f[5], 4, 5, 0x45, 0x57, lon_ok);
        let speed = optional_number_spec(f[6], 6);
        let course = optional_number_spec(f[7], 7);
        let date = optional_date_spec(f[8], 8);
        let variation = signed_spec(f[9], f[10], 9, 10, 0x45, 0x57, true);
        if utc is Err {
            Err(utc->Err_0)
        } else if lat is Err {
            Err(lat->Err_0)
        } else if lon is Err {
            Err(lon->Err_0)
        } else if speed is Err {
            Err(speed->Err_0)
        } else if course is Err {
            Err(course->Err_0)
        } else if date is Err {
            Err(date->Err_0)
        } else if variation is Err {
            Err(variation->Err_0)
        } else {
            Ok(
                RmcModel {
                    talker: s.talker,
                    utc: utc->Ok_0,
                    status: status_spec(f[1]),
                    latitude: lat->Ok_0,
                    longitude: lon->Ok_0,
                    speed_knots: speed->Ok_0,
                    course_true_deg: course->Ok_0,
                    date: date->Ok_0,
                    magnetic_variation: variation->Ok_0,
                    mode: opt_map_mode(first_byte_of(f, 11)),
                    nav_status: opt_map_nav(first_byte_of(f, 12)),
                },
            )
        }
    }
}

/// Decode the fields of an RMC sentence; `latitude_in_range` and
/// `longitude_in_range` are the range checks of fields 2 and 4.
pub fn decode_rmc(raw: &RawSentence, latitude_in_range: bool, longitude_in_range: bool) -> (res: Result<
    RmcData,
    DecodeError,
>)
    ensures
        rmc_result_view(res) == rmc_spec(raw@, latitude_in_range, longitude_in_range),
{
    let f = &raw.fields;
    if f.len() < RMC_MIN_FIELDS {
        return Err(DecodeError::NotEnoughFields { expected: RMC_MIN_FIELDS, got: f.len() });
    }
    let utc = match UtcTime::parse_optional(f[0].as_slice(), 0) {
        Ok(v) => v,
        Err(e) => return Err(e),
    };
    let status = if f[1].len() == 0 {
        DataStatus::Other(0)
    } else {
        DataStatus::from_byte(f[1][0])
    };
    let latitude = match optional_coordinate(f[2].as_slice(), f[3].as_slice(), 2, 3, false, latitude_in_range) {
        Ok(v) => v,
        Err(e) => return Err(e),
    };
    let longitude = match optional_coordinate(f[4].as_slice(), f[5].as_slice(), 4, 5, true, longitude_in_range) {
        Ok(v) => v,
        Err(e) => return Err(e),
    };
    let speed_knots = match optional_number(f[6].as_slice(), 6) {
        Ok(v) => v,
        Err(e) => return Err(e),
    };
    let course_true_deg = match optional_number(f[7].as_slice(), 7) {
        Ok(v) => v,
        Err(e) => return Err(e),
    };
    let date = if f[8].len() == 0 {
        None
    } else {
        match UtcDate::parse(f[8].as_slice(), 8) {
            Ok(d) => Some(d),
            Err(e) => return Err(e),
        }
    };
    let magnetic_variation = match optional_signed_ew(f[9].as_slice(), f[10].as_slice(), 9, 10) {
        Ok(v) => v,
        Err(e) => return Err(e),
    };
    let mode = match first_byte(raw, 11) {
        Some(b) => Some(VtgMode::from_byte(b)),
        None => None,
    };
    let nav_status = match first_byte(raw, 12) {
        Some(b) => Some(RmcNavStatus::from_byte(b)),
        None => None,
    };
    Ok(
        RmcData {
            talker: raw.talker,
            utc,
            status,
            latitude,
            longitude,
            speed_knots,
            course_true_deg,
            date,
            magnetic_variation,
            mode,
            nav_status,
        },
    )
}

} // verus!
