//! TLL — target latitude and longitude.

use vstd::prelude::*;
use vstd::utf8::{decode_utf8, valid_utf8};
use crate::envelope::{RawSentence, SentenceView};
use crate::nmea::error::DecodeError;
use crate::nmea::number::{opt_signed_text, optional_coordinate, signed_spec, SignedNumber};
use crate::nmea::sentences::fields::{first_byte, first_byte_of, opt_u16_nat, optional_utc_spec, talker_view, too_few};
use crate::nmea::status::{target_status_of, TargetStatus};
use crate::nmea::util::{optional_string, optional_u16, optional_unsigned_spec};
use crate::nmea::utc_time::UtcTime;

verus! {

/// Minimum number of TLL fields.
pub const TLL_MIN_FIELDS: usize = 5;

/// Decoded TLL fields.
#[derive(Debug, Clone, PartialEq, Eq)]
pub struct TllData {
    /// Talker of the sentence.
    pub talker: Option<[u8; 2]>,
    /// Target number.
    pub target_number: Option<u16>,
    /// Target latitude (south negative).
    pub latitude: Option<SignedNumber>,
    /// Target longitude (west negative).
    pub longitude: Option<SignedNumber>,
    /// Target name.
    pub name: Option<String>,
    /// UTC time of the data.
    pub utc_time: Option<UtcTime>,
    /// Target status.
    pub status: Option<TargetStatus>,
    /// `true` when field 8 marks a reference target (`R`).
    pub reference_target: bool,
}

pub struct TllModel {
    pub talker: Option<Seq<u8>>,
    pub target_number: Option<nat>,
    pub latitude: Option<(Seq<u8>, bool)>,
    pub longitude: Option<(Seq<u8>, bool)>,
    pub name: Option<Seq<char>>,
    pub utc_time: Option<UtcTime>,
    pub status: Option<TargetStatus>,
    pub reference_target: bool,
}

pub open spec fn opt_string_chars(o: Option<String>) -> Option<Seq<char>> {
    match o {
        Some(s) => Some(s@),
        None => None,
    }
}

impl View for TllData {
    type V = TllModel;

    open spec fn view(&self) -> TllModel {
        TllModel {
            talker: talker_view(self.talker),
            target_number: opt_u16_nat(self.target_number),
            latitude: opt_signed_text(self.latitude),
            longitude: opt_signed_text(self.longitude),
            name: opt_string_chars(self.name),
            utc_time: self.utc_time,
            status: self.status,
            reference_target: self.reference_target,
        }
    }
}

pub open spec fn tll_result_view(r: Result<TllData, DecodeError>) -> Result<TllModel, DecodeError> {
    match r {
        Ok(d) => Ok(d@),
        Err(e) => Err(e),
    }
}

/// An optional text field: empty → `None`, else UTF-8 text.
pub open spec fn optional_text_spec(b: Seq<u8>, field_index: usize) -> Result<Option<Seq<char>>, DecodeError> {
    if b.len() == 0 {
        Ok(None)
    } else if !valid_utf8(b) {
        Err(DecodeError::InvalidUtf8 { field_index })
    } else {
        Ok(Some(decode_utf8(b)))
    }
}

/// Field `i` read by `read` when present, `None` when the sentence is shorter.
pub open spec fn trailing_text(f: Seq<Seq<u8>>, i: int) -> Result<Option<Seq<char>>, DecodeError> {
    if i < f.len() {
        optional_text_spec(f[i], i as usize)
    } else {
        Ok(None)
    }
}

pub open spec fn trailing_utc(f: Seq<Seq<u8>>, i: int) -> Result<Option<UtcTime>, DecodeError> {
    if i < f.len() {
        optional_utc_spec(f[i], i as usize)
    } else {
        Ok(None)
    }
}

pub open spec fn opt_map_target(o: Option<u8>) -> Option<TargetStatus> {
    match o {
        Some(b) => Some(target_status_of(b)),
        None => None,
    }
}

/// Whether field `i` starts with `R` or `r`.
pub open spec fn marks_reference(f: Seq<Seq<u8>>, i: int) -> bool {
    first_byte_of(f, i) == Some(0x52u8) || first_byte_of(f, i) == Some(0x72u8)
}

/// What a TLL sentence decodes to; `lat_ok` / `lon_ok` are the range
/// checks of fields 1 and 3.
pub open spec fn tll_spec(s: SentenceView, lat_ok: bool, lon_ok: bool) -> Result<TllModel, DecodeError> {
    let f = s.fields;
    if f.len() < TLL_MIN_FIELDS {
        Err(too_few(TLL_MIN_FIELDS, f.len()))
    } else {
        let number = optional_unsigned_spec(f[0], 65535, 0);
        let lat = signed_spec(f[1], f[2], 1, 2, 0x4E, 0x53, lat_ok);
        let lon = signed_spec(f[3], f[4], 3, 4, 0x45, 0x57, lon_ok);
        let name = trailing_text(f, 5);
        let utc = trailing_utc(f, 6);
        if number is Err {
            Err(number->Err_0)
        } else if lat is Err {
            Err(lat->Err_0)
        } else if lon is Err {
            Err(lon->Err_0)
        } else if name is Err {
            Err(name->Err_0)
        } else if utc is Err {
            Err(utc->Err_0)
        } else {
            Ok(
                TllModel {
                    talker: s.talker,
                    target_number: number->Ok_0,
                    latitude: lat->Ok_0,
                    longitude: lon->Ok_0,
                    name: name->Ok_0,
                    utc_time: utc->Ok_0,
                    status: opt_map_target(first_byte_of(f, 7)),
                    reference_target: marks_reference(f, 8),
                },
            )
        }
    }
}

/// Whether field `i` starts with `R` or `r`.
pub fn reference_mark(raw: &RawSentence, i: usize) -> (r: bool)
    ensures
        r == marks_reference(raw@.fields, i as int),
{
    match first_byte(raw, i) {
        Some(b) => b == 0x52 || b == 0x72,
        None => false,
    }
}

/// Decode the fields of a TLL sentence; `latitude_in_range` and
/// `longitude_in_range` are the range checks of fields 1 and 3.
pub fn decode_tll(raw: &RawSentence, latitude_in_range: bool, longitude_in_range: bool) -> (res: Result<
    TllData,
    DecodeError,
>)
    ensures
        tll_result_view(res) == tll_spec(raw@, latitude_in_range, longitude_in_range),
{
    let f = &raw.fields;
    if f.len() < TLL_MIN_FIELDS {
        return Err(DecodeError::NotEnoughFields { expected: TLL_MIN_FIELDS, got: f.len() });
    }
    let target_number = match optional_u16(f[0].as_slice(), 0) {
        Ok(v) => v,
        Err(e) => return Err(e),
    };
    let latitude = match optional_coordinate(f[1].as_slice(), f[2].as_slice(), 1, 2, false, latitude_in_range) {
        Ok(v) => v,
        Err(e) => return Err(e),
    };
    let longitude = match optional_coordinate(f[3].as_slice(), f[4].as_slice(), 3, 4, true, longitude_in_range) {
        Ok(v) => v,
        Err(e) => return Err(e),
    };
    let name = if 5 < f.len() {
        match optional_string(f[5].as_slice(), 5) {
            Ok(v) => v,
            Err(e) => return Err(e),
        }
    } else {
        None
    };
    let utc_time = if 6 < f.len() {
        match UtcTime::parse_optional(f[6].as_slice(), 6) {
            Ok(v) => v,
            Err(e) => return Err(e),
        }
    } else {
        None
    };
    let status = match first_byte(raw, 7) {
        Some(b) => Some(TargetStatus::from_byte(b)),
        None => None,
    };
    let reference_target = reference_mark(raw, 8);
    Ok(
        TllData {
            talker: raw.talker,
            target_number,
            latitude,
            longitude,
            name,
            utc_time,
            status,
            reference_target,
        },
    )
}

} // verus!
