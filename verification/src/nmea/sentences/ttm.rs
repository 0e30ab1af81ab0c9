//! TTM — tracked target message.

use vstd::prelude::*;
use crate::envelope::{RawSentence, SentenceView};
use crate::nmea::codes::{
    acquisition_type_of, angle_reference_of, distance_units_of, AcquisitionType, AngleReference, DistanceUnits,
};
use crate::nmea::error::DecodeError;
use crate::nmea::number::{opt_number_text, optional_number, optional_number_spec, Number};
use crate::nmea::sentences::fields::{first_byte, first_byte_of, opt_u16_nat, talker_view, too_few};
use crate::nmea::sentences::tll::{
    marks_reference, opt_map_target, opt_string_chars, optional_text_spec, reference_mark, trailing_utc,
};
use crate::nmea::status::TargetStatus;
use crate::nmea::util::{optional_string, optional_u16, optional_unsigned_spec};
use crate::nmea::utc_time::UtcTime;

verus! {

/// Minimum number of TTM fields.
pub const TTM_MIN_FIELDS: usize = 12;

/// Decoded TTM fields; numbers keep their text.
#[derive(Debug, Clone, PartialEq, Eq)]
pub struct TtmData {
    /// Talker of the sentence.
    pub talker: Option<[u8; 2]>,
    /// Target number.
    pub target_number: Option<u16>,
    /// Target distance, in `units`.
    pub distance: Option<Number>,
    /// Bearing from own ship, degrees.
    pub bearing_deg: Option<Number>,
    /// Reference of the bearing.
    pub bearing_reference: Option<AngleReference>,
    /// Target speed, in `units` per hour.
    pub speed: Option<Number>,
    /// Target course, degrees.
    pub course_deg: Option<Number>,
    /// Reference of the course.
    pub course_reference: Option<AngleReference>,
    /// Distance of closest point of approach.
    pub cpa: Option<Number>,
    /// Time to closest point of approach, minutes.
    pub tcpa: Option<Number>,
    /// Speed and distance units.
    pub units: Option<DistanceUnits>,
    /// Target name.
    pub name: Option<String>,
    /// Target status.
    pub status: Option<TargetStatus>,
    /// `true` when field 12 marks a reference target.
    pub reference_target: bool,
    /// UTC time of the data.
    pub utc_time: Option<UtcTime>,
    /// Type of acquisition.
    pub acquisition: Option<AcquisitionType>,
}

pub struct TtmModel {
    pub talker: Option<Seq<u8>>,
    pub target_number: Option<nat>,
    pub distance: Option<Seq<u8>>,
    pub bearing_deg: Option<Seq<u8>>,
    pub bearing_reference: Option<AngleReference>,
    pub speed: Option<Seq<u8>>,
    pub course_deg: Option<Seq<u8>>,
    pub course_reference: Option<AngleReference>,
    pub cpa: Option<Seq<u8>>,
    pub tcpa: Option<Seq<u8>>,
    pub units: Option<DistanceUnits>,
    pub name: Option<Seq<char>>,
    pub status: Option<TargetStatus>,
    pub reference_target: bool,
    pub utc_time: Option<UtcTime>,
    pub acquisition: Option<AcquisitionType>,
}

impl View for TtmData {
    type V = TtmModel;

    open spec fn view(&self) -> TtmModel {
        TtmModel {
            talker: talker_view(self.talker),
            target_number: opt_u16_nat(self.target_number),
            distance: opt_number_text(self.distance),
            bearing_deg: opt_number_text(self.bearing_deg),
            bearing_reference: self.bearing_reference,
            speed: opt_number_text(self.speed),
            course_deg: opt_number_text(self.course_deg),
            course_reference: self.course_reference,
            cpa: opt_number_text(self.cpa),
            tcpa: opt_number_text(self.tcpa),
            units: self.units,
            name: opt_string_chars(self.name),
            status: self.status,
            reference_target: self.reference_target,
            utc_time: self.utc_time,
            acquisition: self.acquisition,
        }
    }
}

pub open spec fn ttm_result_view(r: Result<TtmData, DecodeError>) -> Result<TtmModel, DecodeError> {
    match r {
        Ok(d) => Ok(d@),
        Err(e) => Err(e),
    }
}

pub open spec fn opt_map_angle(o: Option<u8>) -> Option<AngleReference> {
    match o {
        Some(b) => Some(angle_reference_of(b)),
        None => None,
    }
}

pub open spec fn opt_map_units(o: Option<u8>) -> Option<DistanceUnits> {
    match o {
        Some(b) => Some(distance_units_of(b)),
        None => None,
    }
}

pub open spec fn opt_map_acquisition(o: Option<u8>) -> Option<AcquisitionType> {
    match o {
        Some(b) => Some(acquisition_type_of(b)),
        None => None,
    }
}

/// What a TTM sentence decodes to.
pub open spec fn ttm_spec(s: SentenceView) -> Result<TtmModel, DecodeError> {
    let f = s.fields;
    if f.len() < TTM_MIN_FIELDS {
        Err(too_few(TTM_MIN_FIELDS, f.len()))
    } else {
        let number = optional_unsigned_spec(f[0], 65535, 0);
        let distance = optional_number_spec(f[1], 1);
        let bearing = optional_number_spec(f[2], 2);
        let speed = optional_number_spec(f[4], 4);
        let course = optional_number_spec(f[5], 5);
        let cpa = optional_number_spec(f[7], 7);
        let tcpa = optional_number_spec(f[8], 8);
        let name = optional_text_spec(f[10], 10);
        let utc = trailing_utc(f, 13);
        if number is Err {
            Err(number->Err_0)
        } else if distance is Err {
            Err(distance->Err_0)
        } else if bearing is Err {
            Err(bearing->Err_0)
        } else if speed is Err {
            Err(speed->Err_0)
        } else if course is Err {
            Err(course->Err_0)
        } else if cpa is Err {
            Err(cpa->Err_0)
        } else if tcpa is Err {
            Err(tcpa->Err_0)
        } else if name is Err {
            Err(name->Err_0)
        } else if utc is Err {
            Err(utc->Err_0)
        } else {
            Ok(
                TtmModel {
                    talker: s.talker,
                    target_number: number->Ok_0,
                    distance: distance->Ok_0,
                    bearing_deg: bearing->Ok_0,
                    bearing_reference: opt_map_angle(first_byte_of(f, 3)),
                    speed: speed->Ok_0,
                    course_deg: course->Ok_0,
                    course_reference: opt_map_angle(first_byte_of(f, 6)),
                    cpa: cpa->Ok_0,
                    tcpa: tcpa->Ok_0,
                    units: opt_map_units(first_byte_of(f, 9)),
                    name: name->Ok_0,
                    status: opt_map_target(first_byte_of(f, 11)),
                    reference_target: marks_reference(f, 12),
                    utc_time: utc->Ok_0,
                    acquisition: opt_map_acquisition(first_byte_of(f, 14)),
                },
            )
        }
    }
}

fn angle_at(raw: &RawSentence, i: usize) -> (r: Option<AngleReference>)
    ensures
        r == opt_map_angle(first_byte_of(raw@.fields, i as int)),
{
    match first_byte(raw, i) {
        Some(b) => Some(AngleReference::from_byte(b)),
        None => None,
    }
}

/// Decode the fields of a TTM sentence.
pub fn decode_ttm(raw: &RawSentence) -> (res: Result<TtmData, DecodeError>)
    ensures
        ttm_result_view(res) == ttm_spec(raw@),
{
    let f = &raw.fields;
    if f.len() < TTM_MIN_FIELDS {
        return Err(DecodeError::NotEnoughFields { expected: TTM_MIN_FIELDS, got: f.len() });
    }
    let target_number = match optional_u16(f[0].as_slice(), 0) {
        Ok(v) => v,
        Err(e) => return Err(e),
    };
    let distance = match optional_number(f[1].as_slice(), 1) {
        Ok(v) => v,
        Err(e) => return Err(e),
    };
    let bearing_deg = match optional_number(f[2].as_slice(), 2) {
        Ok(v) => v,
        Err(e) => return Err(e),
    };
    let bearing_reference = angle_at(raw, 3);
    let speed = match optional_number(f[4].as_slice(), 4) {
        Ok(v) => v,
        Err(e) => return Err(e),
    };
    let course_deg = match optional_number(f[5].as_slice(), 5) {
        Ok(v) => v,
        Err(e) => return Err(e),
    };
    let course_reference = angle_at(raw, 6);
    let cpa = match optional_number(f[7].as_slice(), 7) {
        Ok(v) => v,
        Err(e) => return Err(e),
    };
    let tcpa = match optional_number(f[8].as_slice(), 8) {
        Ok(v) => v,
        Err(e) => return Err(e),
    };
    let units = match first_byte(raw, 9) {
        Some(b) => Some(DistanceUnits::from_byte(b)),
        None => None,
    };
    let name = match optional_string(f[10].as_slice(), 10) {
        Ok(v) => v,
        Err(e) => return Err(e),
    };
    let status = match first_byte(raw, 11) {
        Some(b) => Some(TargetStatus::from_byte(b)),
        None => None,
    };
    let reference_target = reference_mark(raw, 12);
    let utc_time = if 13 < f.len() {
        match UtcTime::parse_optional(f[13].as_slice(), 13) {
            Ok(v) => v,
            Err(e) => return Err(e),
        }
    } else {
        None
    };
    let acquisition = match first_byte(raw, 14) {
        Some(b) => Some(AcquisitionType::from_byte(b)),
        None => None,
    };
    Ok(
        TtmData {
            talker: raw.talker,
            target_number,
            distance,
            bearing_deg,
            bearing_reference,
            speed,
            course_deg,
            course_reference,
            cpa,
            tcpa,
            units,
            name,
            status,
            reference_target,
            utc_time,
            acquisition,
        },
    )
}

} // verus!
