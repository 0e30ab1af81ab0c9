//! VTG — course over ground and ground speed.

use vstd::prelude::*;
use crate::envelope::{RawSentence, SentenceView};
use crate::nmea::codes::VtgMode;
use crate::nmea::error::DecodeError;
use crate::nmea::number::{opt_number_text, optional_number, optional_number_spec, Number};
use crate::nmea::sentences::fields::{first_byte, first_byte_of, talker_view, too_few};
use crate::nmea::sentences::rmc::opt_map_mode;

verus! {

/// Minimum number of VTG fields.
pub const VTG_MIN_FIELDS: usize = 8;

/// Decoded VTG fields; numbers keep their text.
#[derive(Debug, Clone, PartialEq, Eq)]
pub struct VtgData {
    /// Talker of the sentence.
    pub talker: Option<[u8; 2]>,
    /// Course over ground, degrees true.
    pub course_true_deg: Option<Number>,
    /// Course over ground, degrees magnetic.
    pub course_magnetic_deg: Option<Number>,
    /// Speed over ground, knots.
    pub speed_knots: Option<Number>,
    /// Speed over ground, km/h.
    pub speed_kmh: Option<Number>,
    /// Mode indicator (NMEA 2.3 and later).
    pub mode: Option<VtgMode>,
}

pub struct VtgModel {
    pub talker: Option<Seq<u8>>,
    pub course_true_deg: Option<Seq<u8>>,
    pub course_magnetic_deg: Option<Seq<u8>>,
    pub speed_knots: Option<Seq<u8>>,
    pub speed_kmh: Option<Seq<u8>>,
    pub mode: Option<VtgMode>,
}

impl View for VtgData {
    type V = VtgModel;

    open spec fn view(&self) -> VtgModel {
        VtgModel {
            talker: talker_view(self.talker),
            course_true_deg: opt_number_text(self.course_true_deg),
            course_magnetic_deg: opt_number_text(self.course_magnetic_deg),
            speed_knots: opt_number_text(self.speed_knots),
            speed_kmh: opt_number_text(self.speed_kmh),
            mode: self.mode,
        }
    }
}

pub open spec fn vtg_result_view(r: Result<VtgData, DecodeError>) -> Result<VtgModel, DecodeError> {
    match r {
        Ok(d) => Ok(d@),
        Err(e) => Err(e),
    }
}

/// What a VTG sentence decodes to (fields 0, 2, 4, 6 numeric; 8 the mode).
pub open spec fn vtg_spec(s: SentenceView) -> Result<VtgModel, DecodeError> {
    let f = s.fields;
    if f.len() < VTG_MIN_FIELDS {
        Err(too_few(VTG_MIN_FIELDS, f.len()))
    } else {
        let ct = optional_number_spec(f[0], 0);
        let cm = optional_number_spec(f[2], 2);
        let kn = optional_number_spec(f[4], 4);
        let kmh = optional_number_spec(f[6], 6);
        if ct is Err {
            Err(ct->Err_0)
        } else if cm is Err {
            Err(cm->Err_0)
        } else if kn is Err {
            Err(kn->Err_0)
        } else if kmh is Err {
            Err(kmh->Err_0)
        } else {
            Ok(
                VtgModel {
                    talker: s.talker,
                    course_true_deg: ct->Ok_0,
                    course_magnetic_deg: cm->Ok_0,
                    speed_knots: kn->Ok_0,
                    speed_kmh: kmh->Ok_0,
                    mode: opt_map_mode(first_byte_of(f, 8)),
                },
            )
        }
    }
}

/// Decode the fields of a VTG sentence.
pub fn decode_vtg(raw: &RawSentence) -> (res: Result<VtgData, DecodeError>)
    ensures
        vtg_result_view(res) == vtg_spec(raw@),
{
    let f = &raw.fields;
    if f.len() < VTG_MIN_FIELDS {
        return Err(DecodeError::NotEnoughFields { expected: VTG_MIN_FIELDS, got: f.len() });
    }
    let course_true_deg = match optional_number(f[0].as_slice(), 0) {
        Ok(v) => v,
        Err(e) => return Err(e),
    };
    let course_magnetic_deg = match optional_number(f[2].as_slice(), 2) {
        Ok(v) => v,
        Err(e) => return Err(e),
    };
    let speed_knots = match optional_number(f[4].as_slice(), 4) {
        Ok(v) => v,
        Err(e) => return Err(e),
    };
    let speed_kmh = match optional_number(f[6].as_slice(), 6) {
        Ok(v) => v,
        Err(e) => return Err(e),
    };
    let mode = match first_byte(raw, 8) {
        Some(b) => Some(VtgMode::from_byte(b)),
        None => None,
    };
    Ok(VtgData { talker: raw.talker, course_true_deg, course_magnetic_deg, speed_knots, speed_kmh, mode })
}

} // verus!
