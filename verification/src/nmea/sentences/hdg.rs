//! HDG — magnetic heading, deviation and variation.

use vstd::prelude::*;
use crate::envelope::{RawSentence, SentenceView};
use crate::nmea::error::DecodeError;
use crate::nmea::number::{
    opt_number_text, opt_signed_text, optional_number, optional_number_spec, optional_signed_ew, signed_spec, Number,
    SignedNumber,
};
use crate::nmea::sentences::fields::{talker_view, too_few};

verus! {

/// Minimum number of HDG fields.
pub const HDG_MIN_FIELDS: usize = 5;

/// Decoded HDG fields.
#[derive(Debug, Clone, PartialEq, Eq)]
pub struct HdgData {
    /// Talker of the sentence.
    pub talker: Option<[u8; 2]>,
    /// Magnetic sensor heading, degrees.
    pub heading_magnetic_deg: Option<Number>,
    /// Magnetic deviation (west negative).
    pub deviation: Option<SignedNumber>,
    /// Magnetic variation (west negative).
    pub variation: Option<SignedNumber>,
}

pub struct HdgModel {
    pub talker: Option<Seq<u8>>,
    pub heading_magnetic_deg: Option<Seq<u8>>,
    pub deviation: Option<(Seq<u8>, bool)>,
    pub variation: Option<(Seq<u8>, bool)>,
}

impl View for HdgData {
    type V = HdgModel;

    open spec fn view(&self) -> HdgModel {
        HdgModel {
            talker: talker_view(self.talker),
            heading_magnetic_deg: opt_number_text(self.heading_magnetic_deg),
            deviation: opt_signed_text(self.deviation),
            variation: opt_signed_text(self.variation),
        }
    }
}

pub open spec fn hdg_result_view(r: Result<HdgData, DecodeError>) -> Result<HdgModel, DecodeError> {
    match r {
        Ok(d) => Ok(d@),
        Err(e) => Err(e),
    }
}

/// What an HDG sentence decodes to.
pub open spec fn hdg_spec(s: SentenceView) -> Result<HdgModel, DecodeError> {
    let f = s.fields;
    if f.len() < HDG_MIN_FIELDS {
        Err(too_few(HDG_MIN_FIELDS, f.len()))
    } else {
        let h = optional_number_spec(f[0], 0);
        let dev = signed_spec(f[1], f[2], 1, 2, 0x45, 0x57, true);
        let var = signed_spec(f[3], f[4], 3, 4, 0x45, 0x57, true);
        if h is Err {
            Err(h->Err_0)
        } else if dev is Err {
            Err(dev->Err_0)
        } else if var is Err {
            Err(var->Err_0)
        } else {
            Ok(
                HdgModel {
                    talker: s.talker,
                    heading_magnetic_deg: h->Ok_0,
                    deviation: dev->Ok_0,
                    variation: var->Ok_0,
                },
            )
        }
    }
}

/// Decode the fields of an HDG sentence.
pub fn decode_hdg(raw: &RawSentence) -> (res: Result<HdgData, DecodeError>)
    ensures
        hdg_result_view(res) == hdg_spec(raw@),
{
    let f = &raw.fields;
    if f.len() < HDG_MIN_FIELDS {
        return Err(DecodeError::NotEnoughFields { expected: HDG_MIN_FIELDS, got: f.len() });
    }
    let heading_magnetic_deg = match optional_number(f[0].as_slice(), 0) {
        Ok(v) => v,
        Err(e) => return Err(e),
    };
    let deviation = match optional_signed_ew(f[1].as_slice(), f[2].as_slice(), 1, 2) {
        Ok(v) => v,
        Err(e) => return Err(e),
    };
    let variation = match optional_signed_ew(f[3].as_slice(), f[4].as_slice(), 3, 4) {
        Ok(v) => v,
        Err(e) => return Err(e),
    };
    Ok(HdgData { talker: raw.talker, heading_magnetic_deg, deviation, variation })
}

} // verus!
