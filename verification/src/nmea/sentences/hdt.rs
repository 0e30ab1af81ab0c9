//! HDT — true heading.

use vstd::prelude::*;
use crate::envelope::{RawSentence, SentenceView};
use crate::nmea::error::DecodeError;
use crate::nmea::number::{opt_number_text, optional_number, optional_number_spec, Number};
use crate::nmea::sentences::fields::{talker_view, too_few};

verus! {

/// Minimum number of HDT fields.
pub const HDT_MIN_FIELDS: usize = 2;

/// Decoded HDT fields.
#[derive(Debug, Clone, PartialEq, Eq)]
pub struct HdtData {
    /// Talker of the sentence.
    pub talker: Option<[u8; 2]>,
    /// Heading, degrees true.
    pub heading_true_deg: Option<Number>,
}

pub struct HdtModel {
    pub talker: Option<Seq<u8>>,
    pub heading_true_deg: Option<Seq<u8>>,
}

impl View for HdtData {
    type V = HdtModel;

    open spec fn view(&self) -> HdtModel {
        HdtModel { talker: talker_view(self.talker), heading_true_deg: opt_number_text(self.heading_true_deg) }
    }
}

pub open spec fn hdt_result_view(r: Result<HdtData, DecodeError>) -> Result<HdtModel, DecodeError> {
    match r {
        Ok(d) => Ok(d@),
        Err(e) => Err(e),
    }
}

/// What an HDT sentence decodes to.
pub open spec fn hdt_spec(s: SentenceView) -> Result<HdtModel, DecodeError> {
    let f = s.fields;
    if f.len() < HDT_MIN_FIELDS {
        Err(too_few(HDT_MIN_FIELDS, f.len()))
    } else {
        match optional_number_spec(f[0], 0) {
            Ok(h) => Ok(HdtModel { talker: s.talker, heading_true_deg: h }),
            Err(e) => Err(e),
        }
    }
}

/// Decode the fields of an HDT sentence.
pub fn decode_hdt(raw: &RawSentence) -> (res: Result<HdtData, DecodeError>)
    ensures
        hdt_result_view(res) == hdt_spec(raw@),
{
    let f = &raw.fields;
    if f.len() < HDT_MIN_FIELDS {
        return Err(DecodeError::NotEnoughFields { expected: HDT_MIN_FIELDS, got: f.len() });
    }
    match optional_number(f[0].as_slice(), 0) {
        Ok(heading_true_deg) => Ok(HdtData { talker: raw.talker, heading_true_deg }),
        Err(e) => Err(e),
    }
}

} // verus!
