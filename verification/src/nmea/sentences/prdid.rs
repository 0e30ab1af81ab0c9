//! PRDID — proprietary pitch / roll / heading, in one of two field orders.

use vstd::prelude::*;
use crate::envelope::{fields_view, RawSentence, SentenceView};
use crate::nmea::error::DecodeError;
use crate::nmea::number::{opt_number_text, optional_number, optional_number_spec, Number};
use crate::nmea::options::PrdidDialect;
use crate::nmea::sentences::fields::too_few;

verus! {

/// Minimum number of PRDID fields for a typed decode.
pub const PRDID_MIN_FIELDS: usize = 3;

/// Pitch, roll, heading in that order on the wire.
#[derive(Debug, Clone, PartialEq, Eq)]
pub struct PrdidPitchRollHeading {
    /// Pitch, degrees.
    pub pitch_deg: Option<Number>,
    /// Roll, degrees.
    pub roll_deg: Option<Number>,
    /// Heading, degrees.
    pub heading_deg: Option<Number>,
}

/// Roll, pitch, heading in that order on the wire.
#[derive(Debug, Clone, PartialEq, Eq)]
pub struct PrdidRollPitchHeading {
    /// Roll, degrees.
    pub roll_deg: Option<Number>,
    /// Pitch, degrees.
    pub pitch_deg: Option<Number>,
    /// Heading, degrees.
    pub heading_deg: Option<Number>,
}

/// A decoded PRDID sentence.
#[derive(Debug, Clone, PartialEq, Eq)]
pub enum PrdidData {
    /// Pitch-roll-heading dialect.
    PitchRollHeading(PrdidPitchRollHeading),
    /// Roll-pitch-heading dialect.
    RollPitchHeading(PrdidRollPitchHeading),
    /// Unknown dialect: the fields as sent.
    Raw {
        /// The sentence's fields.
        fields: Vec<Vec<u8>>,
    },
}

/// The three wire fields, in wire order, as texts.
pub type Triple = (Option<Seq<u8>>, Option<Seq<u8>>, Option<Seq<u8>>);

pub enum PrdidModel {
    PitchRollHeading(Triple),
    RollPitchHeading(Triple),
    Raw(Seq<Seq<u8>>),
}

impl View for PrdidData {
    type V = PrdidModel;

    open spec fn view(&self) -> PrdidModel {
        match self {
            PrdidData::PitchRollHeading(d) => PrdidModel::PitchRollHeading(
                (opt_number_text(d.pitch_deg), opt_number_text(d.roll_deg), opt_number_text(d.heading_deg)),
            ),
            PrdidData::RollPitchHeading(d) => PrdidModel::RollPitchHeading(
                (opt_number_text(d.roll_deg), opt_number_text(d.pitch_deg), opt_number_text(d.heading_deg)),
            ),
            PrdidData::Raw { fields } => PrdidModel::Raw(fields_view(fields@)),
        }
    }
}

/// The first three fields as numbers, in order.
pub open spec fn triple_spec(s: SentenceView) -> Result<Triple, DecodeError> {
    let f = s.fields;
    if f.len() < PRDID_MIN_FIELDS {
        Err(too_few(PRDID_MIN_FIELDS, f.len()))
    } else {
        let a = optional_number_spec(f[0], 0);
        let b = optional_number_spec(f[1], 1);
        let c = optional_number_spec(f[2], 2);
        if a is Err {
            Err(a->Err_0)
        } else if b is Err {
            Err(b->Err_0)
        } else if c is Err {
            Err(c->Err_0)
        } else {
            Ok((a->Ok_0, b->Ok_0, c->Ok_0))
        }
    }
}

/// What a PRDID sentence decodes to under `dialect`.
pub open spec fn prdid_spec(s: SentenceView, dialect: PrdidDialect) -> Result<PrdidModel, DecodeError> {
    match dialect {
        PrdidDialect::Unknown => Ok(PrdidModel::Raw(s.fields)),
        PrdidDialect::PitchRollHeading => match triple_spec(s) {
            Ok(t) => Ok(PrdidModel::PitchRollHeading(t)),
            Err(e) => Err(e),
        },
        PrdidDialect::RollPitchHeading => match triple_spec(s) {
            Ok(t) => Ok(PrdidModel::RollPitchHeading(t)),
            Err(e) => Err(e),
        },
    }
}

pub open spec fn prdid_result_view(r: Result<PrdidData, DecodeError>) -> Result<PrdidModel, DecodeError> {
    match r {
        Ok(d) => Ok(d@),
        Err(e) => Err(e),
    }
}

fn decode_triple(raw: &RawSentence) -> (res: Result<(Option<Number>, Option<Number>, Option<Number>), DecodeError>)
    ensures
        match triple_spec(raw@) {
            Ok(t) => res matches Ok(v) && t == (opt_number_text(v.0), opt_number_text(v.1), opt_number_text(v.2)),
            Err(e) => res == Err::<(Option<Number>, Option<Number>, Option<Number>), DecodeError>(e),
        },
{
    let f = &raw.fields;
    if f.len() < PRDID_MIN_FIELDS {
        return Err(DecodeError::NotEnoughFields { expected: PRDID_MIN_FIELDS, got: f.len() });
    }
    let a = match optional_number(f[0].as_slice(), 0) {
        Ok(v) => v,
        Err(e) => return Err(e),
    };
    let b = match optional_number(f[1].as_slice(), 1) {
        Ok(v) => v,
        Err(e) => return Err(e),
    };
    let c = match optional_number(f[2].as_slice(), 2) {
        Ok(v) => v,
        Err(e) => return Err(e),
    };
    Ok((a, b, c))
}

/// Decode fields 0, 1, 2 as pitch, roll, heading.
pub fn decode_prdid_pitch_roll_heading(raw: &RawSentence) -> (res: Result<PrdidPitchRollHeading, DecodeError>)
    ensures
        match triple_spec(raw@) {
            Ok(t) => res matches Ok(d) && t == (
                opt_number_text(d.pitch_deg),
                opt_number_text(d.roll_deg),
                opt_number_text(d.heading_deg),
            ),
            Err(e) => res == Err::<PrdidPitchRollHeading, DecodeError>(e),
        },
{
    match decode_triple(raw) {
        Ok((pitch_deg, roll_deg, heading_deg)) => Ok(PrdidPitchRollHeading { pitch_deg, roll_deg, heading_deg }),
        Err(e) => Err(e),
    }
}

/// Decode fields 0, 1, 2 as roll, pitch, heading.
pub fn decode_prdid_roll_pitch_heading(raw: &RawSentence) -> (res: Result<PrdidRollPitchHeading, DecodeError>)
    ensures
        match triple_spec(raw@) {
            Ok(t) => res matches Ok(d) && t == (
                opt_number_text(d.roll_deg),
                opt_number_text(d.pitch_deg),
                opt_number_text(d.heading_deg),
            ),
            Err(e) => res == Err::<PrdidRollPitchHeading, DecodeError>(e),
        },
{
    match decode_triple(raw) {
        Ok((roll_deg, pitch_deg, heading_deg)) => Ok(PrdidRollPitchHeading { roll_deg, pitch_deg, heading_deg }),
        Err(e) => Err(e),
    }
}

/// A copy of the sentence's fields.
pub fn copy_fields(raw: &RawSentence) -> (v: Vec<Vec<u8>>)
    ensures
        fields_view(v@) == raw@.fields,
{
    let mut v: Vec<Vec<u8>> = Vec::new();
    let mut i: usize = 0;
    while i < raw.fields.len()
        invariant
            i <= raw.fields@.len(),
            fields_view(v@) =~= fields_view(raw.fields@).subrange(0, i as int),
        decreases raw.fields@.len() - i,
    {
        let field = vstd::slice::slice_to_vec(raw.fields[i].as_slice());
        let ghost before = v@;
        v.push(field);
        proof {
            assert(v@ =~= before.push(field));
            assert(fields_view(v@) =~= fields_view(before).push(field@));
            assert(fields_view(raw.fields@)[i as int] == raw.fields@[i as int]@);
        }
        i = i + 1;
    }
    proof {
        assert(fields_view(raw.fields@).subrange(0, i as int) =~= fields_view(raw.fields@));
    }
    v
}

/// Decode a PRDID sentence under `dialect`; the unknown dialect keeps the
/// raw fields and never fails.
pub fn decode_prdid(raw: &RawSentence, dialect: PrdidDialect) -> (res: Result<PrdidData, DecodeError>)
    ensures
        prdid_result_view(res) == prdid_spec(raw@, dialect),
{
    match dialect {
        PrdidDialect::Unknown => Ok(PrdidData::Raw { fields: copy_fields(raw) }),
        PrdidDialect::PitchRollHeading => match decode_prdid_pitch_roll_heading(raw) {
            Ok(d) => Ok(PrdidData::PitchRollHeading(d)),
            Err(e) => Err(e),
        },
        PrdidDialect::RollPitchHeading => match decode_prdid_roll_pitch_heading(raw) {
            Ok(d) => Ok(PrdidData::RollPitchHeading(d)),
            Err(e) => Err(e),
        },
    }
}

} // verus!
