//! Helpers shared by the sentence decoders.

use vstd::prelude::*;
use crate::envelope::RawSentence;
use crate::nmea::error::DecodeError;
use crate::nmea::utc_time::{utc_time_spec, UtcTime};

verus! {

/// The talker of a framed sentence, as the two-byte array it is stored in.
pub open spec fn talker_view(t: Option<[u8; 2]>) -> Option<Seq<u8>> {
    match t {
        Some(a) => Some(a@),
        None => None,
    }
}

/// What an optional time field decodes to: empty → `None`; otherwise a
/// valid `hhmmss[.sss]` or `InvalidUtcTime` at `field_index`.
pub open spec fn optional_utc_spec(b: Seq<u8>, field_index: usize) -> Result<Option<UtcTime>, DecodeError> {
    if b.len() == 0 {
        Ok(None)
    } else {
        match utc_time_spec(b) {
            Some(t) => Ok(Some(t)),
            None => Err(DecodeError::InvalidUtcTime { field_index }),
        }
    }
}

impl UtcTime {
    /// An optional time field: empty → `None`, otherwise [`UtcTime::parse`].
    pub fn parse_optional(bytes: &[u8], field_index: usize) -> (res: Result<Option<UtcTime>, DecodeError>)
        ensures
            res == optional_utc_spec(bytes@, field_index),
    {
        if bytes.len() == 0 {
            Ok(None)
        } else {
            match UtcTime::parse(bytes, field_index) {
                Ok(t) => Ok(Some(t)),
                Err(e) => Err(e),
            }
        }
    }
}

/// The first byte of field `i`, when the field is present and non-empty.
pub open spec fn first_byte_of(f: Seq<Seq<u8>>, i: int) -> Option<u8> {
    if 0 <= i < f.len() && f[i].len() > 0 {
        Some(f[i][0])
    } else {
        None
    }
}

/// The first byte of field `i` of the sentence, when present and non-empty.
pub fn first_byte(raw: &RawSentence, i: usize) -> (r: Option<u8>)
    ensures
        r == first_byte_of(raw@.fields, i as int),
{
    if i < raw.fields.len() && raw.fields[i].len() > 0 {
        Some(raw.fields[i][0])
    } else {
        None
    }
}

pub open spec fn opt_u8_nat(o: Option<u8>) -> Option<nat> {
    match o {
        Some(v) => Some(v as nat),
        None => None,
    }
}

pub open spec fn opt_u16_nat(o: Option<u16>) -> Option<nat> {
    match o {
        Some(v) => Some(v as nat),
        None => None,
    }
}

/// The error for a sentence with fewer fields than `expected`.
pub open spec fn too_few(expected: usize, got: nat) -> DecodeError {
    DecodeError::NotEnoughFields { expected, got: got as usize }
}

} // verus!
