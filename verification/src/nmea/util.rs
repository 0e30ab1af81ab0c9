//! Field-level parsing primitives shared by sentence decoders.

use vstd::prelude::*;
use vstd::utf8::{decode_utf8, valid_utf8};
use crate::nmea::error::DecodeError;
use crate::text::{decimal_spec, parse_unsigned};

verus! {

/// `core::str::from_utf8`: succeeds exactly on valid UTF-8, and the string
/// it gives holds the characters the bytes encode.
#[verifier::external_body]
fn str_from_utf8(bytes: &[u8]) -> (r: Option<&str>)
    ensures
        r is Some <==> valid_utf8(bytes@),
        r matches Some(s) ==> s@ == decode_utf8(bytes@),
{
    core::str::from_utf8(bytes).ok()
}

/// Whether `bytes` is valid UTF-8.
pub fn is_utf8(bytes: &[u8]) -> (r: bool)
    ensures
        r == valid_utf8(bytes@),
{
    str_from_utf8(bytes).is_some()
}

/// The field, or `None` when it is empty.
pub fn non_empty(bytes: &[u8]) -> (r: Option<&[u8]>)
    ensures
        r == if bytes@.len() == 0 { None } else { Some(bytes) },
{
    if bytes.len() == 0 {
        None
    } else {
        Some(bytes)
    }
}

/// What an optional unsigned field with largest value `max` decodes to.
pub open spec fn optional_unsigned_spec(b: Seq<u8>, max: nat, field_index: usize) -> Result<Option<nat>, DecodeError> {
    if b.len() == 0 {
        Ok(None)
    } else if !valid_utf8(b) {
        Err(DecodeError::InvalidUtf8 { field_index })
    } else {
        match decimal_spec(b, max) {
            Some(v) => Ok(Some(v)),
            None => Err(DecodeError::InvalidNumber { field_index }),
        }
    }
}

/// An optional `u8` field: empty → `None`; otherwise UTF-8 and a decimal
/// `u8` parse, reported against `field_index`.
pub fn optional_u8(bytes: &[u8], field_index: usize) -> (res: Result<Option<u8>, DecodeError>)
    ensures
        res == match optional_unsigned_spec(bytes@, 255, field_index) {
            Ok(Some(v)) => Ok(Some(v as u8)),
            Ok(None) => Ok(None),
            Err(e) => Err::<Option<u8>, DecodeError>(e),
        },
{
    if bytes.len() == 0 {
        return Ok(None);
    }
    if str_from_utf8(bytes).is_none() {
        return Err(DecodeError::InvalidUtf8 { field_index });
    }
    match parse_unsigned(bytes, 255) {
        Some(v) => Ok(Some(v as u8)),
        None => Err(DecodeError::InvalidNumber { field_index }),
    }
}

/// An optional `u16` field: empty → `None`; otherwise UTF-8 and a decimal
/// `u16` parse, reported against `field_index`.
pub fn optional_u16(bytes: &[u8], field_index: usize) -> (res: Result<Option<u16>, DecodeError>)
    ensures
        res == match optional_unsigned_spec(bytes@, 65535, field_index) {
            Ok(Some(v)) => Ok(Some(v as u16)),
            Ok(None) => Ok(None),
            Err(e) => Err::<Option<u16>, DecodeError>(e),
        },
{
    if bytes.len() == 0 {
        return Ok(None);
    }
    if str_from_utf8(bytes).is_none() {
        return Err(DecodeError::InvalidUtf8 { field_index });
    }
    match parse_unsigned(bytes, 65535) {
        Some(v) => Ok(Some(v as u16)),
        None => Err(DecodeError::InvalidNumber { field_index }),
    }
}

pub open spec fn opt_text(r: Result<Option<String>, DecodeError>) -> Result<Option<Seq<char>>, DecodeError> {
    match r {
        Ok(Some(s)) => Ok(Some(s@)),
        Ok(None) => Ok(None),
        Err(e) => Err(e),
    }
}

/// An optional text field: empty → `None`; otherwise the UTF-8 text.
pub fn optional_string(bytes: &[u8], field_index: usize) -> (res: Result<Option<String>, DecodeError>)
    ensures
        opt_text(res) == if bytes@.len() == 0 {
            Ok(None)
        } else if !valid_utf8(bytes@) {
            Err(DecodeError::InvalidUtf8 { field_index })
        } else {
            Ok(Some(decode_utf8(bytes@)))
        },
{
    if bytes.len() == 0 {
        return Ok(None);
    }
    match str_from_utf8(bytes) {
        Some(s) => Ok(Some(s.to_owned())),
        None => Err(DecodeError::InvalidUtf8 { field_index }),
    }
}

} // verus!
