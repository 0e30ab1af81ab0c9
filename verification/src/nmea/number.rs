//! Numeric fields: the decimal text a float field must hold, and the
//! signed (hemisphere- or direction-qualified) fields built on it.

use vstd::prelude::*;
use vstd::utf8::valid_utf8;
use crate::envelope::{find, find_byte};
use crate::nmea::error::DecodeError;
use crate::nmea::util::is_utf8;
use crate::text::{all_digits, is_digit};

verus! {

/// ASCII lower-casing.
pub open spec fn lower(c: u8) -> u8 {
    if 0x41 <= c <= 0x5A {
        (c + 0x20) as u8
    } else {
        c
    }
}

/// `s` without one leading `+` or `-`.
pub open spec fn without_sign(s: Seq<u8>) -> Seq<u8> {
    if s.len() > 0 && (s[0] == 0x2B || s[0] == 0x2D) {
        s.drop_first()
    } else {
        s
    }
}

/// `s`, lower-cased, is the word `w`.
pub open spec fn spells(s: Seq<u8>, w: Seq<u8>) -> bool {
    s.len() == w.len() && forall|i: int| 0 <= i < s.len() ==> lower(#[trigger] s[i]) == w[i]
}

pub open spec fn word_inf() -> Seq<u8> {
    seq![0x69u8, 0x6E, 0x66]
}

pub open spec fn word_infinity() -> Seq<u8> {
    seq![0x69u8, 0x6E, 0x66, 0x69, 0x6E, 0x69, 0x74, 0x79]
}

pub open spec fn word_nan() -> Seq<u8> {
    seq![0x6Eu8, 0x61, 0x6E]
}

/// `inf`, `infinity` or `nan`, in any case.
pub open spec fn special_value(s: Seq<u8>) -> bool {
    spells(s, word_inf()) || spells(s, word_infinity()) || spells(s, word_nan())
}

pub open spec fn is_exp_mark(c: u8) -> bool {
    c == 0x45 || c == 0x65
}

/// The first `e` or `E` at or after `from`.
pub open spec fn find_exp(s: Seq<u8>, from: int) -> Option<int>
    decreases s.len() - from,
{
    if from < 0 || from >= s.len() {
        None
    } else if is_exp_mark(s[from]) {
        Some(from)
    } else {
        find_exp(s, from + 1)
    }
}

/// `Digit+ | Digit+ '.' Digit* | Digit* '.' Digit+`.
pub open spec fn mantissa_ok(s: Seq<u8>) -> bool {
    match find_byte(s, 0x2E, 0) {
        None => s.len() > 0 && all_digits(s),
        Some(d) => s.len() > 1 && all_digits(s.subrange(0, d)) && all_digits(s.subrange(d + 1, s.len() as int)),
    }
}

/// `Sign? Digit+`.
pub open spec fn exponent_ok(s: Seq<u8>) -> bool {
    let d = without_sign(s);
    d.len() > 0 && all_digits(d)
}

/// The text the standard library's float parse accepts, as its
/// documentation gives the grammar (applied to the lower-cased text):
/// `Sign? ( 'inf' | 'infinity' | 'nan' | Number )`, where
/// `Number ::= ( Digit+ | Digit+ '.' Digit* | Digit* '.' Digit+ ) Exp?`
/// and `Exp ::= 'e' Sign? Digit+`.
pub open spec fn float_syntax(s: Seq<u8>) -> bool {
    let b = without_sign(s);
    special_value(b) || match find_exp(b, 0) {
        None => mantissa_ok(b),
        Some(k) => mantissa_ok(b.subrange(0, k)) && exponent_ok(b.subrange(k + 1, b.len() as int)),
    }
}

/// The text of a numeric field that parses as a float; the float itself is
/// read from it where floating point is available.
#[derive(Debug, Clone, PartialEq, Eq)]
pub struct Number {
    /// The field's bytes, in float syntax.
    pub text: Vec<u8>,
}

/// What an optional numeric field decodes to: empty → `None`; otherwise
/// UTF-8 and float syntax, errors reported against `field_index`.
pub open spec fn optional_number_spec(b: Seq<u8>, field_index: usize) -> Result<Option<Seq<u8>>, DecodeError> {
    if b.len() == 0 {
        Ok(None)
    } else if !valid_utf8(b) {
        Err(DecodeError::InvalidUtf8 { field_index })
    } else if !float_syntax(b) {
        Err(DecodeError::InvalidNumber { field_index })
    } else {
        Ok(Some(b))
    }
}

pub open spec fn number_view(r: Result<Option<Number>, DecodeError>) -> Result<Option<Seq<u8>>, DecodeError> {
    match r {
        Ok(Some(n)) => Ok(Some(n.text@)),
        Ok(None) => Ok(None),
        Err(e) => Err(e),
    }
}

pub open spec fn opt_number_text(o: Option<Number>) -> Option<Seq<u8>> {
    match o {
        Some(n) => Some(n.text@),
        None => None,
    }
}

fn all_digits_exec(b: &[u8]) -> (r: bool)
    ensures
        r == all_digits(b@),
{
    let mut i: usize = 0;
    while i < b.len()
        invariant
            i <= b@.len(),
            forall|k: int| 0 <= k < i ==> is_digit(#[trigger] b@[k]),
        decreases b@.len() - i,
    {
        if b[i] < 0x30 || b[i] > 0x39 {
            return false;
        }
        i = i + 1;
    }
    true
}

fn lower_exec(c: u8) -> (r: u8)
    ensures
        r == lower(c),
{
    if 0x41 <= c && c <= 0x5A {
        c + 0x20
    } else {
        c
    }
}

fn spells_exec(b: &[u8], w: &[u8]) -> (r: bool)
    ensures
        r == spells(b@, w@),
{
    if b.len() != w.len() {
        return false;
    }
    let mut i: usize = 0;
    while i < b.len()
        invariant
            i <= b@.len(),
            b@.len() == w@.len(),
            forall|k: int| 0 <= k < i ==> lower(#[trigger] b@[k]) == w@[k],
        decreases b@.len() - i,
    {
        if lower_exec(b[i]) != w[i] {
            return false;
        }
        i = i + 1;
    }
    true
}

fn special_value_exec(b: &[u8]) -> (r: bool)
    ensures
        r == special_value(b@),
{
    let inf: [u8; 3] = [0x69, 0x6E, 0x66];
    let infinity: [u8; 8] = [0x69, 0x6E, 0x66, 0x69, 0x6E, 0x69, 0x74, 0x79];
    let nan: [u8; 3] = [0x6E, 0x61, 0x6E];
    proof {
        assert(inf@ =~= word_inf());
        assert(infinity@ =~= word_infinity());
        assert(nan@ =~= word_nan());
    }
    spells_exec(b, inf.as_slice()) || spells_exec(b, infinity.as_slice()) || spells_exec(b, nan.as_slice())
}

proof fn lemma_find_exp_range(s: Seq<u8>, from: int)
    ensures
        find_exp(s, from) matches Some(i) ==> from <= i < s.len(),
    decreases s.len() - from,
{
    if 0 <= from < s.len() && !is_exp_mark(s[from]) {
        lemma_find_exp_range(s, from + 1);
    }
}

fn find_exp_exec(b: &[u8]) -> (r: Option<usize>)
    ensures
        match r {
            Some(i) => find_exp(b@, 0) == Some(i as int) && i < b@.len(),
            None => find_exp(b@, 0) is None,
        },
{
    proof {
        lemma_find_exp_range(b@, 0);
    }
    let mut i: usize = 0;
    while i < b.len()
        invariant
            find_exp(b@, 0) == find_exp(b@, i as int),
        decreases b@.len() - i,
    {
        if b[i] == 0x45 || b[i] == 0x65 {
            return Some(i);
        }
        i = i + 1;
    }
    None
}

fn mantissa_ok_exec(b: &[u8]) -> (r: bool)
    ensures
        r == mantissa_ok(b@),
{
    let dot = find(b, 0x2E, 0);
    match dot {
        None => b.len() > 0 && all_digits_exec(b),
        Some(d) => {
            assert(d < b.len());
            let before = vstd::slice::slice_subrange(b, 0, d);
            let after = vstd::slice::slice_subrange(b, d + 1, b.len());
            b.len() > 1 && all_digits_exec(before) && all_digits_exec(after)
        },
    }
}

fn exponent_ok_exec(b: &[u8]) -> (r: bool)
    ensures
        r == exponent_ok(b@),
{
    let d = if b.len() > 0 && (b[0] == 0x2B || b[0] == 0x2D) {
        vstd::slice::slice_subrange(b, 1, b.len())
    } else {
        b
    };
    proof {
        assert(d@ =~= without_sign(b@));
    }
    d.len() > 0 && all_digits_exec(d)
}

/// Whether `b` is in float syntax.
pub fn is_float_text(b: &[u8]) -> (r: bool)
    ensures
        r == float_syntax(b@),
{
    let body = if b.len() > 0 && (b[0] == 0x2B || b[0] == 0x2D) {
        vstd::slice::slice_subrange(b, 1, b.len())
    } else {
        b
    };
    proof {
        assert(body@ =~= without_sign(b@));
    }
    if special_value_exec(body) {
        return true;
    }
    match find_exp_exec(body) {
        None => mantissa_ok_exec(body),
        Some(k) => {
            let m = vstd::slice::slice_subrange(body, 0, k);
            let e = vstd::slice::slice_subrange(body, k + 1, body.len());
            mantissa_ok_exec(m) && exponent_ok_exec(e)
        },
    }
}

/// An optional numeric field: empty → `None`; otherwise it must be UTF-8
/// and in float syntax.
pub fn optional_number(bytes: &[u8], field_index: usize) -> (res: Result<Option<Number>, DecodeError>)
    ensures
        number_view(res) == optional_number_spec(bytes@, field_index),
{
    if bytes.len() == 0 {
        return Ok(None);
    }
    if !is_utf8(bytes) {
        return Err(DecodeError::InvalidUtf8 { field_index });
    }
    if !is_float_text(bytes) {
        return Err(DecodeError::InvalidNumber { field_index });
    }
    Ok(Some(Number { text: vstd::slice::slice_to_vec(bytes) }))
}

/// A numeric field with the sign its hemisphere or direction letter gives.
#[derive(Debug, Clone, PartialEq, Eq)]
pub struct SignedNumber {
    /// The magnitude's text, in float syntax.
    pub magnitude: Number,
    /// `true` for the negative letter (`S`, `W`).
    pub negative: bool,
}

pub open spec fn signed_view(r: Result<Option<SignedNumber>, DecodeError>) -> Result<Option<(Seq<u8>, bool)>, DecodeError> {
    match r {
        Ok(Some(v)) => Ok(Some((v.magnitude.text@, v.negative))),
        Ok(None) => Ok(None),
        Err(e) => Err(e),
    }
}

pub open spec fn opt_signed_text(o: Option<SignedNumber>) -> Option<(Seq<u8>, bool)> {
    match o {
        Some(v) => Some((v.magnitude.text@, v.negative)),
        None => None,
    }
}

/// The sign a letter gives: `pos` (either case) → positive, `neg` →
/// negative, anything else → `None`.
pub open spec fn sign_of(c: u8, pos: u8, neg: u8) -> Option<bool> {
    if lower(c) == lower(pos) {
        Some(false)
    } else if lower(c) == lower(neg) {
        Some(true)
    } else {
        None
    }
}

/// A magnitude field `m` paired with a letter field `d`: both empty →
/// `None`; exactly one empty → `InvalidHemisphere` at `di`; then the
/// magnitude must be UTF-8 and a number (errors at `mi`), then in range
/// (`OutOfRange` at `mi`), then the letter must be `pos` or `neg`.
pub open spec fn signed_spec(
    m: Seq<u8>,
    d: Seq<u8>,
    mi: usize,
    di: usize,
    pos: u8,
    neg: u8,
    in_range: bool,
) -> Result<Option<(Seq<u8>, bool)>, DecodeError> {
    if m.len() == 0 && d.len() == 0 {
        Ok(None)
    } else if m.len() == 0 || d.len() == 0 {
        Err(DecodeError::InvalidHemisphere { field_index: di })
    } else if !valid_utf8(m) {
        Err(DecodeError::InvalidUtf8 { field_index: mi })
    } else if !float_syntax(m) {
        Err(DecodeError::InvalidNumber { field_index: mi })
    } else if !in_range {
        Err(DecodeError::OutOfRange { field_index: mi })
    } else {
        match sign_of(d[0], pos, neg) {
            Some(n) => Ok(Some((m, n))),
            None => Err(DecodeError::InvalidHemisphere { field_index: di }),
        }
    }
}

/// The letters of a latitude (`N`/`S`) or a longitude (`E`/`W`).
pub open spec fn hemisphere_letters(is_longitude: bool) -> (u8, u8) {
    if is_longitude {
        (0x45, 0x57)
    } else {
        (0x4E, 0x53)
    }
}

fn signed_field(
    m: &[u8],
    d: &[u8],
    mi: usize,
    di: usize,
    pos: u8,
    neg: u8,
    in_range: bool,
) -> (res: Result<Option<SignedNumber>, DecodeError>)
    requires
        0x41 <= pos <= 0x5A,
        0x41 <= neg <= 0x5A,
    ensures
        signed_view(res) == signed_spec(m@, d@, mi, di, pos, neg, in_range),
{
    if m.len() == 0 && d.len() == 0 {
        return Ok(None);
    }
    if m.len() == 0 || d.len() == 0 {
        return Err(DecodeError::InvalidHemisphere { field_index: di });
    }
    if !is_utf8(m) {
        return Err(DecodeError::InvalidUtf8 { field_index: mi });
    }
    if !is_float_text(m) {
        return Err(DecodeError::InvalidNumber { field_index: mi });
    }
    if !in_range {
        return Err(DecodeError::OutOfRange { field_index: mi });
    }
    let c = lower_exec(d[0]);
    let negative = if c == pos + 0x20 {
        false
    } else if c == neg + 0x20 {
        true
    } else {
        return Err(DecodeError::InvalidHemisphere { field_index: di });
    };
    Ok(Some(SignedNumber { magnitude: Number { text: vstd::slice::slice_to_vec(m) }, negative }))
}

/// A coordinate (`ddmm.mmmm` / `dddmm.mmmm` value and `N`/`S` or `E`/`W`
/// letter). `in_range` says whether the value, read as degrees and
/// minutes, lies within ±90° (±180° for a longitude); it is consulted
/// only once the value has parsed, before the letter is checked.
pub fn optional_coordinate(
    value: &[u8],
    hemisphere: &[u8],
    value_field_index: usize,
    hemisphere_field_index: usize,
    is_longitude: bool,
    in_range: bool,
) -> (res: Result<Option<SignedNumber>, DecodeError>)
    ensures
        signed_view(res) == signed_spec(
            value@,
            hemisphere@,
            value_field_index,
            hemisphere_field_index,
            hemisphere_letters(is_longitude).0,
            hemisphere_letters(is_longitude).1,
            in_range,
        ),
{
    if is_longitude {
        signed_field(value, hemisphere, value_field_index, hemisphere_field_index, 0x45, 0x57, in_range)
    } else {
        signed_field(value, hemisphere, value_field_index, hemisphere_field_index, 0x4E, 0x53, in_range)
    }
}

/// A magnitude with an `E` (positive) / `W` (negative) direction letter.
pub fn optional_signed_ew(
    magnitude: &[u8],
    direction: &[u8],
    magnitude_field_index: usize,
    direction_field_index: usize,
) -> (res: Result<Option<SignedNumber>, DecodeError>)
    ensures
        signed_view(res) == signed_spec(
            magnitude@,
            direction@,
            magnitude_field_index,
            direction_field_index,
            0x45,
            0x57,
            true,
        ),
{
    signed_field(magnitude, direction, magnitude_field_index, direction_field_index, 0x45, 0x57, true)
}

} // verus!
