//! UTC time (`hhmmss[.sss]`) and date (`ddmmyy`) fields.

use vstd::prelude::*;
use crate::envelope::find_byte;
use crate::nmea::error::DecodeError;
use crate::text::{all_digits, is_digit};

verus! {

/// A UTC time of day.
#[derive(Debug, Clone, Copy, PartialEq, Eq, Structural)]
pub struct UtcTime {
    /// 0..=23.
    pub hour: u8,
    /// 0..=59.
    pub minute: u8,
    /// 0..=60 (60 allows a leap second).
    pub second: u8,
    /// Fractional seconds as milliseconds, 0..=999.
    pub millisecond: u16,
}

/// The value of the ASCII digit `c`.
pub open spec fn dv(c: u8) -> nat {
    (c - 0x30) as nat
}

/// The time a `hhmmss[.f...]` field denotes: six digits, an optional `.`
/// and digits whose first three give the milliseconds (padded with zeros);
/// `None` when malformed or out of range.
pub open spec fn utc_time_spec(b: Seq<u8>) -> Option<UtcTime> {
    let (fixed, frac) = match find_byte(b, 0x2E, 0) {
        Some(dot) => (b.subrange(0, dot), b.subrange(dot + 1, b.len() as int)),
        None => (b, Seq::<u8>::empty()),
    };
    let hour = dv(fixed[0]) * 10 + dv(fixed[1]);
    let minute = dv(fixed[2]) * 10 + dv(fixed[3]);
    let second = dv(fixed[4]) * 10 + dv(fixed[5]);
    let ms = if frac.len() == 0 {
        0
    } else {
        dv(frac[0]) * 100 + (if frac.len() > 1 { dv(frac[1]) * 10 } else { 0 }) + (if frac.len() > 2 {
            dv(frac[2])
        } else {
            0
        })
    };
    if b.len() < 6 || fixed.len() != 6 || !all_digits(fixed) {
        None
    } else if hour > 23 || minute > 59 || second > 60 {
        None
    } else if !all_digits(frac) {
        None
    } else {
        Some(UtcTime { hour: hour as u8, minute: minute as u8, second: second as u8, millisecond: ms as u16 })
    }
}

fn digits_in(b: &[u8], start: usize, end: usize) -> (r: bool)
    requires
        start <= end <= b@.len(),
    ensures
        r == all_digits(b@.subrange(start as int, end as int)),
{
    let mut i = start;
    while i < end
        invariant
            start <= i <= end <= b@.len(),
            forall|k: int| start <= k < i ==> is_digit(#[trigger] b@[k]),
        decreases end - i,
    {
        if b[i] < 0x30 || b[i] > 0x39 {
            proof {
                assert(b@.subrange(start as int, end as int)[i - start] == b@[i as int]);
            }
            return false;
        }
        i = i + 1;
    }
    proof {
        let s = b@.subrange(start as int, end as int);
        assert forall|k: int| 0 <= k < s.len() implies is_digit(#[trigger] s[k]) by {
            assert(s[k] == b@[start + k]);
        }
    }
    true
}

impl UtcTime {
    /// Parse a `hhmmss[.sss]` field; every malformation is
    /// `InvalidUtcTime` against `field_index`.
    pub fn parse(bytes: &[u8], field_index: usize) -> (res: Result<UtcTime, DecodeError>)
        ensures
            res == match utc_time_spec(bytes@) {
                Some(t) => Ok(t),
                None => Err::<UtcTime, DecodeError>(DecodeError::InvalidUtcTime { field_index }),
            },
    {
        let err = DecodeError::InvalidUtcTime { field_index };
        if bytes.len() < 6 {
            return Err(err);
        }
        let mut dot = bytes.len();
        let mut k: usize = 0;
        while k < bytes.len()
            invariant_except_break
                dot == bytes@.len(),
            invariant
                0 <= k <= bytes@.len(),
                find_byte(bytes@, 0x2E, 0) == find_byte(bytes@, 0x2E, k as int),
            ensures
                dot <= bytes@.len(),
                dot == bytes@.len() ==> find_byte(bytes@, 0x2E, 0) is None,
                dot < bytes@.len() ==> find_byte(bytes@, 0x2E, 0) == Some(dot as int),
            decreases bytes@.len() - k,
        {
            if bytes[k] == 0x2E {
                dot = k;
                break;
            }
            k = k + 1;
        }
        let frac_start = if dot < bytes.len() { dot + 1 } else { bytes.len() };
        let ghost fixed = bytes@.subrange(0, dot as int);
        let ghost frac = bytes@.subrange(frac_start as int, bytes@.len() as int);
        proof {
            if dot == bytes@.len() {
                assert(fixed =~= bytes@);
                assert(frac =~= Seq::<u8>::empty());
            }
        }
        if dot != 6 || !digits_in(bytes, 0, 6) {
            proof {
                if dot == 6 {
                    assert(fixed =~= bytes@.subrange(0, 6));
                }
            }
            return Err(err);
        }
        proof {
            let f6 = bytes@.subrange(0, 6);
            assert(fixed =~= f6);
            assert forall|j: int| 0 <= j < 6 implies is_digit(#[trigger] bytes@[j]) by {
                assert(f6[j] == bytes@[j]);
            }
        }
        let hour = (bytes[0] - 0x30) * 10 + (bytes[1] - 0x30);
        let minute = (bytes[2] - 0x30) * 10 + (bytes[3] - 0x30);
        let second = (bytes[4] - 0x30) * 10 + (bytes[5] - 0x30);
        if hour > 23 || minute > 59 || second > 60 {
            return Err(err);
        }
        let n = bytes.len() - frac_start;
        if !digits_in(bytes, frac_start, bytes.len()) {
            return Err(err);
        }
        let mut ms: u16 = 0;
        if n > 0 {
            ms = (bytes[frac_start] - 0x30) as u16 * 100;
        }
        if n > 1 {
            ms = ms + (bytes[frac_start + 1] - 0x30) as u16 * 10;
        }
        if n > 2 {
            ms = ms + (bytes[frac_start + 2] - 0x30) as u16;
        }
        proof {
            if n > 0 {
                assert(frac[0] == bytes@[frac_start as int]);
            }
            if n > 1 {
                assert(frac[1] == bytes@[frac_start + 1]);
            }
            if n > 2 {
                assert(frac[2] == bytes@[frac_start + 2]);
            }
        }
        Ok(UtcTime { hour, minute, second, millisecond: ms })
    }
}

/// A UTC calendar date (`ddmmyy`).
#[derive(Debug, Clone, Copy, PartialEq, Eq, Structural)]
pub struct UtcDate {
    /// 1..=31.
    pub day: u8,
    /// 1..=12.
    pub month: u8,
    /// Two-digit year, 0..=99.
    pub year_yy: u8,
}

/// The date a `ddmmyy` field denotes: exactly six digits, day 1..=31 and
/// month 1..=12; `None` otherwise.
pub open spec fn utc_date_spec(b: Seq<u8>) -> Option<UtcDate> {
    let day = dv(b[0]) * 10 + dv(b[1]);
    let month = dv(b[2]) * 10 + dv(b[3]);
    let year = dv(b[4]) * 10 + dv(b[5]);
    if b.len() != 6 || !all_digits(b) || !(1 <= day <= 31) || !(1 <= month <= 12) {
        None
    } else {
        Some(UtcDate { day: day as u8, month: month as u8, year_yy: year as u8 })
    }
}

impl UtcDate {
    /// Parse a `ddmmyy` field; every malformation is `InvalidUtcTime`
    /// against `field_index`.
    pub fn parse(bytes: &[u8], field_index: usize) -> (res: Result<UtcDate, DecodeError>)
        ensures
            res == match utc_date_spec(bytes@) {
                Some(d) => Ok(d),
                None => Err::<UtcDate, DecodeError>(DecodeError::InvalidUtcTime { field_index }),
            },
    {
        if bytes.len() != 6 || !digits_in(bytes, 0, 6) {
            proof {
                if bytes@.len() == 6 {
                    assert(bytes@.subrange(0, 6) =~= bytes@);
                }
            }
            return Err(DecodeError::InvalidUtcTime { field_index });
        }
        proof {
            assert(bytes@.subrange(0, 6) =~= bytes@);
        }
        let day = (bytes[0] - 0x30) * 10 + (bytes[1] - 0x30);
        let month = (bytes[2] - 0x30) * 10 + (bytes[3] - 0x30);
        let year_yy = (bytes[4] - 0x30) * 10 + (bytes[5] - 0x30);
        if day < 1 || day > 31 || month < 1 || month > 12 {
            return Err(DecodeError::InvalidUtcTime { field_index });
        }
        Ok(UtcDate { day, month, year_yy })
    }
}

/// The two ASCII digits of `n` (below 100), tens first.
pub open spec fn two_digits(n: nat) -> Seq<u8> {
    seq![(0x30 + n / 10) as u8, (0x30 + n % 10) as u8]
}

proof fn lemma_no_dot_in_digits(b: Seq<u8>, from: int)
    requires
        0 <= from,
        all_digits(b),
    ensures
        find_byte(b, 0x2E, from) is None,
    decreases b.len() - from,
{
    if from < b.len() {
        assert(is_digit(b[from]));
        lemma_no_dot_in_digits(b, from + 1);
    }
}

/// A time written as `hhmmss` reads back: the hour is the first two
/// digits, the minute the next two and the second the last two.
pub proof fn lemma_utc_time_reads_back(h: nat, m: nat, sec: nat)
    requires
        h <= 23,
        m <= 59,
        sec <= 60,
    ensures
        utc_time_spec(two_digits(h) + two_digits(m) + two_digits(sec)) == Some(
            UtcTime { hour: h as u8, minute: m as u8, second: sec as u8, millisecond: 0 },
        ),
{
    let b = two_digits(h) + two_digits(m) + two_digits(sec);
    assert(b.len() == 6);
    assert(b[0] == (0x30 + h / 10) as u8 && b[1] == (0x30 + h % 10) as u8);
    assert(b[2] == (0x30 + m / 10) as u8 && b[3] == (0x30 + m % 10) as u8);
    assert(b[4] == (0x30 + sec / 10) as u8 && b[5] == (0x30 + sec % 10) as u8);
    assert(all_digits(b));
    lemma_no_dot_in_digits(b, 0);
    assert(all_digits(Seq::<u8>::empty()));
}

/// A date written as `ddmmyy` reads back: the day is the first two digits,
/// the month the next two and the year the last two.
pub proof fn lemma_utc_date_reads_back(d: nat, mo: nat, y: nat)
    requires
        1 <= d <= 31,
        1 <= mo <= 12,
        y <= 99,
    ensures
        utc_date_spec(two_digits(d) + two_digits(mo) + two_digits(y)) == Some(
            UtcDate { day: d as u8, month: mo as u8, year_yy: y as u8 },
        ),
{
    let b = two_digits(d) + two_digits(mo) + two_digits(y);
    assert(b.len() == 6);
    assert(b[0] == (0x30 + d / 10) as u8 && b[1] == (0x30 + d % 10) as u8);
    assert(b[2] == (0x30 + mo / 10) as u8 && b[3] == (0x30 + mo % 10) as u8);
    assert(b[4] == (0x30 + y / 10) as u8 && b[5] == (0x30 + y % 10) as u8);
    assert(all_digits(b));
}

} // verus!
