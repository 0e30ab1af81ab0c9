//! BER lengths and fixed-width big-endian values.

use vstd::prelude::*;
use crate::klv::error::Error;

verus! {

/// `256^width`: the number of distinct values of `width` bytes.
pub open spec fn span(width: nat) -> nat
    decreases width,
{
    if width == 0 {
        1
    } else {
        256 * span((width - 1) as nat)
    }
}

/// The big-endian value of a byte string.
pub open spec fn be_value(s: Seq<u8>) -> nat
    decreases s.len(),
{
    if s.len() == 0 {
        0
    } else {
        be_value(s.drop_last()) * 256 + (s.last() as nat)
    }
}

/// The `width` low-order bytes of `v`, most significant first.
pub open spec fn be_bytes(v: nat, width: nat) -> Seq<u8>
    decreases width,
{
    if width == 0 {
        Seq::empty()
    } else {
        be_bytes(v / 256, (width - 1) as nat).push((v % 256) as u8)
    }
}

/// The big-endian bytes of `v` without leading zero bytes (one byte for `v < 256`).
pub open spec fn be_minimal(v: nat) -> Seq<u8>
    decreases v,
{
    if v < 256 {
        seq![v as u8]
    } else {
        be_minimal(v / 256).push((v % 256) as u8)
    }
}

/// The BER encoding of a length: one byte below 128, otherwise `0x80 | n`
/// followed by the `n` minimal big-endian bytes of the length.
pub open spec fn ber_length_bytes(len: nat) -> Seq<u8> {
    if len < 128 {
        seq![len as u8]
    } else {
        seq![(0x80 + be_minimal(len).len()) as u8] + be_minimal(len)
    }
}

/// `a - b`, or 0 when `b >= a`, as a `usize`.
pub open spec fn sat_sub(a: int, b: int) -> usize {
    if a > b {
        (a - b) as usize
    } else {
        0
    }
}

/// The number of bytes in a `usize` on this platform.
pub open spec fn usize_bytes() -> nat {
    (usize::BITS / 8) as nat
}

/// The `len` bytes of `input` at `start`, or the error a bounded read reports.
pub open spec fn read_bytes_spec(input: Seq<u8>, start: int, len: int) -> Result<Seq<u8>, Error> {
    if start + len > usize::MAX {
        Err(Error::LengthOverflow)
    } else if start + len > input.len() {
        Err(Error::Truncated { offset: start as usize, needed: len as usize, available: sat_sub(input.len() as int, start) })
    } else {
        Ok(input.subrange(start, start + len))
    }
}

/// The BER length at `offset` and the offset just past it, or the error.
pub open spec fn ber_decode_spec(input: Seq<u8>, offset: int) -> Result<(usize, usize), Error> {
    if offset >= input.len() {
        Err(Error::Truncated { offset: offset as usize, needed: 1, available: sat_sub(input.len() as int, offset) })
    } else if input[offset] < 0x80 {
        Ok((input[offset] as usize, (offset + 1) as usize))
    } else {
        let n = input[offset] - 0x80;
        if n == 0 || n > usize_bytes() {
            Err(Error::LengthOverflow)
        } else {
            match read_bytes_spec(input, offset + 1, n) {
                Err(e) => Err(e),
                Ok(b) => Ok((be_value(b) as usize, (offset + 1 + n) as usize)),
            }
        }
    }
}

/// The value of a big-endian field of `width` bytes, read as two's complement
/// when `signed`.
pub open spec fn field_value(bytes: Seq<u8>, signed: bool) -> int {
    let u = be_value(bytes);
    if signed && u >= span(bytes.len()) / 2 {
        u - span(bytes.len())
    } else {
        u as int
    }
}

/// The `width`-byte two's-complement representation of `v`.
pub open spec fn unsigned_repr(v: int, width: nat) -> nat {
    if v < 0 {
        (v + span(width)) as nat
    } else {
        v as nat
    }
}

pub proof fn lemma_span_values()
    ensures
        span(0) == 1,
        span(1) == 0x100,
        span(2) == 0x1_0000,
        span(4) == 0x1_0000_0000,
        span(8) == 0x1_0000_0000_0000_0000,
{
    reveal_with_fuel(span, 9);
}

pub proof fn lemma_usize_span()
    ensures
        usize_bytes() == 4 || usize_bytes() == 8,
        span(usize_bytes()) == usize::MAX + 1,
{
    lemma_span_values();
}

pub proof fn lemma_span_monotonic(a: nat, b: nat)
    requires
        a <= b,
    ensures
        span(a) <= span(b),
    decreases b,
{
    if a < b {
        lemma_span_monotonic(a, (b - 1) as nat);
    }
}

pub proof fn lemma_be_value_bound(s: Seq<u8>)
    ensures
        be_value(s) < span(s.len()),
    decreases s.len(),
{
    if s.len() > 0 {
        lemma_be_value_bound(s.drop_last());
    }
}

pub proof fn lemma_be_bytes(v: nat, width: nat)
    ensures
        be_bytes(v, width).len() == width,
        v < span(width) ==> be_value(be_bytes(v, width)) == v,
    decreases width,
{
    if width > 0 {
        lemma_be_bytes(v / 256, (width - 1) as nat);
        let s = be_bytes(v, width);
        assert(s.drop_last() == be_bytes(v / 256, (width - 1) as nat));
    }
}

pub proof fn lemma_be_minimal(v: nat, k: nat)
    requires
        k >= 1,
        v < span(k),
    ensures
        1 <= be_minimal(v).len() <= k,
        be_value(be_minimal(v)) == v,
    decreases v,
{
    if v >= 256 {
        assert(span(1) == 256) by {
            reveal_with_fuel(span, 2);
        }
        assert(k >= 2);
        assert(span(k) == 256 * span((k - 1) as nat));
        lemma_be_minimal(v / 256, (k - 1) as nat);
        let s = be_minimal(v);
        assert(s.drop_last() == be_minimal(v / 256));
    } else {
        reveal_with_fuel(be_value, 2);
    }
}

/// Decoding the BER encoding of `len` gives `len` back, with the offset just
/// past the encoding.
pub proof fn lemma_ber_round_trip(input: Seq<u8>, offset: int, len: nat)
    requires
        0 <= offset,
        len <= usize::MAX,
        offset + ber_length_bytes(len).len() <= input.len(),
        input.len() <= usize::MAX,
        input.subrange(offset, offset + ber_length_bytes(len).len()) == ber_length_bytes(len),
    ensures
        ber_decode_spec(input, offset) == Ok::<(usize, usize), Error>(
            (len as usize, (offset + ber_length_bytes(len).len()) as usize),
        ),
{
    let b = ber_length_bytes(len);
    assert(input[offset] == b[0]);
    if len >= 128 {
        lemma_usize_span();
        lemma_be_minimal(len, usize_bytes());
        let m = be_minimal(len);
        assert(input.subrange(offset + 1, offset + 1 + m.len()) == m) by {
            assert forall|j: int| 0 <= j < m.len() implies input.subrange(offset + 1, offset + 1 + m.len())[j]
                == m[j] by {
                assert(input[offset + 1 + j] == b[1 + j]);
            }
        }
    }
}

/// Big-endian value of up to eight bytes.
fn be_read(v: &[u8]) -> (r: u64)
    requires
        v@.len() <= 8,
    ensures
        r == be_value(v@),
{
    let mut acc: u64 = 0;
    let mut i: usize = 0;
    while i < v.len()
        invariant
            0 <= i <= v@.len() <= 8,
            acc == be_value(v@.subrange(0, i as int)),
        decreases v@.len() - i,
    {
        proof {
            lemma_be_value_bound(v@.subrange(0, i as int));
            lemma_span_monotonic((i + 1) as nat, 8);
            lemma_span_values();
            let s = v@.subrange(0, i + 1);
            assert(s.drop_last() == v@.subrange(0, i as int));
            assert(span((i + 1) as nat) == 256 * span(i as nat));
        }
        acc = acc * 256 + v[i] as u64;
        i = i + 1;
    }
    proof {
        assert(v@.subrange(0, v@.len() as int) == v@);
    }
    acc
}

/// Append the `width` low-order bytes of `v`, most significant first.
pub fn push_be(v: u64, width: usize, out: &mut Vec<u8>)
    requires
        width <= 8,
    ensures
        final(out)@ == old(out)@ + be_bytes(v as nat, width as nat),
    decreases width,
{
    if width > 0 {
        push_be(v / 256, width - 1, out);
        out.push((v % 256) as u8);
    }
}

fn push_be_minimal(v: usize, out: &mut Vec<u8>)
    ensures
        final(out)@ == old(out)@ + be_minimal(v as nat),
    decreases v,
{
    if v >= 256 {
        push_be_minimal(v / 256, out);
    }
    out.push((v % 256) as u8);
}

/// Encode a BER length: short form (`len < 128`) is one byte; long form is
/// `0x80 | n` followed by `n` big-endian length bytes (minimal, no leading zeros).
pub fn ber_encode_len(len: usize, out: &mut Vec<u8>)
    ensures
        final(out)@ == old(out)@ + ber_length_bytes(len as nat),
{
    if len < 0x80 {
        out.push(len as u8);
        return;
    }
    let mut significant: Vec<u8> = Vec::new();
    push_be_minimal(len, &mut significant);
    proof {
        lemma_usize_span();
        lemma_be_minimal(len as nat, usize_bytes());
        assert(significant@ == be_minimal(len as nat));
    }
    let n = significant.len();
    out.push((0x80 + n) as u8);
    out.append(&mut significant);
}

/// Borrow `input[start..start + len]`, or report exactly how many bytes were missing.
pub fn read_bytes(input: &[u8], start: usize, len: usize) -> (res: Result<&[u8], Error>)
    ensures
        match read_bytes_spec(input@, start as int, len as int) {
            Ok(s) => res matches Ok(r) && r@ == s,
            Err(e) => res == Err::<&[u8], Error>(e),
        },
{
    let end = match start.checked_add(len) {
        Some(e) => e,
        None => return Err(Error::LengthOverflow),
    };
    if end > input.len() {
        return Err(
            Error::Truncated { offset: start, needed: len, available: input.len().saturating_sub(start) },
        );
    }
    Ok(vstd::slice::slice_subrange(input, start, end))
}

/// Decode a BER length at `offset`. Returns `(length, next_offset)`.
pub fn ber_decode_len(input: &[u8], offset: usize) -> (res: Result<(usize, usize), Error>)
    ensures
        res == ber_decode_spec(input@, offset as int),
{
    if offset >= input.len() {
        return Err(
            Error::Truncated { offset, needed: 1, available: input.len().saturating_sub(offset) },
        );
    }
    let first = input[offset];
    if first < 0x80 {
        return Ok((first as usize, offset + 1));
    }
    let n = (first - 0x80) as usize;
    let width: usize = (usize::BITS / 8) as usize;
    if n == 0 || n > width {
        return Err(Error::LengthOverflow);
    }
    let bytes = match read_bytes(input, offset + 1, n) {
        Ok(b) => b,
        Err(e) => return Err(e),
    };
    proof {
        lemma_usize_span();
        lemma_be_value_bound(bytes@);
        lemma_span_monotonic(n as nat, usize_bytes());
    }
    let value = be_read(bytes);
    Ok((value as usize, offset + 1 + n))
}

/// A two-byte big-endian value; any other length is `Truncated`.
pub fn be_u16(bytes: &[u8]) -> (res: Result<u16, Error>)
    ensures
        bytes@.len() == 2 ==> res == Ok::<u16, Error>(be_value(bytes@) as u16),
        bytes@.len() != 2 ==> res == Err::<u16, Error>(
            Error::Truncated { offset: 0, needed: 2, available: bytes@.len() as usize },
        ),
{
    if bytes.len() == 2 {
        proof {
            lemma_be_value_bound(bytes@);
            lemma_span_values();
        }
        Ok(be_read(bytes) as u16)
    } else {
        Err(Error::Truncated { offset: 0, needed: 2, available: bytes.len() })
    }
}

/// An eight-byte big-endian value; any other length is `Truncated`.
pub fn be_u64(bytes: &[u8]) -> (res: Result<u64, Error>)
    ensures
        bytes@.len() == 8 ==> res == Ok::<u64, Error>(be_value(bytes@) as u64),
        bytes@.len() != 8 ==> res == Err::<u64, Error>(
            Error::Truncated { offset: 0, needed: 8, available: bytes@.len() as usize },
        ),
{
    if bytes.len() == 8 {
        Ok(be_read(bytes))
    } else {
        Err(Error::Truncated { offset: 0, needed: 8, available: bytes.len() })
    }
}

/// A one-byte value; `None` on any other length.
pub fn read_u8(v: &[u8]) -> (r: Option<u8>)
    ensures
        r == if v@.len() == 1 { Some(v@[0]) } else { None::<u8> },
{
    if v.len() == 1 {
        Some(v[0])
    } else {
        None
    }
}

/// A two-byte big-endian unsigned value; `None` on any other length.
pub fn read_u16(v: &[u8]) -> (r: Option<u16>)
    ensures
        r == if v@.len() == 2 { Some(field_value(v@, false) as u16) } else { None::<u16> },
{
    if v.len() == 2 {
        proof {
            lemma_be_value_bound(v@);
            lemma_span_values();
        }
        Some(be_read(v) as u16)
    } else {
        None
    }
}

/// A two-byte big-endian two's-complement value; `None` on any other length.
pub fn read_i16(v: &[u8]) -> (r: Option<i16>)
    ensures
        r == if v@.len() == 2 { Some(field_value(v@, true) as i16) } else { None::<i16> },
{
    if v.len() == 2 {
        proof {
            lemma_be_value_bound(v@);
            lemma_span_values();
        }
        let u = be_read(v) as u16;
        let s = u as i16;
        proof {
            assert(u >= 0x8000 ==> s as int == u - 0x10000) by (bit_vector)
                requires
                    s == u as i16,
            ;
            assert(u < 0x8000 ==> s as int == u) by (bit_vector)
                requires
                    s == u as i16,
            ;
        }
        Some(s)
    } else {
        None
    }
}

/// A four-byte big-endian unsigned value; `None` on any other length.
pub fn read_u32(v: &[u8]) -> (r: Option<u32>)
    ensures
        r == if v@.len() == 4 { Some(field_value(v@, false) as u32) } else { None::<u32> },
{
    if v.len() == 4 {
        proof {
            lemma_be_value_bound(v@);
            lemma_span_values();
        }
        Some(be_read(v) as u32)
    } else {
        None
    }
}

/// A four-byte big-endian two's-complement value; `None` on any other length.
pub fn read_i32(v: &[u8]) -> (r: Option<i32>)
    ensures
        r == if v@.len() == 4 { Some(field_value(v@, true) as i32) } else { None::<i32> },
{
    if v.len() == 4 {
        proof {
            lemma_be_value_bound(v@);
            lemma_span_values();
        }
        let u = be_read(v) as u32;
        let s = u as i32;
        proof {
            assert(u >= 0x8000_0000 ==> s as int == u - 0x1_0000_0000) by (bit_vector)
                requires
                    s == u as i32,
            ;
            assert(u < 0x8000_0000 ==> s as int == u) by (bit_vector)
                requires
                    s == u as i32,
            ;
        }
        Some(s)
    } else {
        None
    }
}

} // verus!
