//! Small string helpers shared by the decoders.

use vstd::prelude::*;

verus! {

/// `String::push`: appends one character.
#[verifier::external_body]
fn string_push(s: &mut String, c: char)
    ensures
        final(s)@ == old(s)@.push(c),
{
    s.push(c);
}

/// Build a `String` whose characters are the given byte codes, each taken as
/// a character (the codes used by this crate are ASCII).
pub fn string_from_codes(codes: &[u8]) -> (s: String)
    ensures
        s@ == codes@.map_values(|c: u8| c as char),
{
    let mut s = String::new();
    let mut i: usize = 0;
    while i < codes.len()
        invariant
            0 <= i <= codes.len(),
            s@ == codes@.subrange(0, i as int).map_values(|c: u8| c as char),
        decreases codes.len() - i,
    {
        let c: char = codes[i] as char;
        string_push(&mut s, c);
        i = i + 1;
        proof {
            assert(codes@.subrange(0, i as int) == codes@.subrange(0, i - 1).push(codes@[i - 1]));
        }
    }
    proof {
        assert(codes@.subrange(0, codes@.len() as int) == codes@);
    }
    s
}

/// Byte-wise equality of two byte strings.
pub fn bytes_equal(a: &[u8], b: &[u8]) -> (r: bool)
    ensures
        r == (a@ == b@),
{
    if a.len() != b.len() {
        return false;
    }
    let mut i: usize = 0;
    while i < a.len()
        invariant
            0 <= i <= a@.len(),
            a@.len() == b@.len(),
            forall|j: int| 0 <= j < i ==> a@[j] == b@[j],
        decreases a@.len() - i,
    {
        if a[i] != b[i] {
            return false;
        }
        i = i + 1;
    }
    proof {
        assert(a@ =~= b@);
    }
    true
}

/// Equality of two string slices, compared through their UTF-8 bytes.
pub fn str_eq(a: &str, b: &str) -> (r: bool)
    ensures
        r == (a@ == b@),
{
    let eq = bytes_equal(a.as_bytes(), b.as_bytes());
    proof {
        vstd::utf8::encode_utf8_decode_utf8(a@);
        vstd::utf8::encode_utf8_decode_utf8(b@);
    }
    eq
}

/// Append every byte of `src` to `out`.
pub fn extend_bytes(out: &mut Vec<u8>, src: &[u8])
    ensures
        final(out)@ == old(out)@ + src@,
{
    let mut i: usize = 0;
    while i < src.len()
        invariant
            0 <= i <= src@.len(),
            out@ == old(out)@ + src@.subrange(0, i as int),
        decreases src@.len() - i,
    {
        out.push(src[i]);
        i = i + 1;
        proof {
            assert(src@.subrange(0, i as int) == src@.subrange(0, i - 1).push(src@[i - 1]));
        }
    }
    proof {
        assert(src@.subrange(0, src@.len() as int) == src@);
    }
}

pub open spec fn is_digit(c: u8) -> bool {
    0x30 <= c <= 0x39
}

/// The decimal value of a string of ASCII digits.
pub open spec fn decimal_value(s: Seq<u8>) -> nat
    decreases s.len(),
{
    if s.len() == 0 {
        0
    } else {
        decimal_value(s.drop_last()) * 10 + (s.last() - 0x30) as nat
    }
}

/// The digits of a decimal field after an optional leading `+`.
pub open spec fn unsigned_digits(b: Seq<u8>) -> Seq<u8> {
    if b.len() > 0 && b[0] == 0x2B {
        b.drop_first()
    } else {
        b
    }
}

pub open spec fn all_digits(s: Seq<u8>) -> bool {
    forall|i: int| 0 <= i < s.len() ==> is_digit(#[trigger] s[i])
}

/// What the standard library's decimal parse of an unsigned integer type
/// whose largest value is `max` accepts: an optional `+`, then one or
/// more ASCII digits whose value is at most `max`.
pub open spec fn decimal_spec(b: Seq<u8>, max: nat) -> Option<nat> {
    let d = unsigned_digits(b);
    if d.len() == 0 || !all_digits(d) || decimal_value(d) > max {
        None
    } else {
        Some(decimal_value(d))
    }
}

proof fn lemma_decimal_grows(s: Seq<u8>, k: int)
    requires
        0 <= k <= s.len(),
        all_digits(s),
    ensures
        decimal_value(s.subrange(0, k)) <= decimal_value(s),
    decreases s.len() - k,
{
    if k < s.len() {
        lemma_decimal_grows(s, k + 1);
        assert(s.subrange(0, k + 1).drop_last() =~= s.subrange(0, k));
    } else {
        assert(s.subrange(0, k) =~= s);
    }
}

/// Parse an unsigned decimal (optional `+`, digits) whose value must not
/// exceed `max`.
pub fn parse_unsigned(bytes: &[u8], max: u32) -> (r: Option<u32>)
    ensures
        r == match decimal_spec(bytes@, max as nat) {
            Some(v) => Some(v as u32),
            None => None::<u32>,
        },
{
    let start: usize = if bytes.len() > 0 && bytes[0] == 0x2B { 1 } else { 0 };
    let ghost d = unsigned_digits(bytes@);
    proof {
        assert(d =~= bytes@.subrange(start as int, bytes@.len() as int));
    }
    if start >= bytes.len() {
        return None;
    }
    let mut acc: u32 = 0;
    let mut i = start;
    while i < bytes.len()
        invariant
            start <= i <= bytes@.len(),
            d == bytes@.subrange(start as int, bytes@.len() as int),
            d == unsigned_digits(bytes@),
            forall|k: int| start <= k < i ==> is_digit(#[trigger] bytes@[k]),
            acc == decimal_value(bytes@.subrange(start as int, i as int)),
            acc <= max,
        decreases bytes@.len() - i,
    {
        let c = bytes[i];
        if c < 0x30 || c > 0x39 {
            proof {
                assert(d[i - start] == c);
                assert(!all_digits(d));
            }
            return None;
        }
        proof {
            assert(bytes@.subrange(start as int, i + 1).drop_last() =~= bytes@.subrange(start as int, i as int));
        }
        let next: u64 = acc as u64 * 10 + (c - 0x30) as u64;
        i = i + 1;
        if next > max as u64 {
            proof {
                let p = bytes@.subrange(start as int, i as int);
                assert(next == decimal_value(p));
                if all_digits(d) {
                    assert(d.subrange(0, i - start) =~= p);
                    lemma_decimal_grows(d, i - start);
                }
            }
            return None;
        }
        acc = next as u32;
    }
    proof {
        assert(bytes@.subrange(start as int, i as int) =~= d);
        assert forall|k: int| 0 <= k < d.len() implies is_digit(#[trigger] d[k]) by {
            assert(d[k] == bytes@[start + k]);
        }
        assert(all_digits(d));
    }
    Some(acc)
}

} // verus!
