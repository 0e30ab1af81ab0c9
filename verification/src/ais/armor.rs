//! AIS ASCII armor: each payload character carries 6 bits.

use vstd::prelude::*;
use crate::ais::error::AisError;
use crate::ais::bit_reader::bit_of;

verus! {

/// The 6-bit value of an armor character, when it is in the alphabet
/// (`'0'..='W'` → 0..=39, `` '`' ``..=`'w'` → 40..=63).
pub open spec fn armor_value(c: u8) -> Option<u8> {
    if 0x30 <= c <= 0x57 {
        Some((c - 0x30) as u8)
    } else if 0x60 <= c <= 0x77 {
        Some((c - 0x38) as u8)
    } else {
        None
    }
}

/// Decode a single AIS armor character to its 6-bit value.
pub fn decode_char(c: u8) -> (res: Result<u8, AisError>)
    ensures
        match armor_value(c) {
            Some(v) => res == Ok::<u8, AisError>(v),
            None => res == Err::<u8, AisError>(AisError::InvalidArmorChar(c)),
        },
{
    if 0x30 <= c && c <= 0x57 {
        Ok(c - 0x30)
    } else if 0x60 <= c && c <= 0x77 {
        Ok(c - 0x30 - 8)
    } else {
        Err(AisError::InvalidArmorChar(c))
    }
}


/// Bit `i` of the 6-bit stream spelled by `payload` (MSB-first within each
/// character).
pub open spec fn armor_bit(payload: Seq<u8>, i: int) -> bool {
    let v = armor_value(payload[i / 6]).unwrap();
    (v >> ((5 - i % 6) as u8)) & 1u8 == 1u8
}

/// Every byte of `payload` is in the armor alphabet.
pub open spec fn all_armor(payload: Seq<u8>) -> bool {
    forall|k: int| 0 <= k < payload.len() ==> armor_value(#[trigger] payload[k]) is Some
}

/// `k` is the position of the first byte of `payload` outside the alphabet.
pub open spec fn first_invalid(payload: Seq<u8>, k: int) -> bool {
    &&& 0 <= k < payload.len()
    &&& armor_value(payload[k]) is None
    &&& forall|j: int| 0 <= j < k ==> armor_value(#[trigger] payload[j]) is Some
}

/// `bits` packs the first `total` bits of the armor stream of `payload`,
/// MSB-first, into `ceil(total / 8)` bytes whose padding bits are zero.
pub open spec fn packs_armor(bits: Seq<u8>, payload: Seq<u8>, total: int) -> bool {
    &&& bits.len() == (total + 7) / 8
    &&& forall|i: int|
        0 <= i < bits.len() * 8 ==> (#[trigger] bit_of(bits, i) == (i < total && armor_bit(payload, i)))
}

proof fn lemma_or_bit(b: u8, x: u8, sh: u8, j: u8)
    requires
        x <= 1,
        sh < 8,
        j < 8,
    ensures
        j != sh ==> ((b | (x << sh)) >> j) & 1u8 == (b >> j) & 1u8,
        j == sh && (b >> j) & 1u8 != 1u8 ==> ((b | (x << sh)) >> j) & 1u8 == x,
{
    assert(j != sh ==> ((b | (x << sh)) >> j) & 1u8 == (b >> j) & 1u8) by (bit_vector)
        requires
            x <= 1,
            sh < 8,
            j < 8,
    ;
    assert(j == sh && (b >> j) & 1u8 != 1u8 ==> ((b | (x << sh)) >> j) & 1u8 == x) by (bit_vector)
        requires
            x <= 1,
            sh < 8,
            j < 8,
    ;
}

proof fn lemma_zero_byte_bits(j: u8)
    requires
        j < 8,
    ensures
        (0u8 >> j) & 1u8 == 0u8,
{
    assert((0u8 >> j) & 1u8 == 0u8) by (bit_vector);
}

proof fn lemma_bit_is_0_or_1(v: u8, j: u8)
    ensures
        (v >> j) & 1u8 <= 1,
{
    assert((v >> j) & 1u8 <= 1) by (bit_vector);
}

/// Decode an AIS armored payload into a dense bit buffer.
///
/// Returns the packed byte buffer (MSB first) and the count of valid bits.
/// Errors, in the order they are checked: `InvalidFillBits` when
/// `fill_bits > 5`; `PayloadTooLong` when `payload.len() × 6` overflows;
/// `PayloadTooShort` when `fill_bits` exceeds the payload's bit count;
/// `InvalidArmorChar` carrying the first byte outside the alphabet.
pub fn decode(payload: &[u8], fill_bits: u8) -> (res: Result<(Vec<u8>, usize), AisError>)
    ensures
        fill_bits > 5 ==> res == Err::<(Vec<u8>, usize), AisError>(AisError::InvalidFillBits(fill_bits)),
        fill_bits <= 5 && payload@.len() * 6 > usize::MAX ==> res == Err::<(Vec<u8>, usize), AisError>(
            AisError::PayloadTooLong,
        ),
        fill_bits <= 5 && payload@.len() * 6 <= usize::MAX && payload@.len() * 6 < fill_bits ==> res == Err::<
            (Vec<u8>, usize),
            AisError,
        >(AisError::PayloadTooShort),
        fill_bits <= 5 && fill_bits <= payload@.len() * 6 <= usize::MAX && !all_armor(payload@) ==> exists|k: int|
            first_invalid(payload@, k) && res == Err::<(Vec<u8>, usize), AisError>(
                AisError::InvalidArmorChar(payload@[k]),
            ),
        fill_bits <= 5 && fill_bits <= payload@.len() * 6 <= usize::MAX && all_armor(payload@) ==> (res matches Ok(
            (bits, total),
        ) && total == payload@.len() * 6 - fill_bits && packs_armor(bits@, payload@, total as int)),
{
    if fill_bits > 5 {
        return Err(AisError::InvalidFillBits(fill_bits));
    }
    let gross = match payload.len().checked_mul(6) {
        Some(g) => g,
        None => return Err(AisError::PayloadTooLong),
    };
    let total = match gross.checked_sub(fill_bits as usize) {
        Some(t) => t,
        None => return Err(AisError::PayloadTooShort),
    };
    let mut k: usize = 0;
    while k < payload.len()
        invariant
            0 <= k <= payload.len(),
            fill_bits <= 5,
            payload@.len() * 6 == gross,
            gross == total + fill_bits,
            forall|j: int| 0 <= j < k ==> armor_value(#[trigger] payload@[j]) is Some,
        decreases payload.len() - k,
    {
        if let Err(e) = decode_char(payload[k]) {
            assert(first_invalid(payload@, k as int));
            return Err(e);
        }
        k = k + 1;
    }
    let byte_count: usize = total / 8 + if total % 8 == 0 { 0 } else { 1 };
    let mut bits: Vec<u8> = Vec::new();
    while bits.len() < byte_count
        invariant
            bits.len() <= byte_count,
            forall|j: int| 0 <= j < bits.len() ==> bits@[j] == 0u8,
        decreases byte_count - bits.len(),
    {
        bits.push(0u8);
    }
    proof {
        assert forall|i: int| 0 <= i < bits@.len() * 8 implies !#[trigger] bit_of(bits@, i) by {
            lemma_zero_byte_bits((7 - i % 8) as u8);
        }
    }
    let mut pos: usize = 0;
    while pos < total
        invariant
            0 <= pos <= total,
            total == payload@.len() * 6 - fill_bits,
            fill_bits <= 5,
            all_armor(payload@),
            bits@.len() == byte_count,
            byte_count == (total + 7) / 8,
            forall|i: int|
                0 <= i < bits@.len() * 8 ==> (#[trigger] bit_of(bits@, i) == (i < pos && armor_bit(payload@, i))),
        decreases total - pos,
    {
        let ci = pos / 6;
        assert(armor_value(payload@[ci as int]) is Some);
        let v: u8 = match decode_char(payload[ci]) {
            Ok(v) => v,
            Err(_) => 0,
        };
        assert(v == armor_value(payload@[pos as int / 6]).unwrap());
        let bit: u8 = (v >> ((5 - pos % 6) as u8)) & 1;
        let idx = pos / 8;
        let sh: u8 = (7 - pos % 8) as u8;
        let old_byte = bits[idx];
        proof {
            lemma_bit_is_0_or_1(v, (5 - pos % 6) as u8);
            assert(!bit_of(bits@, pos as int));
        }
        let ghost before = bits@;
        bits.set(idx, old_byte | (bit << sh));
        proof {
            assert forall|i: int| 0 <= i < bits@.len() * 8 implies (#[trigger] bit_of(bits@, i) == (i < pos + 1
                && armor_bit(payload@, i))) by {
                if i / 8 == idx as int {
                    lemma_or_bit(old_byte, bit, sh, (7 - i % 8) as u8);
                    assert(bits@[i / 8] == old_byte | (bit << sh));
                    assert(bit_of(before, i) == (i < pos && armor_bit(payload@, i)));
                    if i == pos as int {
                        assert((7 - i % 8) as u8 == sh);
                        assert(bit_of(bits@, i) == (bit == 1u8));
                    } else {
                        assert((7 - i % 8) as u8 != sh);
                        assert(bit_of(bits@, i) == bit_of(before, i));
                    }
                } else {
                    assert(bits@[i / 8] == before[i / 8]);
                    assert(bit_of(before, i) == (i < pos && armor_bit(payload@, i)));
                }
            }
        }
        pos = pos + 1;
    }
    Ok((bits, total))
}
} // verus!
