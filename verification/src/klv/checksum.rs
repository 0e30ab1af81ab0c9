//! The ST 0601 Tag 1 checksum.

use vstd::prelude::*;

verus! {

/// The weight of the byte at index `i` in the running sum: even indices feed
/// the high byte, odd indices the low byte.
pub open spec fn bcc_weight(i: int) -> nat {
    if i % 2 == 0 {
        256
    } else {
        1
    }
}

/// The unreduced weighted sum of `s`.
pub open spec fn bcc_sum(s: Seq<u8>) -> nat
    decreases s.len(),
{
    if s.len() == 0 {
        0
    } else {
        bcc_sum(s.drop_last()) + (s.last() as nat) * bcc_weight(s.len() - 1)
    }
}

/// The 16-bit block checksum of `s`: the weighted sum modulo 2^16.
pub open spec fn bcc_spec(s: Seq<u8>) -> u16 {
    (bcc_sum(s) % 0x1_0000) as u16
}

/// ST 0601 Tag 1 checksum: 16-bit running sum over the packet bytes with an
/// alternating byte shift (even index → high byte, odd index → low byte).
pub fn bcc(bytes: &[u8]) -> (sum: u16)
    ensures
        sum == bcc_spec(bytes@),
{
    let mut sum: u16 = 0;
    let mut i: usize = 0;
    while i < bytes.len()
        invariant
            0 <= i <= bytes@.len(),
            sum == bcc_sum(bytes@.subrange(0, i as int)) % 0x1_0000,
        decreases bytes@.len() - i,
    {
        let b = bytes[i];
        let term: u16 = if i % 2 == 0 {
            (b as u16) * 256
        } else {
            b as u16
        };
        proof {
            let s = bytes@.subrange(0, i + 1);
            assert(s.drop_last() == bytes@.subrange(0, i as int));
            assert(bcc_sum(s) == bcc_sum(bytes@.subrange(0, i as int)) + term);
            vstd::arithmetic::div_mod::lemma_add_mod_noop(
                bcc_sum(bytes@.subrange(0, i as int)) as int,
                term as int,
                0x1_0000,
            );
            vstd::arithmetic::div_mod::lemma_mod_twice(term as int, 0x1_0000);
        }
        sum = sum.wrapping_add(term);
        i = i + 1;
    }
    proof {
        assert(bytes@.subrange(0, bytes@.len() as int) == bytes@);
    }
    sum
}

} // verus!
