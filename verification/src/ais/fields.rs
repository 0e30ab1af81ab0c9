//! Typed field reads on top of `BitReader`, shared by the message decoders.

use vstd::prelude::*;
use vstd::arithmetic::power2::{pow2, lemma2_to64, lemma2_to64_rest, lemma_pow2_strictly_increases, lemma_pow2_unfold};
use crate::ais::bit_reader::{bits_value, signed_value, lemma_bits_value_bound, BitReader};

verus! {

/// The unsigned field of `n` bits at bit offset `start`.
pub open spec fn uf(b: Seq<u8>, t: int, start: int, n: nat) -> nat {
    bits_value(b, t, start, n)
}

/// The two's-complement field of `n` bits at bit offset `start`.
pub open spec fn sf(b: Seq<u8>, t: int, start: int, n: nat) -> int {
    signed_value(bits_value(b, t, start, n), n)
}

/// `r` is `old` advanced by `n` bits over the same buffer.
pub open spec fn advanced(r: BitReader, old: BitReader, n: nat) -> bool {
    &&& r.spec_bits() == old.spec_bits()
    &&& r.spec_total() == old.spec_total()
    &&& r.spec_cursor() == old.spec_cursor() + n
}

pub proof fn lemma_field_bound(b: Seq<u8>, t: int, start: int, n: nat, m: nat)
    requires
        n <= m <= 64,
    ensures
        uf(b, t, start, n) < pow2(m),
{
    lemma_bits_value_bound(b, t, start, n);
    if n < m {
        lemma_pow2_strictly_increases(n, m);
    }
}

pub proof fn lemma_signed_range(u: nat, n: nat)
    requires
        1 <= n <= 64,
        u < pow2(n),
    ensures
        -pow2((n - 1) as nat) <= signed_value(u, n) < pow2((n - 1) as nat),
{
    lemma_pow2_unfold(n);
}

/// Read an unsigned field of at most 8 bits.
pub fn read_u8(r: &mut BitReader, n: usize) -> (v: u8)
    requires
        n <= 8,
        old(r).spec_cursor() + n <= usize::MAX,
    ensures
        v == uf(old(r).spec_bits(), old(r).spec_total(), old(r).spec_cursor(), n as nat),
        advanced(*final(r), *old(r), n as nat),
{
    proof {
        lemma_field_bound(r.spec_bits(), r.spec_total(), r.spec_cursor(), n as nat, 8);
        lemma2_to64();
    }
    let v = r.u(n);
    v as u8
}

/// Read an unsigned field of at most 16 bits.
pub fn read_u16(r: &mut BitReader, n: usize) -> (v: u16)
    requires
        n <= 16,
        old(r).spec_cursor() + n <= usize::MAX,
    ensures
        v == uf(old(r).spec_bits(), old(r).spec_total(), old(r).spec_cursor(), n as nat),
        advanced(*final(r), *old(r), n as nat),
{
    proof {
        lemma_field_bound(r.spec_bits(), r.spec_total(), r.spec_cursor(), n as nat, 16);
        lemma2_to64();
    }
    let v = r.u(n);
    v as u16
}

/// Read an unsigned field of at most 32 bits.
pub fn read_u32(r: &mut BitReader, n: usize) -> (v: u32)
    requires
        n <= 32,
        old(r).spec_cursor() + n <= usize::MAX,
    ensures
        v == uf(old(r).spec_bits(), old(r).spec_total(), old(r).spec_cursor(), n as nat),
        advanced(*final(r), *old(r), n as nat),
{
    proof {
        lemma_field_bound(r.spec_bits(), r.spec_total(), r.spec_cursor(), n as nat, 32);
        lemma2_to64();
    }
    let v = r.u(n);
    v as u32
}

/// Read a two's-complement field of 1..=32 bits.
pub fn read_i32(r: &mut BitReader, n: usize) -> (v: i32)
    requires
        1 <= n <= 32,
        old(r).spec_cursor() + n <= usize::MAX,
    ensures
        v == sf(old(r).spec_bits(), old(r).spec_total(), old(r).spec_cursor(), n as nat),
        -pow2((n - 1) as nat) <= v < pow2((n - 1) as nat),
        advanced(*final(r), *old(r), n as nat),
{
    proof {
        let u = uf(r.spec_bits(), r.spec_total(), r.spec_cursor(), n as nat);
        lemma_field_bound(r.spec_bits(), r.spec_total(), r.spec_cursor(), n as nat, n as nat);
        lemma_signed_range(u, n as nat);
        if n < 32 {
            lemma_pow2_strictly_increases((n - 1) as nat, 31);
        }
        lemma2_to64();
    }
    let v = r.i(n);
    v as i32
}

/// Read one bit as a flag.
pub fn read_flag(r: &mut BitReader) -> (v: bool)
    requires
        old(r).spec_cursor() + 1 <= usize::MAX,
    ensures
        v == (uf(old(r).spec_bits(), old(r).spec_total(), old(r).spec_cursor(), 1) == 1),
        advanced(*final(r), *old(r), 1),
{
    r.b()
}

/// Skip `n` bits.
pub fn skip(r: &mut BitReader, n: usize)
    requires
        1 <= n <= 64,
        old(r).spec_cursor() + n <= usize::MAX,
    ensures
        advanced(*final(r), *old(r), n as nat),
{
    let _ = r.u(n);
}

/// Read `chars` six-bit characters as their character codes.
pub fn read_codes(r: &mut BitReader, chars: usize) -> (out: Vec<u8>)
    requires
        old(r).spec_cursor() + 6 * chars <= usize::MAX,
    ensures
        out@ == crate::ais::bit_reader::ais_codes(
            old(r).spec_bits(),
            old(r).spec_total(),
            old(r).spec_cursor(),
            chars as nat,
        ),
        advanced(*final(r), *old(r), 6 * chars as nat),
{
    r.codes(chars)
}

} // verus!
