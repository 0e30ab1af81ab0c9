//! Bit-level reader for AIS message payloads (MSB-first within each byte).

use vstd::prelude::*;
use vstd::arithmetic::power2::{pow2, lemma_pow2_adds, lemma_pow2_pos, lemma2_to64};

verus! {

/// Bit `i` (MSB-first) of a packed byte buffer; `false` outside the buffer.
pub open spec fn bit_of(bytes: Seq<u8>, i: int) -> bool {
    0 <= i && i < bytes.len() * 8 && (bytes[i / 8] >> ((7 - i % 8) as u8)) & 1u8 == 1u8
}

/// Bit `i` of a stream of `total` valid bits packed in `bytes`: reads at or
/// past `total` (or past the buffer) are zero.
pub open spec fn stream_bit(bytes: Seq<u8>, total: int, i: int) -> bool {
    i < total && bit_of(bytes, i)
}

/// The unsigned value of the `n` stream bits starting at `start`, the first
/// of them being the most significant.
pub open spec fn bits_value(bytes: Seq<u8>, total: int, start: int, n: nat) -> nat
    decreases n,
{
    if n == 0 {
        0
    } else {
        2 * bits_value(bytes, total, start, (n - 1) as nat) + if stream_bit(bytes, total, start + n - 1) {
            1nat
        } else {
            0nat
        }
    }
}

/// The two's-complement reading of an `n`-bit unsigned value.
pub open spec fn signed_value(u: nat, n: nat) -> int {
    if n == 0 {
        0
    } else if u >= pow2((n - 1) as nat) {
        u - pow2(n)
    } else {
        u as int
    }
}

/// The AIS 6-bit character table (ITU-R M.1371-5 Table 47): 0..=31 map to
/// `'@'..='_'`, 32..=63 map to `' '..='?'`.
pub open spec fn ais_char_code(v: nat) -> u8 {
    if v < 32 {
        (v + 64) as u8
    } else {
        v as u8
    }
}

/// The character codes of `chars` consecutive 6-bit characters starting at
/// stream position `start`.
pub open spec fn ais_codes(bytes: Seq<u8>, total: int, start: int, chars: nat) -> Seq<u8> {
    Seq::new(chars, |j: int| ais_char_code(bits_value(bytes, total, start + 6 * j, 6)))
}

/// The characters of a sequence of ASCII codes.
pub open spec fn codes_to_chars(codes: Seq<u8>) -> Seq<char> {
    codes.map_values(|c: u8| c as char)
}

pub proof fn lemma_bits_value_bound(bytes: Seq<u8>, total: int, start: int, n: nat)
    ensures
        bits_value(bytes, total, start, n) < pow2(n),
    decreases n,
{
    if n > 0 {
        lemma_bits_value_bound(bytes, total, start, (n - 1) as nat);
        lemma_pow2_adds((n - 1) as nat, 1);
        vstd::arithmetic::power2::lemma2_to64();
    } else {
        vstd::arithmetic::power2::lemma2_to64();
    }
}

/// Reading at or past the end of the stream yields zero.
pub proof fn lemma_bits_value_past_end(bytes: Seq<u8>, total: int, start: int, n: nat)
    requires
        start >= total,
    ensures
        bits_value(bytes, total, start, n) == 0,
    decreases n,
{
    if n > 0 {
        lemma_bits_value_past_end(bytes, total, start, (n - 1) as nat);
    }
}

/// Cursor-based reader over a bit-packed AIS payload. Reads past
/// `total_bits` yield zeros.
#[derive(Debug, Clone)]
pub struct BitReader<'a> {
    bits: &'a [u8],
    total_bits: usize,
    cursor: usize,
}

impl<'a> BitReader<'a> {
    pub closed spec fn spec_bits(&self) -> Seq<u8> {
        self.bits@
    }

    pub closed spec fn spec_total(&self) -> int {
        self.total_bits as int
    }

    pub closed spec fn spec_cursor(&self) -> int {
        self.cursor as int
    }

    /// A reader's cursor and bit count each lie in `0..=usize::MAX`: the
    /// cursor never goes negative and the total always fits a `usize`.
    pub proof fn lemma_state_range(&self)
        ensures
            0 <= self.spec_cursor() <= usize::MAX,
            0 <= self.spec_total() <= usize::MAX,
    {
    }

    /// Create a reader over `bits` with `total_bits` of valid data.
    pub fn new(bits: &'a [u8], total_bits: usize) -> (r: Self)
        ensures
            r.spec_bits() == bits@,
            r.spec_total() == total_bits,
            r.spec_cursor() == 0,
    {
        BitReader { bits, total_bits, cursor: 0 }
    }

    /// Number of bits remaining between the cursor and `total_bits`.
    pub fn remaining(&self) -> (n: usize)
        ensures
            n == if self.spec_total() > self.spec_cursor() {
                self.spec_total() - self.spec_cursor()
            } else {
                0
            },
    {
        self.total_bits.saturating_sub(self.cursor)
    }

    fn read_bit(&self, pos: usize) -> (b: u64)
        ensures
            b == if stream_bit(self.bits@, self.total_bits as int, pos as int) { 1u64 } else { 0u64 },
    {
        if pos >= self.total_bits || pos / 8 >= self.bits.len() {
            0
        } else {
            let byte = self.bits[pos / 8];
            let sh: u8 = (7 - pos % 8) as u8;
            if (byte >> sh) & 1 == 1 {
                1
            } else {
                0
            }
        }
    }

    /// Read `n` unsigned bits (`n` is clamped to 64). Reading past
    /// `total_bits` yields zeros for the missing tail.
    pub fn u(&mut self, n: usize) -> (v: u64)
        ensures
            ({
                let k: nat = if n > 64 { 64 } else { n as nat };
                &&& v == bits_value(old(self).spec_bits(), old(self).spec_total(), old(self).spec_cursor(), k)
                &&& final(self).spec_bits() == old(self).spec_bits()
                &&& final(self).spec_total() == old(self).spec_total()
                &&& final(self).spec_cursor() == if k == 0 {
                    old(self).spec_cursor()
                } else if old(self).spec_cursor() + k > usize::MAX {
                    usize::MAX as int
                } else {
                    old(self).spec_cursor() + k
                }
            }),
    {
        let k: usize = if n > 64 { 64 } else { n };
        if k == 0 {
            return 0;
        }
        let ghost bytes = self.bits@;
        let ghost total = self.total_bits as int;
        let ghost start = self.cursor as int;
        let mut value: u64 = 0;
        let mut i: usize = 0;
        while i < k
            invariant
                0 <= i <= k <= 64,
                bytes == self.bits@,
                total == self.total_bits,
                start == self.cursor,
                value == bits_value(bytes, total, start, i as nat),
            decreases k - i,
        {
            proof {
                lemma_bits_value_bound(bytes, total, start, i as nat);
                if i + 1 < 64 {
                    vstd::arithmetic::power2::lemma_pow2_strictly_increases((i + 1) as nat, 64);
                }
                lemma_pow2_adds(i as nat, 1);
                lemma2_to64();
                vstd::arithmetic::power2::lemma2_to64_rest();
                assert(value * 2 + 1 < pow2((i + 1) as nat));
            }
            let bit: u64 = if self.cursor > usize::MAX - i {
                0
            } else {
                self.read_bit(self.cursor + i)
            };
            proof {
                if self.cursor > usize::MAX - i {
                    assert(start + i > total);
                }
            }
            value = value * 2 + bit;
            i = i + 1;
        }
        self.cursor = self.cursor.saturating_add(k);
        value
    }
}


/// `2^e` for `e < 64`.
fn pow2_u64(e: usize) -> (h: u64)
    requires
        e < 64,
    ensures
        h == pow2(e as nat),
{
    let mut h: u64 = 1;
    let mut i: usize = 0;
    proof {
        lemma2_to64();
    }
    while i < e
        invariant
            0 <= i <= e < 64,
            h == pow2(i as nat),
        decreases e - i,
    {
        proof {
            vstd::arithmetic::power2::lemma_pow2_unfold((i + 1) as nat);
            vstd::bits::lemma_u64_pow2_no_overflow((i + 1) as nat);
        }
        h = h * 2;
        i = i + 1;
    }
    h
}

impl<'a> BitReader<'a> {
    /// Read `n` signed bits as two's-complement at field width (`n` is
    /// clamped to 64; `n == 0` returns 0 without advancing).
    pub fn i(&mut self, n: usize) -> (v: i64)
        ensures
            ({
                let k: nat = if n > 64 { 64 } else { n as nat };
                &&& v == signed_value(
                    bits_value(old(self).spec_bits(), old(self).spec_total(), old(self).spec_cursor(), k),
                    k,
                )
                &&& final(self).spec_bits() == old(self).spec_bits()
                &&& final(self).spec_total() == old(self).spec_total()
                &&& final(self).spec_cursor() == if k == 0 {
                    old(self).spec_cursor()
                } else if old(self).spec_cursor() + k > usize::MAX {
                    usize::MAX as int
                } else {
                    old(self).spec_cursor() + k
                }
            }),
    {
        let k: usize = if n > 64 { 64 } else { n };
        if k == 0 {
            return 0;
        }
        let ghost bytes = self.bits@;
        let ghost total = self.total_bits as int;
        let ghost start = self.cursor as int;
        let u = self.u(k);
        let h = pow2_u64(k - 1);
        proof {
            lemma_bits_value_bound(bytes, total, start, k as nat);
            vstd::arithmetic::power2::lemma_pow2_unfold(k as nat);
            lemma_pow2_pos((k - 1) as nat);
            lemma2_to64();
            vstd::arithmetic::power2::lemma2_to64_rest();
            if k - 1 < 63 {
                vstd::arithmetic::power2::lemma_pow2_strictly_increases((k - 1) as nat, 63);
            }
            assert(h <= 0x8000_0000_0000_0000u64);
        }
        if u >= h {
            let r: i64 = ((u - h) as i64) - ((h - 1) as i64) - 1;
            r
        } else {
            u as i64
        }
    }

    /// Read a single bit.
    pub fn b(&mut self) -> (v: bool)
        ensures
            v == (bits_value(old(self).spec_bits(), old(self).spec_total(), old(self).spec_cursor(), 1) == 1),
            final(self).spec_bits() == old(self).spec_bits(),
            final(self).spec_total() == old(self).spec_total(),
            final(self).spec_cursor() == if old(self).spec_cursor() + 1 > usize::MAX {
                usize::MAX as int
            } else {
                old(self).spec_cursor() + 1
            },
    {
        proof {
            lemma_bits_value_bound(self.bits@, self.total_bits as int, self.cursor as int, 1);
            lemma2_to64();
        }
        self.u(1) != 0
    }

    /// Read `chars` six-bit characters and return their ASCII codes per the
    /// AIS character table.
    pub fn codes(&mut self, chars: usize) -> (out: Vec<u8>)
        ensures
            out@ == ais_codes(old(self).spec_bits(), old(self).spec_total(), old(self).spec_cursor(), chars as nat),
            final(self).spec_bits() == old(self).spec_bits(),
            final(self).spec_total() == old(self).spec_total(),
            final(self).spec_cursor() == if old(self).spec_cursor() + 6 * chars > usize::MAX {
                usize::MAX as int
            } else {
                old(self).spec_cursor() + 6 * chars
            },
    {
        let ghost bytes = self.bits@;
        let ghost total = self.total_bits as int;
        let ghost start = self.cursor as int;
        let mut out: Vec<u8> = Vec::new();
        let mut j: usize = 0;
        while j < chars
            invariant
                0 <= j <= chars,
                bytes == self.bits@,
                total == self.total_bits,
                self.cursor == if start + 6 * j > usize::MAX { usize::MAX as int } else { start + 6 * j },
                out@ == ais_codes(bytes, total, start, j as nat),
            decreases chars - j,
        {
            let ghost cur = self.cursor as int;
            let v = self.u(6);
            proof {
                lemma_bits_value_bound(bytes, total, cur, 6);
                lemma2_to64();
                if start + 6 * j > usize::MAX {
                    lemma_bits_value_past_end(bytes, total, cur, 6);
                    lemma_bits_value_past_end(bytes, total, start + 6 * j, 6);
                }
            }
            let c: u8 = if v < 32 { (v + 64) as u8 } else { v as u8 };
            out.push(c);
            j = j + 1;
            proof {
                assert(out@ =~= ais_codes(bytes, total, start, j as nat));
            }
        }
        out
    }

    /// Read `chars` six-bit characters and decode them per ITU-R M.1371-5
    /// Table 47. Trailing `@` padding is returned verbatim.
    pub fn string(&mut self, chars: usize) -> (s: String)
        ensures
            s@ == codes_to_chars(
                ais_codes(old(self).spec_bits(), old(self).spec_total(), old(self).spec_cursor(), chars as nat),
            ),
            final(self).spec_bits() == old(self).spec_bits(),
            final(self).spec_total() == old(self).spec_total(),
            final(self).spec_cursor() == if old(self).spec_cursor() + 6 * chars > usize::MAX {
                usize::MAX as int
            } else {
                old(self).spec_cursor() + 6 * chars
            },
    {
        let codes = self.codes(chars);
        crate::text::string_from_codes(codes.as_slice())
    }
}

} // verus!
