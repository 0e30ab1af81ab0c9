//! Types shared across several AIS message variants.

use vstd::prelude::*;
use vstd::string::StrSliceExecFns;
use crate::ais::bit_reader::{ais_codes, codes_to_chars, BitReader};
use crate::ais::fields::{advanced, read_codes, read_u16, uf};

verus! {

/// Vessel dimensions from the reference point of the reported position, in
/// metres. Each field is `None` when the transmitter sent 0 ("not available").
#[derive(Debug, Clone, Copy, PartialEq, Eq, Structural)]
pub struct Dimensions {
    /// Distance from the reference point to the bow (9 bits).
    pub to_bow_m: Option<u16>,
    /// Distance from the reference point to the stern (9 bits).
    pub to_stern_m: Option<u16>,
    /// Distance from the reference point to port (6 bits).
    pub to_port_m: Option<u8>,
    /// Distance from the reference point to starboard (6 bits).
    pub to_starboard_m: Option<u8>,
}

/// Type of electronic position-fixing device (4 bits).
#[derive(Debug, Clone, Copy, PartialEq, Eq, Structural)]
#[non_exhaustive]
pub enum EpfdType {
    /// 0 — undefined (default).
    Undefined,
    /// 1 — GPS.
    Gps,
    /// 2 — GLONASS.
    Glonass,
    /// 3 — combined GPS/GLONASS.
    CombinedGpsGlonass,
    /// 4 — Loran-C.
    LoranC,
    /// 5 — Chayka.
    Chayka,
    /// 6 — integrated navigation system.
    IntegratedNavigation,
    /// 7 — surveyed.
    Surveyed,
    /// 8 — Galileo.
    Galileo,
    /// 15 — internal GNSS.
    InternalGnss,
    /// Reserved values (9..=14), carried verbatim.
    Reserved(u8),
}

pub open spec fn epfd_of(v: u8) -> EpfdType {
    if v == 0 {
        EpfdType::Undefined
    } else if v == 1 {
        EpfdType::Gps
    } else if v == 2 {
        EpfdType::Glonass
    } else if v == 3 {
        EpfdType::CombinedGpsGlonass
    } else if v == 4 {
        EpfdType::LoranC
    } else if v == 5 {
        EpfdType::Chayka
    } else if v == 6 {
        EpfdType::IntegratedNavigation
    } else if v == 7 {
        EpfdType::Surveyed
    } else if v == 8 {
        EpfdType::Galileo
    } else if v == 15 {
        EpfdType::InternalGnss
    } else {
        EpfdType::Reserved(v)
    }
}

impl EpfdType {
    /// Map the 4-bit EPFD code to its variant.
    pub fn from_u4(v: u8) -> (e: Self)
        ensures
            e == epfd_of(v),
    {
        match v {
            0 => Self::Undefined,
            1 => Self::Gps,
            2 => Self::Glonass,
            3 => Self::CombinedGpsGlonass,
            4 => Self::LoranC,
            5 => Self::Chayka,
            6 => Self::IntegratedNavigation,
            7 => Self::Surveyed,
            8 => Self::Galileo,
            15 => Self::InternalGnss,
            other => Self::Reserved(other),
        }
    }
}

/// `s` without its trailing `'@'` and `' '` padding.
pub open spec fn trim_padding(s: Seq<char>) -> Seq<char>
    decreases s.len(),
{
    if s.len() > 0 && (s.last() == '@' || s.last() == ' ') {
        trim_padding(s.drop_last())
    } else {
        s
    }
}

/// The text of an AIS string field: `None` when only padding remains.
pub open spec fn ais_text(s: Seq<char>) -> Option<Seq<char>> {
    if trim_padding(s).len() == 0 {
        None
    } else {
        Some(trim_padding(s))
    }
}

pub open spec fn opt_string_view(o: Option<String>) -> Option<Seq<char>> {
    match o {
        Some(s) => Some(s@),
        None => None,
    }
}

proof fn lemma_trim_prefix(s: Seq<char>, k: int)
    requires
        0 <= k <= s.len(),
        forall|j: int| k <= j < s.len() ==> (#[trigger] s[j] == '@' || s[j] == ' '),
    ensures
        trim_padding(s) == trim_padding(s.subrange(0, k)),
    decreases s.len() - k,
{
    if k < s.len() {
        assert(s.drop_last() =~= s.subrange(0, s.len() - 1));
        lemma_trim_prefix(s.drop_last(), k);
        assert(s.drop_last().subrange(0, k) =~= s.subrange(0, k));
    } else {
        assert(s.subrange(0, k) =~= s);
    }
}

/// Strip trailing `'@'` and `' '` padding; `None` when nothing remains.
pub fn trim_ais_string(s: String) -> (r: Option<String>)
    ensures
        opt_string_view(r) == ais_text(s@),
{
    let text = s.as_str();
    let n = text.unicode_len();
    let mut k = n;
    while k > 0
        invariant
            0 <= k <= n == s@.len(),
            text@ == s@,
            forall|j: int| k <= j < n ==> (#[trigger] s@[j] == '@' || s@[j] == ' '),
        ensures
            k > 0 ==> !(s@[k - 1] == '@' || s@[k - 1] == ' '),
            forall|j: int| k <= j < n ==> (#[trigger] s@[j] == '@' || s@[j] == ' '),
        decreases k,
    {
        let c = text.get_char(k - 1);
        if c != '@' && c != ' ' {
            break;
        }
        k = k - 1;
    }
    proof {
        lemma_trim_prefix(s@, k as int);
        let p = s@.subrange(0, k as int);
        if k > 0 {
            assert(p.last() == s@[k - 1]);
            assert(trim_padding(p) == p);
        }
    }
    if k == 0 {
        proof {
            assert(s@.subrange(0, 0) =~= Seq::<char>::empty());
        }
        None
    } else {
        let t = text.substring_char(0, k);
        Some(t.to_owned())
    }
}

/// A 9-bit dimension: 0 means not available.
pub fn dim_u9(raw: u64) -> (d: Option<u16>)
    ensures
        d == if raw == 0 { None } else { Some((raw % 512) as u16) },
{
    if raw == 0 {
        None
    } else {
        let v = raw & 0x1FF;
        proof {
            assert(raw & 0x1FF == raw % 512) by (bit_vector);
        }
        Some(v as u16)
    }
}

/// A 6-bit dimension: 0 means not available.
pub fn dim_u6(raw: u64) -> (d: Option<u8>)
    ensures
        d == if raw == 0 { None } else { Some((raw % 64) as u8) },
{
    if raw == 0 {
        None
    } else {
        let v = raw & 0x3F;
        proof {
            assert(raw & 0x3F == raw % 64) by (bit_vector);
        }
        Some(v as u8)
    }
}

/// The text of the `chars`-character string field at bit offset `at`.
pub open spec fn text_field(b: Seq<u8>, t: int, at: int, chars: nat) -> Option<Seq<char>> {
    ais_text(codes_to_chars(ais_codes(b, t, at, chars)))
}

/// Read a `chars`-character string field, trimmed of its padding.
pub fn read_text(r: &mut BitReader, chars: usize) -> (s: Option<String>)
    requires
        old(r).spec_cursor() + 6 * chars <= usize::MAX,
    ensures
        opt_string_view(s) == text_field(old(r).spec_bits(), old(r).spec_total(), old(r).spec_cursor(), chars as nat),
        advanced(*final(r), *old(r), 6 * chars as nat),
{
    let codes = read_codes(r, chars);
    let text = crate::text::string_from_codes(codes.as_slice());
    trim_ais_string(text)
}

/// The dimension block (30 bits) at bit offset `at`.
pub open spec fn dimensions_of(b: Seq<u8>, t: int, at: int) -> Dimensions {
    Dimensions {
        to_bow_m: if uf(b, t, at, 9) == 0 { None } else { Some(uf(b, t, at, 9) as u16) },
        to_stern_m: if uf(b, t, at + 9, 9) == 0 { None } else { Some(uf(b, t, at + 9, 9) as u16) },
        to_port_m: if uf(b, t, at + 18, 6) == 0 { None } else { Some(uf(b, t, at + 18, 6) as u8) },
        to_starboard_m: if uf(b, t, at + 24, 6) == 0 { None } else { Some(uf(b, t, at + 24, 6) as u8) },
    }
}

/// Read the dimension block at the cursor.
pub fn read_dimensions(r: &mut BitReader) -> (d: Dimensions)
    requires
        old(r).spec_cursor() + 30 <= usize::MAX,
    ensures
        d == dimensions_of(old(r).spec_bits(), old(r).spec_total(), old(r).spec_cursor()),
        advanced(*final(r), *old(r), 30),
{
    proof {
        let (b, t, c) = (r.spec_bits(), r.spec_total(), r.spec_cursor());
        crate::ais::fields::lemma_field_bound(b, t, c, 9, 9);
        crate::ais::fields::lemma_field_bound(b, t, c + 9, 9, 9);
        crate::ais::fields::lemma_field_bound(b, t, c + 18, 6, 6);
        crate::ais::fields::lemma_field_bound(b, t, c + 24, 6, 6);
        vstd::arithmetic::power2::lemma2_to64();
    }
    let bow = read_u16(r, 9);
    let stern = read_u16(r, 9);
    let port = read_u16(r, 6);
    let starboard = read_u16(r, 6);
    Dimensions {
        to_bow_m: dim_u9(bow as u64),
        to_stern_m: dim_u9(stern as u64),
        to_port_m: dim_u6(port as u64),
        to_starboard_m: dim_u6(starboard as u64),
    }
}

} // verus!
