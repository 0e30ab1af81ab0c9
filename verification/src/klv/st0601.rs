//! The ST 0601 local set: typed storage, encoder and decoder.

use vstd::prelude::*;
use crate::klv::error::Error;
use crate::klv::ber::{
    be_bytes, be_u16, be_u64, be_value, ber_decode_len, ber_decode_spec, ber_encode_len,
    ber_length_bytes, field_value, lemma_be_value_bound, lemma_span_values, push_be, read_bytes,
    read_bytes_spec, sat_sub, span, unsigned_repr,
};
use crate::klv::checksum::{bcc, bcc_spec};

verus! {

/// MISB ST 0601 UAS Datalink Local Set 16-byte universal label (SMPTE UL key).
pub const UAS_LS_KEY: [u8; 16] = [
    0x06, 0x0E, 0x2B, 0x34, 0x02, 0x0B, 0x01, 0x01, 0x0E, 0x01, 0x03, 0x01, 0x01, 0x00, 0x00, 0x00,
];

/// The universal label as a sequence.
pub open spec fn uas_key() -> Seq<u8> {
    seq![
        0x06u8, 0x0E, 0x2B, 0x34, 0x02, 0x0B, 0x01, 0x01, 0x0E, 0x01, 0x03, 0x01, 0x01, 0x00, 0x00, 0x00,
    ]
}

/// Number of scaled tags this crate types (Tags 5..=25 and 40..=42 listed below).
pub const SCALED_TAG_COUNT: usize = 20;

/// Wire tag of scaled slot `k`, in ascending tag order.
pub open spec fn scaled_tag(k: int) -> u8 {
    seq![5u8, 6, 7, 8, 13, 14, 15, 16, 17, 18, 19, 20, 21, 22, 23, 24, 25, 40, 41, 42][k]
}

/// Wire width in bytes of scaled slot `k`.
pub open spec fn scaled_width(k: int) -> nat {
    seq![2nat, 2, 2, 1, 4, 4, 2, 2, 2, 4, 4, 4, 4, 2, 4, 4, 2, 4, 4, 2][k]
}

/// Whether scaled slot `k` holds a two's-complement value.
pub open spec fn scaled_signed(k: int) -> bool {
    k == 1 || k == 2 || k == 4 || k == 5 || k == 10 || k == 14 || k == 15 || k == 17 || k == 18
}

/// The scaled slot that carries wire tag `tag`, if any.
pub open spec fn scaled_slot(tag: u8) -> Option<int> {
    if 5 <= tag <= 8 {
        Some(tag - 5)
    } else if 13 <= tag <= 25 {
        Some(tag - 9)
    } else if 40 <= tag <= 42 {
        Some(tag - 23)
    } else {
        None
    }
}

/// `v` is representable in scaled slot `k`'s field type.
pub open spec fn scaled_fits(v: int, k: int) -> bool {
    if scaled_signed(k) {
        -(span(scaled_width(k)) / 2) <= v < span(scaled_width(k)) / 2
    } else {
        0 <= v < span(scaled_width(k))
    }
}

/// The abstract content of a local set. `scaled` holds the twenty scaled tags
/// in ascending tag order (the value as the wire integer, signed where the tag is).
pub struct St0601Model {
    pub timestamp_us: u64,
    pub version: Option<u8>,
    pub scaled: Seq<Option<int>>,
    pub unknown: Seq<(u8, Seq<u8>)>,
}

/// MISB ST 0601 UAS Datalink Local Set — the typed core. Unrecognized tags
/// round-trip via `unknown`.
#[derive(Clone, Debug, Default, PartialEq, Eq)]
pub struct St0601 {
    /// Tag 2: precision timestamp, microseconds since the UNIX epoch (UTC).
    pub timestamp_us: u64,
    /// Tag 65: UAS LS document version number.
    pub version: Option<u8>,
    /// Tag 5: platform heading, raw wire count.
    pub platform_heading: Option<u16>,
    /// Tag 6: platform pitch, raw wire count (`i16::MIN` = error sentinel).
    pub platform_pitch: Option<i16>,
    /// Tag 7: platform roll angle, raw wire count (`i16::MIN` = error sentinel).
    pub platform_roll: Option<i16>,
    /// Tag 8: platform true airspeed, m/s.
    pub platform_true_airspeed: Option<u8>,
    /// Tag 13: sensor latitude, raw wire count (`i32::MIN` = error sentinel).
    pub sensor_latitude: Option<i32>,
    /// Tag 14: sensor longitude, raw wire count (`i32::MIN` = error sentinel).
    pub sensor_longitude: Option<i32>,
    /// Tag 15: sensor true altitude, raw wire count.
    pub sensor_true_altitude: Option<u16>,
    /// Tag 16: sensor horizontal field of view, raw wire count.
    pub sensor_horizontal_fov: Option<u16>,
    /// Tag 17: sensor vertical field of view, raw wire count.
    pub sensor_vertical_fov: Option<u16>,
    /// Tag 18: sensor relative azimuth, raw wire count.
    pub sensor_relative_azimuth: Option<u32>,
    /// Tag 19: sensor relative elevation, raw wire count (`i32::MIN` = error sentinel).
    pub sensor_relative_elevation: Option<i32>,
    /// Tag 20: sensor relative roll, raw wire count.
    pub sensor_relative_roll: Option<u32>,
    /// Tag 21: slant range, raw wire count.
    pub slant_range: Option<u32>,
    /// Tag 22: target width, raw wire count.
    pub target_width: Option<u16>,
    /// Tag 23: frame center latitude, raw wire count (`i32::MIN` = error sentinel).
    pub frame_center_latitude: Option<i32>,
    /// Tag 24: frame center longitude, raw wire count (`i32::MIN` = error sentinel).
    pub frame_center_longitude: Option<i32>,
    /// Tag 25: frame center elevation, raw wire count.
    pub frame_center_elevation: Option<u16>,
    /// Tag 40: target location latitude, raw wire count (`i32::MIN` = error sentinel).
    pub target_location_latitude: Option<i32>,
    /// Tag 41: target location longitude, raw wire count (`i32::MIN` = error sentinel).
    pub target_location_longitude: Option<i32>,
    /// Tag 42: target location elevation, raw wire count.
    pub target_location_elevation: Option<u16>,
    /// Tags this crate does not type, preserved verbatim as `(tag, value)` in
    /// wire order and re-emitted on encode.
    pub unknown: Vec<(u8, Vec<u8>)>,
}

pub open spec fn opt_u8(o: Option<u8>) -> Option<int> {
    match o {
        Some(x) => Some(x as int),
        None => None,
    }
}

pub open spec fn opt_u16(o: Option<u16>) -> Option<int> {
    match o {
        Some(x) => Some(x as int),
        None => None,
    }
}

pub open spec fn opt_i16(o: Option<i16>) -> Option<int> {
    match o {
        Some(x) => Some(x as int),
        None => None,
    }
}

pub open spec fn opt_u32(o: Option<u32>) -> Option<int> {
    match o {
        Some(x) => Some(x as int),
        None => None,
    }
}

pub open spec fn opt_i32(o: Option<i32>) -> Option<int> {
    match o {
        Some(x) => Some(x as int),
        None => None,
    }
}

/// The unknown-tag list as plain byte sequences.
pub open spec fn unknown_view(u: Seq<(u8, Vec<u8>)>) -> Seq<(u8, Seq<u8>)> {
    u.map_values(|p: (u8, Vec<u8>)| (p.0, p.1@))
}

impl View for St0601 {
    type V = St0601Model;

    open spec fn view(&self) -> St0601Model {
        St0601Model {
            timestamp_us: self.timestamp_us,
            version: self.version,
            scaled: seq![
                opt_u16(self.platform_heading),
                opt_i16(self.platform_pitch),
                opt_i16(self.platform_roll),
                opt_u8(self.platform_true_airspeed),
                opt_i32(self.sensor_latitude),
                opt_i32(self.sensor_longitude),
                opt_u16(self.sensor_true_altitude),
                opt_u16(self.sensor_horizontal_fov),
                opt_u16(self.sensor_vertical_fov),
                opt_u32(self.sensor_relative_azimuth),
                opt_i32(self.sensor_relative_elevation),
                opt_u32(self.sensor_relative_roll),
                opt_u32(self.slant_range),
                opt_u16(self.target_width),
                opt_i32(self.frame_center_latitude),
                opt_i32(self.frame_center_longitude),
                opt_u16(self.frame_center_elevation),
                opt_i32(self.target_location_latitude),
                opt_i32(self.target_location_longitude),
                opt_u16(self.target_location_elevation),
            ],
            unknown: unknown_view(self.unknown@),
        }
    }
}

/// A model whose scaled slots hold values of their field types.
pub open spec fn model_wf(m: St0601Model) -> bool {
    &&& m.scaled.len() == 20
    &&& forall|k: int| 0 <= k < 20 ==> (#[trigger] m.scaled[k] matches Some(v) ==> scaled_fits(v, k))
}

/// The empty set a decode starts from.
pub open spec fn empty_model() -> St0601Model {
    St0601Model {
        timestamp_us: 0,
        version: None,
        scaled: Seq::new(20, |k: int| None::<int>),
        unknown: Seq::empty(),
    }
}

// ---------------------------------------------------------------------------
// Wire format
// ---------------------------------------------------------------------------

/// One item: tag byte, BER length, value.
pub open spec fn item_bytes(tag: u8, value: Seq<u8>) -> Seq<u8> {
    seq![tag] + ber_length_bytes(value.len()) + value
}

/// The items laid end to end.
pub open spec fn flatten(items: Seq<(u8, Seq<u8>)>) -> Seq<u8>
    decreases items.len(),
{
    if items.len() == 0 {
        Seq::empty()
    } else {
        item_bytes(items[0].0, items[0].1) + flatten(items.drop_first())
    }
}

/// The value bytes of scaled slot `k` holding `v`.
pub open spec fn scaled_value_bytes(v: int, k: int) -> Seq<u8> {
    be_bytes(unsigned_repr(v, scaled_width(k)), scaled_width(k))
}

/// The present scaled tags from slot `k` on, in ascending tag order.
pub open spec fn scaled_items(sc: Seq<Option<int>>, k: nat) -> Seq<(u8, Seq<u8>)>
    decreases 20 - k,
{
    if k >= 20 {
        Seq::empty()
    } else {
        let rest = scaled_items(sc, k + 1);
        match sc[k as int] {
            Some(v) => seq![(scaled_tag(k as int), scaled_value_bytes(v, k as int))] + rest,
            None => rest,
        }
    }
}

/// The items an encode emits before the checksum: Tag 2, Tag 65 when present,
/// the present scaled tags, then the unknown tags in their order.
pub open spec fn body_items(m: St0601Model) -> Seq<(u8, Seq<u8>)> {
    seq![(2u8, be_bytes(m.timestamp_us as nat, 8))] + match m.version {
        Some(v) => seq![(65u8, seq![v])],
        None => Seq::empty(),
    } + scaled_items(m.scaled, 0) + m.unknown
}

/// Everything an encode writes up to and including the checksum item's length byte.
pub open spec fn framed_without_checksum(m: St0601Model) -> Seq<u8> {
    let items = flatten(body_items(m));
    uas_key() + ber_length_bytes(items.len() + 4) + items + seq![1u8, 2u8]
}

/// The complete packet an encode writes for `m`.
pub open spec fn encoding(m: St0601Model) -> Seq<u8> {
    let framed = framed_without_checksum(m);
    framed + be_bytes(bcc_spec(framed) as nat, 2)
}

// ---------------------------------------------------------------------------
// Decoding, as a fold over the items
// ---------------------------------------------------------------------------

/// The state of a decode between items: the set so far, the Tag 1 seen
/// (its value and the offset just past its length byte), and whether a
/// Tag 2 timestamp was seen.
pub struct DecodeState {
    pub model: St0601Model,
    pub checksum: Option<(u16, usize)>,
    pub timestamp_seen: bool,
}

pub open spec fn initial_state() -> DecodeState {
    DecodeState { model: empty_model(), checksum: None, timestamp_seen: false }
}

/// `m` with scaled slot `k` set to `v`.
pub open spec fn with_scaled(m: St0601Model, k: int, v: int) -> St0601Model {
    St0601Model { scaled: m.scaled.update(k, Some(v)), ..m }
}

pub open spec fn with_unknown(m: St0601Model, tag: u8, value: Seq<u8>) -> St0601Model {
    St0601Model { unknown: m.unknown.push((tag, value)), ..m }
}

/// `m` with scaled tag `tag` set from `value`, when `tag` is a scaled tag and
/// `value` has its width.
pub open spec fn scaled_update(m: St0601Model, tag: u8, value: Seq<u8>) -> Option<St0601Model> {
    match scaled_slot(tag) {
        Some(k) => if value.len() == scaled_width(k) {
            Some(with_scaled(m, k, field_value(value, scaled_signed(k))))
        } else {
            None
        },
        None => None,
    }
}

/// The effect of one item on the decode state.
pub open spec fn apply_item(st: DecodeState, tag: u8, value: Seq<u8>, value_start: int) -> Result<DecodeState, Error> {
    if tag == 1 {
        if value.len() == 2 {
            Ok(DecodeState { checksum: Some((be_value(value) as u16, value_start as usize)), ..st })
        } else {
            Err(Error::Truncated { offset: 0, needed: 2, available: value.len() as usize })
        }
    } else if tag == 2 {
        if value.len() == 8 {
            Ok(
                DecodeState {
                    model: St0601Model { timestamp_us: be_value(value) as u64, ..st.model },
                    timestamp_seen: true,
                    ..st
                },
            )
        } else {
            Err(Error::Truncated { offset: 0, needed: 8, available: value.len() as usize })
        }
    } else if tag == 65 {
        if value.len() == 1 {
            Ok(DecodeState { model: St0601Model { version: Some(value[0]), ..st.model }, ..st })
        } else {
            Ok(DecodeState { model: with_unknown(st.model, tag, value), ..st })
        }
    } else {
        match scaled_update(st.model, tag, value) {
            Some(m) => Ok(DecodeState { model: m, ..st }),
            None => Ok(DecodeState { model: with_unknown(st.model, tag, value), ..st }),
        }
    }
}

/// The item at `offset`: its tag, where its value starts, and its value.
pub open spec fn item_at(input: Seq<u8>, offset: int) -> Result<(u8, int, Seq<u8>), Error> {
    if offset >= input.len() {
        Err(Error::Truncated { offset: offset as usize, needed: 1, available: 0 })
    } else {
        match ber_decode_spec(input, offset + 1) {
            Err(e) => Err(e),
            Ok((len, vs)) => match read_bytes_spec(input, vs as int, len as int) {
                Err(e) => Err(e),
                Ok(v) => Ok((input[offset], vs as int, v)),
            },
        }
    }
}

/// Walk the items from `offset` while `offset < end`. Tag 1 must be the
/// last item: any item after it is refused.
pub open spec fn decode_items(input: Seq<u8>, offset: int, end: int, st: DecodeState) -> Result<DecodeState, Error>
    decreases end - offset,
{
    if offset >= end {
        Ok(st)
    } else if st.checksum is Some {
        Err(Error::ChecksumNotLast)
    } else {
        match item_at(input, offset) {
            Err(e) => Err(e),
            Ok((tag, vs, v)) => match apply_item(st, tag, v, vs) {
                Err(e) => Err(e),
                Ok(next) => if offset < vs + v.len() < end {
                    decode_items(input, vs + v.len(), end, next)
                } else {
                    Ok(next)
                },
            },
        }
    }
}

/// The key check and the outer length: the offset of the first item and the
/// end of the items.
pub open spec fn frame_spec(input: Seq<u8>) -> Result<(int, int), Error> {
    match read_bytes_spec(input, 0, 16) {
        Err(e) => Err(e),
        Ok(k) => if k != uas_key() {
            Err(Error::BadKey)
        } else {
            match ber_decode_spec(input, 16) {
                Err(e) => Err(e),
                Ok((value_len, offset)) => if offset + value_len > usize::MAX {
                    Err(Error::LengthOverflow)
                } else if offset + value_len > input.len() {
                    Err(
                        Error::Truncated {
                            offset,
                            needed: value_len,
                            available: sat_sub(input.len() as int, offset as int),
                        },
                    )
                } else {
                    Ok((offset as int, offset + value_len))
                },
            }
        },
    }
}

/// What `decode` returns for `input`: the framing error, the first item
/// error, a missing, misplaced or wrong checksum, or a missing timestamp, in
/// that order; otherwise the set.
pub open spec fn decode_spec(input: Seq<u8>) -> Result<St0601Model, Error> {
    match frame_spec(input) {
        Err(e) => Err(e),
        Ok((offset, end)) => match decode_items(input, offset, end, initial_state()) {
            Err(e) => Err(e),
            Ok(st) => match st.checksum {
                None => Err(Error::BadChecksum { computed: 0, embedded: 0 }),
                Some((embedded, vs)) => {
                    let computed = bcc_spec(input.subrange(0, vs as int));
                    if computed != embedded {
                        Err(Error::BadChecksum { computed, embedded })
                    } else if !st.timestamp_seen {
                        Err(Error::MissingTimestamp)
                    } else {
                        Ok(st.model)
                    }
                },
            },
        },
    }
}

/// Scan the items from `offset` for the first Tag 2.
pub open spec fn scan_timestamp(input: Seq<u8>, offset: int, end: int) -> Result<Option<u64>, Error>
    decreases end - offset,
{
    if offset >= end {
        Ok(None)
    } else {
        match item_at(input, offset) {
            Err(e) => Err(e),
            Ok((tag, vs, v)) => if tag == 2 {
                if v.len() == 8 {
                    Ok(Some(be_value(v) as u64))
                } else {
                    Err(Error::Truncated { offset: 0, needed: 8, available: v.len() as usize })
                }
            } else if offset < vs + v.len() < end {
                scan_timestamp(input, vs + v.len(), end)
            } else {
                Ok(None)
            },
        }
    }
}

/// What `precision_timestamp` returns for `input`.
pub open spec fn timestamp_spec(input: Seq<u8>) -> Result<Option<u64>, Error> {
    match frame_spec(input) {
        Err(e) => Err(e),
        Ok((offset, end)) => scan_timestamp(input, offset, end),
    }
}

// ---------------------------------------------------------------------------
// Executable helpers
// ---------------------------------------------------------------------------

fn scaled_slot_of(tag: u8) -> (r: Option<usize>)
    ensures
        r matches Some(k) ==> k < 20 && scaled_slot(tag) == Some(k as int),
        r is None ==> scaled_slot(tag) is None,
{
    if 5 <= tag && tag <= 8 {
        Some((tag - 5) as usize)
    } else if 13 <= tag && tag <= 25 {
        Some((tag - 9) as usize)
    } else if 40 <= tag && tag <= 42 {
        Some((tag - 23) as usize)
    } else {
        None
    }
}

fn scaled_tag_of(k: usize) -> (t: u8)
    requires
        k < 20,
    ensures
        t == scaled_tag(k as int),
{
    let tags: [u8; 20] = [5, 6, 7, 8, 13, 14, 15, 16, 17, 18, 19, 20, 21, 22, 23, 24, 25, 40, 41, 42];
    proof {
        assert(tags@ == seq![5u8, 6, 7, 8, 13, 14, 15, 16, 17, 18, 19, 20, 21, 22, 23, 24, 25, 40, 41, 42]);
    }
    tags[k]
}

fn scaled_width_of(k: usize) -> (w: usize)
    requires
        k < 20,
    ensures
        w == scaled_width(k as int),
        w == 1 || w == 2 || w == 4,
{
    let widths: [usize; 20] = [2, 2, 2, 1, 4, 4, 2, 2, 2, 4, 4, 4, 4, 2, 4, 4, 2, 4, 4, 2];
    proof {
        assert(widths@ == seq![2usize, 2, 2, 1, 4, 4, 2, 2, 2, 4, 4, 4, 4, 2, 4, 4, 2, 4, 4, 2]);
    }
    widths[k]
}

fn scaled_signed_of(k: usize) -> (s: bool)
    ensures
        s == scaled_signed(k as int),
{
    k == 1 || k == 2 || k == 4 || k == 5 || k == 10 || k == 14 || k == 15 || k == 17 || k == 18
}

/// The value of a scaled item of slot `k`, when `value` has the slot's width.
fn read_scaled(value: &[u8], k: usize) -> (r: Option<i64>)
    requires
        k < 20,
    ensures
        r == if value@.len() == scaled_width(k as int) {
            Some(field_value(value@, scaled_signed(k as int)) as i64)
        } else {
            None::<i64>
        },
        r matches Some(x) ==> scaled_fits(x as int, k as int) && x as int == field_value(
            value@,
            scaled_signed(k as int),
        ),
{
    let width = scaled_width_of(k);
    if value.len() != width {
        return None;
    }
    let mut u: u64 = 0;
    let mut i: usize = 0;
    while i < value.len()
        invariant
            0 <= i <= value@.len() == width <= 4,
            u == be_value(value@.subrange(0, i as int)),
        decreases value@.len() - i,
    {
        proof {
            lemma_be_value_bound(value@.subrange(0, i as int));
            crate::klv::ber::lemma_span_monotonic(i as nat, 4);
            lemma_span_values();
            let s = value@.subrange(0, i + 1);
            assert(s.drop_last() == value@.subrange(0, i as int));
        }
        u = u * 256 + value[i] as u64;
        i = i + 1;
    }
    proof {
        assert(value@.subrange(0, value@.len() as int) == value@);
        lemma_be_value_bound(value@);
        lemma_span_values();
    }
    let full: u64 = if width == 1 {
        0x100
    } else if width == 2 {
        0x1_0000
    } else {
        0x1_0000_0000
    };
    if scaled_signed_of(k) && u >= full / 2 {
        Some(u as i64 - full as i64)
    } else {
        Some(u as i64)
    }
}

/// Store a decoded scaled value into its field.
fn store_scaled(set: &mut St0601, k: usize, raw: i64)
    requires
        k < 20,
        scaled_fits(raw as int, k as int),
    ensures
        final(set)@ == with_scaled(old(set)@, k as int, raw as int),
{
    proof {
        lemma_span_values();
    }
    match k {
        0 => set.platform_heading = Some(raw as u16),
        1 => set.platform_pitch = Some(raw as i16),
        2 => set.platform_roll = Some(raw as i16),
        3 => set.platform_true_airspeed = Some(raw as u8),
        4 => set.sensor_latitude = Some(raw as i32),
        5 => set.sensor_longitude = Some(raw as i32),
        6 => set.sensor_true_altitude = Some(raw as u16),
        7 => set.sensor_horizontal_fov = Some(raw as u16),
        8 => set.sensor_vertical_fov = Some(raw as u16),
        9 => set.sensor_relative_azimuth = Some(raw as u32),
        10 => set.sensor_relative_elevation = Some(raw as i32),
        11 => set.sensor_relative_roll = Some(raw as u32),
        12 => set.slant_range = Some(raw as u32),
        13 => set.target_width = Some(raw as u16),
        14 => set.frame_center_latitude = Some(raw as i32),
        15 => set.frame_center_longitude = Some(raw as i32),
        16 => set.frame_center_elevation = Some(raw as u16),
        17 => set.target_location_latitude = Some(raw as i32),
        18 => set.target_location_longitude = Some(raw as i32),
        _ => set.target_location_elevation = Some(raw as u16),
    }
    proof {
        assert(set@.scaled =~= old(set)@.scaled.update(k as int, Some(raw as int)));
    }
}

proof fn lemma_twos_u16(x: i16)
    ensures
        (x as u16) as int == unsigned_repr(x as int, 2),
{
    lemma_span_values();
    assert(x < 0 ==> (x as u16) as int == x + 0x1_0000) by (bit_vector);
    assert(x >= 0 ==> (x as u16) as int == x) by (bit_vector);
}

proof fn lemma_twos_u32(x: i32)
    ensures
        (x as u32) as int == unsigned_repr(x as int, 4),
{
    lemma_span_values();
    assert(x < 0 ==> (x as u32) as int == x + 0x1_0000_0000) by (bit_vector);
    assert(x >= 0 ==> (x as u32) as int == x) by (bit_vector);
}

/// The wire integer of scaled slot `k`, when present.
fn load_scaled(set: &St0601, k: usize) -> (r: Option<u64>)
    requires
        k < 20,
    ensures
        r == match set@.scaled[k as int] {
            Some(v) => Some(unsigned_repr(v, scaled_width(k as int)) as u64),
            None => None::<u64>,
        },
        r matches Some(x) ==> set@.scaled[k as int] matches Some(v) && x as int == unsigned_repr(
            v,
            scaled_width(k as int),
        ),
{
    proof {
        lemma_span_values();
    }
    match k {
        0 => match set.platform_heading {
            Some(x) => Some(x as u64),
            None => None,
        },
        1 => match set.platform_pitch {
            Some(x) => {
                proof {
                    lemma_twos_u16(x);
                }
                Some((x as u16) as u64)
            },
            None => None,
        },
        2 => match set.platform_roll {
            Some(x) => {
                proof {
                    lemma_twos_u16(x);
                }
                Some((x as u16) as u64)
            },
            None => None,
        },
        3 => match set.platform_true_airspeed {
            Some(x) => Some(x as u64),
            None => None,
        },
        4 => match set.sensor_latitude {
            Some(x) => {
                proof {
                    lemma_twos_u32(x);
                }
                Some((x as u32) as u64)
            },
            None => None,
        },
        5 => match set.sensor_longitude {
            Some(x) => {
                proof {
                    lemma_twos_u32(x);
                }
                Some((x as u32) as u64)
            },
            None => None,
        },
        6 => match set.sensor_true_altitude {
            Some(x) => Some(x as u64),
            None => None,
        },
        7 => match set.sensor_horizontal_fov {
            Some(x) => Some(x as u64),
            None => None,
        },
        8 => match set.sensor_vertical_fov {
            Some(x) => Some(x as u64),
            None => None,
        },
        9 => match set.sensor_relative_azimuth {
            Some(x) => Some(x as u64),
            None => None,
        },
        10 => match set.sensor_relative_elevation {
            Some(x) => {
                proof {
                    lemma_twos_u32(x);
                }
                Some((x as u32) as u64)
            },
            None => None,
        },
        11 => match set.sensor_relative_roll {
            Some(x) => Some(x as u64),
            None => None,
        },
        12 => match set.slant_range {
            Some(x) => Some(x as u64),
            None => None,
        },
        13 => match set.target_width {
            Some(x) => Some(x as u64),
            None => None,
        },
        14 => match set.frame_center_latitude {
            Some(x) => {
                proof {
                    lemma_twos_u32(x);
                }
                Some((x as u32) as u64)
            },
            None => None,
        },
        15 => match set.frame_center_longitude {
            Some(x) => {
                proof {
                    lemma_twos_u32(x);
                }
                Some((x as u32) as u64)
            },
            None => None,
        },
        16 => match set.frame_center_elevation {
            Some(x) => Some(x as u64),
            None => None,
        },
        17 => match set.target_location_latitude {
            Some(x) => {
                proof {
                    lemma_twos_u32(x);
                }
                Some((x as u32) as u64)
            },
            None => None,
        },
        18 => match set.target_location_longitude {
            Some(x) => {
                proof {
                    lemma_twos_u32(x);
                }
                Some((x as u32) as u64)
            },
            None => None,
        },
        _ => match set.target_location_elevation {
            Some(x) => Some(x as u64),
            None => None,
        },
    }
}

/// Try to decode `tag` as a scaled tag; `true` = consumed. A known tag with
/// the wrong wire length is not consumed (it falls back to `unknown`).
fn decode_scaled(tag: u8, value: &[u8], set: &mut St0601) -> (consumed: bool)
    ensures
        match scaled_update(old(set)@, tag, value@) {
            Some(m) => consumed && final(set)@ == m,
            None => !consumed && final(set)@ == old(set)@,
        },
{
    match scaled_slot_of(tag) {
        Some(k) => match read_scaled(value, k) {
            Some(raw) => {
                store_scaled(set, k, raw);
                true
            },
            None => false,
        },
        None => false,
    }
}


pub proof fn lemma_flatten_append(a: Seq<(u8, Seq<u8>)>, b: Seq<(u8, Seq<u8>)>)
    ensures
        flatten(a + b) == flatten(a) + flatten(b),
    decreases a.len(),
{
    if a.len() == 0 {
        assert(a + b == b);
    } else {
        lemma_flatten_append(a.drop_first(), b);
        assert((a + b).drop_first() == a.drop_first() + b);
    }
}

proof fn lemma_flatten_step(s: Seq<(u8, Seq<u8>)>, i: int)
    requires
        0 <= i < s.len(),
    ensures
        flatten(s.subrange(i, s.len() as int)) == item_bytes(s[i].0, s[i].1) + flatten(
            s.subrange(i + 1, s.len() as int),
        ),
{
    assert(s.subrange(i, s.len() as int).drop_first() == s.subrange(i + 1, s.len() as int));
}

/// Append the present scaled tags in ascending tag order.
fn encode_scaled(set: &St0601, items: &mut Vec<u8>)
    ensures
        final(items)@ == old(items)@ + flatten(scaled_items(set@.scaled, 0)),
{
    let ghost sc = set@.scaled;
    let mut k: usize = 0;
    while k < SCALED_TAG_COUNT
        invariant
            k <= 20,
            sc == set@.scaled,
            items@ + flatten(scaled_items(sc, k as nat)) == old(items)@ + flatten(scaled_items(sc, 0)),
        decreases 20 - k,
    {
        let ghost before = items@;
        match load_scaled(set, k) {
            Some(raw) => {
                let t = scaled_tag_of(k);
                let w = scaled_width_of(k);
                items.push(t);
                ber_encode_len(w, items);
                push_be(raw, w, items);
                proof {
                    let v = sc[k as int]->Some_0;
                    let it = (scaled_tag(k as int), scaled_value_bytes(v, k as int));
                    crate::klv::ber::lemma_be_bytes(raw as nat, w as nat);
                    lemma_flatten_append(seq![it], scaled_items(sc, (k + 1) as nat));
                    assert(seq![it].drop_first() =~= Seq::<(u8, Seq<u8>)>::empty());
                    assert(flatten(seq![it]) == item_bytes(it.0, it.1) + flatten(Seq::<(u8, Seq<u8>)>::empty()));
                    assert(items@ == before + item_bytes(it.0, it.1));
                }
            },
            None => {},
        }
        k = k + 1;
    }
}

/// Append the unknown tags in their order.
fn encode_unknown(set: &St0601, items: &mut Vec<u8>)
    ensures
        final(items)@ == old(items)@ + flatten(set@.unknown),
{
    let ghost u = set@.unknown;
    let mut i: usize = 0;
    proof {
        assert(u.subrange(0, u.len() as int) == u);
    }
    while i < set.unknown.len()
        invariant
            0 <= i <= u.len(),
            u == set@.unknown,
            u.len() == set.unknown@.len(),
            items@ + flatten(u.subrange(i as int, u.len() as int)) == old(items)@ + flatten(u),
        decreases u.len() - i,
    {
        let entry = &set.unknown[i];
        let ghost before = items@;
        items.push(entry.0);
        ber_encode_len(entry.1.len(), items);
        crate::text::extend_bytes(items, entry.1.as_slice());
        proof {
            lemma_flatten_step(u, i as int);
            assert(u[i as int] == (entry.0, entry.1@));
            assert(items@ == before + item_bytes(entry.0, entry.1@));
        }
        i = i + 1;
    }
    proof {
        assert(u.subrange(u.len() as int, u.len() as int) =~= Seq::<(u8, Seq<u8>)>::empty());
    }
}

/// Encode a set into `out` (appended): the UAS LS key, the outer BER length,
/// then Tag 2, Tag 65, the scaled tags, the unknown tags, and the Tag 1
/// checksum last. The checksum covers only this call's bytes.
pub fn encode(set: &St0601, out: &mut Vec<u8>) -> (res: Result<(), Error>)
    ensures
        flatten(body_items(set@)).len() + 4 <= usize::MAX ==> res is Ok && final(out)@ == old(out)@ + encoding(
            set@,
        ),
        flatten(body_items(set@)).len() + 4 > usize::MAX ==> res == Err::<(), Error>(Error::LengthOverflow)
            && final(out)@ == old(out)@,
{
    let ghost m = set@;
    let mut items: Vec<u8> = Vec::new();
    items.push(2);
    ber_encode_len(8, &mut items);
    push_be(set.timestamp_us, 8, &mut items);
    let ghost ts_item = seq![(2u8, be_bytes(m.timestamp_us as nat, 8))];
    proof {
        crate::klv::ber::lemma_be_bytes(m.timestamp_us as nat, 8);
        assert(ts_item.drop_first() =~= Seq::<(u8, Seq<u8>)>::empty());
        assert(flatten(Seq::<(u8, Seq<u8>)>::empty()) == Seq::<u8>::empty());
        assert(items@ =~= item_bytes(2u8, be_bytes(m.timestamp_us as nat, 8)));
        assert(items@ == flatten(ts_item));
    }
    let ghost ver_item = match m.version {
        Some(v) => seq![(65u8, seq![v])],
        None => Seq::<(u8, Seq<u8>)>::empty(),
    };
    match set.version {
        Some(version) => {
            let ghost before = items@;
            items.push(65);
            ber_encode_len(1, &mut items);
            items.push(version);
            proof {
                assert(ver_item.drop_first() =~= Seq::<(u8, Seq<u8>)>::empty());
                assert(items@ == before + flatten(ver_item));
            }
        },
        None => {},
    }
    encode_scaled(set, &mut items);
    encode_unknown(set, &mut items);
    proof {
        lemma_flatten_append(ts_item, ver_item);
        lemma_flatten_append(ts_item + ver_item, scaled_items(m.scaled, 0));
        lemma_flatten_append(ts_item + ver_item + scaled_items(m.scaled, 0), m.unknown);
        assert(items@ == flatten(body_items(m)));
    }
    let value_len = match items.len().checked_add(4) {
        Some(v) => v,
        None => return Err(Error::LengthOverflow),
    };
    let start = out.len();
    proof {
        assert(UAS_LS_KEY@ == uas_key());
    }
    crate::text::extend_bytes(out, UAS_LS_KEY.as_slice());
    ber_encode_len(value_len, out);
    crate::text::extend_bytes(out, items.as_slice());
    out.push(1);
    out.push(2);
    let ghost framed = out@.subrange(start as int, out@.len() as int);
    proof {
        assert(framed == framed_without_checksum(m));
    }
    let checksum = bcc(vstd::slice::slice_subrange(out.as_slice(), start, out.len()));
    push_be(checksum as u64, 2, out);
    Ok(())
}


/// Check the key and read the outer length: the offset of the first item and
/// the end of the items.
fn frame(input: &[u8]) -> (res: Result<(usize, usize), Error>)
    ensures
        match res {
            Ok((offset, end)) => frame_spec(input@) == Ok::<(int, int), Error>((offset as int, end as int))
                && offset <= end <= input@.len(),
            Err(e) => frame_spec(input@) == Err::<(int, int), Error>(e),
        },
{
    let key = match read_bytes(input, 0, 16) {
        Ok(k) => k,
        Err(e) => return Err(e),
    };
    proof {
        assert(UAS_LS_KEY@ == uas_key());
    }
    if !crate::text::bytes_equal(key, UAS_LS_KEY.as_slice()) {
        return Err(Error::BadKey);
    }
    let (value_len, offset) = match ber_decode_len(input, 16) {
        Ok(p) => p,
        Err(e) => return Err(e),
    };
    let end = match offset.checked_add(value_len) {
        Some(e) => e,
        None => return Err(Error::LengthOverflow),
    };
    if end > input.len() {
        return Err(
            Error::Truncated {
                offset,
                needed: value_len,
                available: input.len().saturating_sub(offset),
            },
        );
    }
    Ok((offset, end))
}

fn empty_set() -> (set: St0601)
    ensures
        set@ == empty_model(),
{
    let set = St0601 {
        timestamp_us: 0,
        version: None,
        platform_heading: None,
        platform_pitch: None,
        platform_roll: None,
        platform_true_airspeed: None,
        sensor_latitude: None,
        sensor_longitude: None,
        sensor_true_altitude: None,
        sensor_horizontal_fov: None,
        sensor_vertical_fov: None,
        sensor_relative_azimuth: None,
        sensor_relative_elevation: None,
        sensor_relative_roll: None,
        slant_range: None,
        target_width: None,
        frame_center_latitude: None,
        frame_center_longitude: None,
        frame_center_elevation: None,
        target_location_latitude: None,
        target_location_longitude: None,
        target_location_elevation: None,
        unknown: Vec::new(),
    };
    proof {
        assert(set@.scaled =~= empty_model().scaled);
        assert(set@.unknown =~= empty_model().unknown);
    }
    set
}

fn push_unknown(set: &mut St0601, tag: u8, value: &[u8])
    ensures
        final(set)@ == with_unknown(old(set)@, tag, value@),
{
    set.unknown.push((tag, vstd::slice::slice_to_vec(value)));
    proof {
        assert(set@.unknown =~= old(set)@.unknown.push((tag, value@)));
        assert(set@.scaled =~= old(set)@.scaled);
    }
}

/// Decode a local set: verify the key, walk every item into typed fields
/// (unknown tags preserved in order), then verify the embedded checksum.
/// Tag 1 (the checksum) must be the last item and Tag 2 (the timestamp) must
/// be present: a set that breaks either is refused.
pub fn decode(input: &[u8]) -> (res: Result<St0601, Error>)
    ensures
        match decode_spec(input@) {
            Ok(m) => res matches Ok(s) && s@ == m,
            Err(e) => res matches Err(r) && r == e,
        },
{
    let (first, end) = match frame(input) {
        Ok(p) => p,
        Err(e) => return Err(e),
    };
    let mut offset = first;
    let mut set = empty_set();
    let mut checksum: Option<(u16, usize)> = None;
    let mut timestamp_seen = false;
    let ghost total = decode_items(input@, first as int, end as int, initial_state());
    while offset < end
        invariant
            end <= input@.len(),
            frame_spec(input@) == Ok::<(int, int), Error>((first as int, end as int)),
            total == decode_items(input@, first as int, end as int, initial_state()),
            decode_items(input@, offset as int, end as int, DecodeState { model: set@, checksum, timestamp_seen })
                == total,
            checksum matches Some((c, vs)) ==> vs <= input@.len(),
        decreases input@.len() - offset,
    {
        if checksum.is_some() {
            return Err(Error::ChecksumNotLast);
        }
        let ghost st = DecodeState { model: set@, checksum, timestamp_seen };
        let tag = input[offset];
        let (len, value_start) = match ber_decode_len(input, offset + 1) {
            Ok(p) => p,
            Err(e) => return Err(e),
        };
        proof {
            assert(value_start > offset + 1);
        }
        let value = match read_bytes(input, value_start, len) {
            Ok(v) => v,
            Err(e) => return Err(e),
        };
        if tag == 1 {
            match be_u16(value) {
                Ok(c) => checksum = Some((c, value_start)),
                Err(e) => return Err(e),
            }
        } else if tag == 2 {
            match be_u64(value) {
                Ok(t) => {
                    set.timestamp_us = t;
                    timestamp_seen = true;
                },
                Err(e) => return Err(e),
            }
        } else if tag == 65 {
            if value.len() == 1 {
                set.version = Some(value[0]);
            } else {
                push_unknown(&mut set, 65, value);
            }
        } else {
            if !decode_scaled(tag, value, &mut set) {
                push_unknown(&mut set, tag, value);
            }
        }
        proof {
            assert(apply_item(st, tag, value@, value_start as int) == Ok::<DecodeState, Error>(
                DecodeState { model: set@, checksum, timestamp_seen },
            ));
        }
        offset = value_start + len;
    }
    let (embedded, vs) = match checksum {
        Some(c) => c,
        None => return Err(Error::BadChecksum { computed: 0, embedded: 0 }),
    };
    let computed = bcc(vstd::slice::slice_subrange(input, 0, vs));
    if computed != embedded {
        return Err(Error::BadChecksum { computed, embedded });
    }
    if !timestamp_seen {
        return Err(Error::MissingTimestamp);
    }
    Ok(set)
}

/// Cheap Tag 2 peek: check the key and the outer length, scan the items for
/// Tag 2 and return its value; `Ok(None)` when absent. Does not verify the checksum.
pub fn precision_timestamp(input: &[u8]) -> (res: Result<Option<u64>, Error>)
    ensures
        res == timestamp_spec(input@),
{
    let (first, end) = match frame(input) {
        Ok(p) => p,
        Err(e) => return Err(e),
    };
    let mut offset = first;
    while offset < end
        invariant
            end <= input@.len(),
            timestamp_spec(input@) == scan_timestamp(input@, offset as int, end as int),
        decreases input@.len() - offset,
    {
        let tag = input[offset];
        let (len, value_start) = match ber_decode_len(input, offset + 1) {
            Ok(p) => p,
            Err(e) => return Err(e),
        };
        proof {
            assert(value_start > offset + 1);
        }
        let value = match read_bytes(input, value_start, len) {
            Ok(v) => v,
            Err(e) => return Err(e),
        };
        if tag == 2 {
            return match be_u64(value) {
                Ok(t) => Ok(Some(t)),
                Err(e) => Err(e),
            };
        }
        offset = value_start + len;
    }
    Ok(None)
}

/// Declares `bytes::Bytes` to the verifier; its contents are reached only
/// through `bytes_content`.
#[verifier::external_type_specification]
#[verifier::external_body]
pub struct ExBytes(bytes::Bytes);

/// The bytes a `bytes::Bytes` buffer holds, in order.
pub uninterp spec fn bytes_content(b: bytes::Bytes) -> Seq<u8>;

/// `bytes::Bytes::from(Vec<u8>)`: takes over the vector's buffer, so the
/// result holds exactly the vector's bytes in the same order.
#[verifier::external_body]
fn bytes_from_vec(v: Vec<u8>) -> (b: bytes::Bytes)
    ensures
        bytes_content(b) == v@,
{
    bytes::Bytes::from(v)
}

/// Encode a set into a freshly allocated `bytes::Bytes`, for callers that
/// hand ownership downstream. The bytes are those `encode` writes.
pub fn encode_to_bytes(set: &St0601) -> (res: Result<bytes::Bytes, Error>)
    ensures
        flatten(body_items(set@)).len() + 4 <= usize::MAX ==> (res matches Ok(b) && bytes_content(b)
            == encoding(set@)),
        flatten(body_items(set@)).len() + 4 > usize::MAX ==> (res matches Err(e) && e == Error::LengthOverflow),
{
    let mut out: Vec<u8> = Vec::new();
    match encode(set, &mut out) {
        Ok(()) => {},
        Err(e) => return Err(e),
    }
    proof {
        assert(out@ =~= encoding(set@));
    }
    Ok(bytes_from_vec(out))
}

} // verus!
