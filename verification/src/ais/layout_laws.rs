//! Decoding reads back what was written: a message laid out field by field
//! in the ITU-R M.1371 order decodes to those fields. The layouts below list
//! the fields' widths in that order; where each field starts follows from
//! the widths alone.

use vstd::prelude::*;
use vstd::arithmetic::power2::{pow2, lemma_pow2_pos, lemma_pow2_unfold};
use vstd::arithmetic::div_mod::{lemma_basic_div, lemma_div_denominator, lemma_fundamental_div_mod};
use crate::ais::bit_reader::{ais_char_code, ais_codes, bits_value, codes_to_chars, signed_value, stream_bit};
use crate::ais::shared_types::{ais_text, dimensions_of, epfd_of, opt_string_view, text_field, Dimensions};
use crate::ais::static_data_b::{part_a_matches, part_b_matches, StaticDataB24A, StaticDataB24B};
use crate::ais::extended_position_report_b::{extended_position_report_b_matches, ExtendedPositionReportB};
use crate::ais::static_voyage_a::{ais_version_of, static_and_voyage_a_matches, unless_u8, Eta, StaticAndVoyageA};
use crate::ais::position_report_a::{
    maneuver_of, nav_status_of, opt_i32_of, opt_u16_of, position_report_a_of, unless_u, PositionReportA,
    LAT_NOT_AVAILABLE, LON_NOT_AVAILABLE,
};
use crate::ais::position_report_b::{position_report_b_of, PositionReportB};

verus! {

/// Bit `j` (0 = most significant) of `v` written in `w` bits.
pub open spec fn field_bit(v: nat, w: nat, j: int) -> bool {
    (v / pow2((w - 1 - j) as nat)) % 2 == 1
}

/// Where field `k` of `fs` (value, width) starts when the fields are
/// written one after another from bit 0.
pub open spec fn field_offset(fs: Seq<(nat, nat)>, k: int) -> nat
    decreases k,
{
    if k <= 0 {
        0
    } else {
        field_offset(fs, k - 1) + fs[k - 1].1
    }
}

/// Every value fits its width.
pub open spec fn fields_fit(fs: Seq<(nat, nat)>) -> bool {
    forall|k: int| 0 <= k < fs.len() ==> (#[trigger] fs[k]).0 < pow2(fs[k].1)
}

/// The stream of `t` bits in `b` holds the fields `fs` written in order
/// from bit 0, each most significant bit first.
pub open spec fn holds_fields(b: Seq<u8>, t: int, fs: Seq<(nat, nat)>) -> bool {
    &&& field_offset(fs, fs.len() as int) <= t
    &&& forall|k: int, i: int|
        #![trigger stream_bit(b, t, i), fs[k]]
        0 <= k < fs.len() && field_offset(fs, k) <= i < field_offset(fs, k) + fs[k].1 ==> stream_bit(b, t, i)
            == field_bit(fs[k].0, fs[k].1, i - field_offset(fs, k))
}

proof fn lemma_read_prefix(b: Seq<u8>, t: int, start: int, v: nat, w: nat, n: nat)
    requires
        n <= w,
        v < pow2(w),
        forall|j: int| 0 <= j < w ==> stream_bit(b, t, start + j) == #[trigger] field_bit(v, w, j),
    ensures
        bits_value(b, t, start, n) == v / pow2((w - n) as nat),
    decreases n,
{
    lemma_pow2_pos(w);
    if n == 0 {
        lemma_basic_div(v as int, pow2(w) as int);
    } else {
        lemma_read_prefix(b, t, start, v, w, (n - 1) as nat);
        let e = (w - n) as nat;
        lemma_pow2_pos(e);
        lemma_pow2_unfold(e + 1);
        let q = v / pow2(e);
        lemma_div_denominator(v as int, pow2(e) as int, 2);
        assert(pow2((w - (n - 1)) as nat) == pow2(e) * 2);
        assert(v / pow2((w - (n - 1)) as nat) == q / 2);
        lemma_fundamental_div_mod(q as int, 2);
        assert(field_bit(v, w, n - 1) == (q % 2 == 1));
        assert(stream_bit(b, t, start + n - 1) == field_bit(v, w, n - 1));
    }
}

/// A field written at `start` reads back as its value.
pub proof fn lemma_read_written_field(b: Seq<u8>, t: int, start: int, v: nat, w: nat)
    requires
        v < pow2(w),
        forall|j: int| 0 <= j < w ==> stream_bit(b, t, start + j) == #[trigger] field_bit(v, w, j),
    ensures
        bits_value(b, t, start, w) == v,
{
    lemma_read_prefix(b, t, start, v, w, w);
    assert(pow2(0) == 1) by {
        vstd::arithmetic::power2::lemma2_to64();
    }
    assert((w - w) as nat == 0);
    assert(v / 1 == v);
}

/// Each field of a stream holding `fs` reads back, at its offset, as its
/// value.
pub proof fn lemma_read_layout_field(b: Seq<u8>, t: int, fs: Seq<(nat, nat)>, k: int)
    requires
        holds_fields(b, t, fs),
        fields_fit(fs),
        0 <= k < fs.len(),
    ensures
        bits_value(b, t, field_offset(fs, k) as int, fs[k].1) == fs[k].0,
{
    let start = field_offset(fs, k) as int;
    let (v, w) = fs[k];
    assert(fs[k].0 < pow2(fs[k].1));
    assert forall|j: int| 0 <= j < w implies stream_bit(b, t, start + j) == #[trigger] field_bit(v, w, j) by {
        let i = start + j;
        assert(field_offset(fs, k) <= i < field_offset(fs, k) + fs[k].1);
        assert(stream_bit(b, t, i) == field_bit(fs[k].0, fs[k].1, i - field_offset(fs, k)));
    }
    lemma_read_written_field(b, t, start, v, w);
}

/// The Class A position report (types 1, 2, 3) in M.1371 order: message
/// type 6 bits, repeat 2, MMSI 30, navigation status 4, rate of turn 8,
/// speed 10, accuracy 1, longitude 28, latitude 27, course 12, heading 9,
/// timestamp 6, special maneuver 2, spare 3, RAIM 1, radio status 19.
pub open spec fn class_a_layout(v: Seq<nat>) -> Seq<(nat, nat)> {
    seq![
        (v[0], 6nat),
        (v[1], 2nat),
        (v[2], 30nat),
        (v[3], 4nat),
        (v[4], 8nat),
        (v[5], 10nat),
        (v[6], 1nat),
        (v[7], 28nat),
        (v[8], 27nat),
        (v[9], 12nat),
        (v[10], 9nat),
        (v[11], 6nat),
        (v[12], 2nat),
        (v[13], 3nat),
        (v[14], 1nat),
        (v[15], 19nat),
    ]
}

/// A Class A position report written field by field in the M.1371 order
/// decodes back to each written field: the MMSI, status, rate of turn,
/// speed, accuracy, position, course, heading, timestamp, special maneuver,
/// RAIM flag and radio status are the values written (signed fields read
/// as two's complement, sentinels as absent).
#[verifier::spinoff_prover]
pub proof fn lemma_class_a_reads_back(b: Seq<u8>, t: int, v: Seq<nat>)
    requires
        v.len() == 16,
        holds_fields(b, t, class_a_layout(v)),
        fields_fit(class_a_layout(v)),
    ensures
        position_report_a_of(b, t) == (PositionReportA {
            mmsi: v[2] as u32,
            navigation_status: nav_status_of(v[3] as u8),
            rate_of_turn_raw: if signed_value(v[4], 8) == -128 {
                None
            } else {
                Some(signed_value(v[4], 8) as i8)
            },
            speed_over_ground_raw: opt_u16_of(unless_u(v[5], 1023)),
            position_accuracy: v[6] == 1,
            longitude_raw: opt_i32_of(signed_value(v[7], 28), LON_NOT_AVAILABLE as int),
            latitude_raw: opt_i32_of(signed_value(v[8], 27), LAT_NOT_AVAILABLE as int),
            course_over_ground_raw: opt_u16_of(unless_u(v[9], 3600)),
            true_heading: opt_u16_of(unless_u(v[10], 511)),
            timestamp: v[11] as u8,
            special_maneuver: maneuver_of(v[12] as u8),
            raim: v[14] == 1,
            radio_status: v[15] as u32,
        }),
{
    let fs = class_a_layout(v);
    assert(fs.len() == 16);
    assert(fs[0] == (v[0], 6nat));
    assert(fs[1] == (v[1], 2nat));
    assert(fs[2] == (v[2], 30nat));
    assert(fs[3] == (v[3], 4nat));
    assert(fs[4] == (v[4], 8nat));
    assert(fs[5] == (v[5], 10nat));
    assert(fs[6] == (v[6], 1nat));
    assert(fs[7] == (v[7], 28nat));
    assert(fs[8] == (v[8], 27nat));
    assert(fs[9] == (v[9], 12nat));
    assert(fs[10] == (v[10], 9nat));
    assert(fs[11] == (v[11], 6nat));
    assert(fs[12] == (v[12], 2nat));
    assert(fs[13] == (v[13], 3nat));
    assert(fs[14] == (v[14], 1nat));
    assert(fs[15] == (v[15], 19nat));
    assert(field_offset(fs, 1) == 6);
    assert(field_offset(fs, 2) == 8);
    assert(field_offset(fs, 3) == 38);
    assert(field_offset(fs, 4) == 42);
    assert(field_offset(fs, 5) == 50);
    assert(field_offset(fs, 6) == 60);
    assert(field_offset(fs, 7) == 61);
    assert(field_offset(fs, 8) == 89);
    assert(field_offset(fs, 9) == 116);
    assert(field_offset(fs, 10) == 128);
    assert(field_offset(fs, 11) == 137);
    assert(field_offset(fs, 12) == 143);
    assert(field_offset(fs, 13) == 145);
    assert(field_offset(fs, 14) == 148);
    assert(field_offset(fs, 15) == 149);
    lemma_read_layout_field(b, t, fs, 0);
    lemma_read_layout_field(b, t, fs, 1);
    lemma_read_layout_field(b, t, fs, 2);
    lemma_read_layout_field(b, t, fs, 3);
    lemma_read_layout_field(b, t, fs, 4);
    lemma_read_layout_field(b, t, fs, 5);
    lemma_read_layout_field(b, t, fs, 6);
    lemma_read_layout_field(b, t, fs, 7);
    lemma_read_layout_field(b, t, fs, 8);
    lemma_read_layout_field(b, t, fs, 9);
    lemma_read_layout_field(b, t, fs, 10);
    lemma_read_layout_field(b, t, fs, 11);
    lemma_read_layout_field(b, t, fs, 12);
    lemma_read_layout_field(b, t, fs, 13);
    lemma_read_layout_field(b, t, fs, 14);
    lemma_read_layout_field(b, t, fs, 15);
}

/// The Class B position report (type 18) in M.1371 order: message type 6
/// bits, repeat 2, MMSI 30, reserved 8, speed 10, accuracy 1, longitude 28,
/// latitude 27, course 12, heading 9, timestamp 6, reserved 2, then the
/// one-bit flags CS unit, display, DSC, band, Message 22, assigned mode and
/// RAIM, and the 20-bit radio status (selector and state).
pub open spec fn class_b_layout(v: Seq<nat>) -> Seq<(nat, nat)> {
    seq![
        (v[0], 6nat),
        (v[1], 2nat),
        (v[2], 30nat),
        (v[3], 8nat),
        (v[4], 10nat),
        (v[5], 1nat),
        (v[6], 28nat),
        (v[7], 27nat),
        (v[8], 12nat),
        (v[9], 9nat),
        (v[10], 6nat),
        (v[11], 2nat),
        (v[12], 1nat),
        (v[13], 1nat),
        (v[14], 1nat),
        (v[15], 1nat),
        (v[16], 1nat),
        (v[17], 1nat),
        (v[18], 1nat),
        (v[19], 20nat),
    ]
}

/// A Class B position report written field by field in the M.1371 order
/// decodes back to each written field; in particular each of the seven
/// flags is the bit written for it (the DSC flag the third, the Message 22
/// flag the fifth).
#[verifier::spinoff_prover]
pub proof fn lemma_class_b_reads_back(b: Seq<u8>, t: int, v: Seq<nat>)
    requires
        v.len() == 20,
        holds_fields(b, t, class_b_layout(v)),
        fields_fit(class_b_layout(v)),
    ensures
        position_report_b_of(b, t) == (PositionReportB {
            mmsi: v[2] as u32,
            speed_over_ground_raw: opt_u16_of(unless_u(v[4], 1023)),
            position_accuracy: v[5] == 1,
            longitude_raw: opt_i32_of(signed_value(v[6], 28), LON_NOT_AVAILABLE as int),
            latitude_raw: opt_i32_of(signed_value(v[7], 27), LAT_NOT_AVAILABLE as int),
            course_over_ground_raw: opt_u16_of(unless_u(v[8], 3600)),
            true_heading: opt_u16_of(unless_u(v[9], 511)),
            timestamp: v[10] as u8,
            class_b_cs_flag: v[12] == 1,
            class_b_display_flag: v[13] == 1,
            class_b_dsc_flag: v[14] == 1,
            class_b_band_flag: v[15] == 1,
            class_b_message22_flag: v[16] == 1,
            assigned_flag: v[17] == 1,
            raim: v[18] == 1,
            radio_status: v[19] as u32,
        }),
{
    let fs = class_b_layout(v);
    assert(fs.len() == 20);
    assert(fs[0] == (v[0], 6nat));
    assert(fs[1] == (v[1], 2nat));
    assert(fs[2] == (v[2], 30nat));
    assert(fs[3] == (v[3], 8nat));
    assert(fs[4] == (v[4], 10nat));
    assert(fs[5] == (v[5], 1nat));
    assert(fs[6] == (v[6], 28nat));
    assert(fs[7] == (v[7], 27nat));
    assert(fs[8] == (v[8], 12nat));
    assert(fs[9] == (v[9], 9nat));
    assert(fs[10] == (v[10], 6nat));
    assert(fs[11] == (v[11], 2nat));
    assert(fs[12] == (v[12], 1nat));
    assert(fs[13] == (v[13], 1nat));
    assert(fs[14] == (v[14], 1nat));
    assert(fs[15] == (v[15], 1nat));
    assert(fs[16] == (v[16], 1nat));
    assert(fs[17] == (v[17], 1nat));
    assert(fs[18] == (v[18], 1nat));
    assert(fs[19] == (v[19], 20nat));
    assert(field_offset(fs, 1) == 6);
    assert(field_offset(fs, 2) == 8);
    assert(field_offset(fs, 3) == 38);
    assert(field_offset(fs, 4) == 46);
    assert(field_offset(fs, 5) == 56);
    assert(field_offset(fs, 6) == 57);
    assert(field_offset(fs, 7) == 85);
    assert(field_offset(fs, 8) == 112);
    assert(field_offset(fs, 9) == 124);
    assert(field_offset(fs, 10) == 133);
    assert(field_offset(fs, 11) == 139);
    assert(field_offset(fs, 12) == 141);
    assert(field_offset(fs, 13) == 142);
    assert(field_offset(fs, 14) == 143);
    assert(field_offset(fs, 15) == 144);
    assert(field_offset(fs, 16) == 145);
    assert(field_offset(fs, 17) == 146);
    assert(field_offset(fs, 18) == 147);
    assert(field_offset(fs, 19) == 148);
    lemma_read_layout_field(b, t, fs, 0);
    lemma_read_layout_field(b, t, fs, 1);
    lemma_read_layout_field(b, t, fs, 2);
    lemma_read_layout_field(b, t, fs, 3);
    lemma_read_layout_field(b, t, fs, 4);
    lemma_read_layout_field(b, t, fs, 5);
    lemma_read_layout_field(b, t, fs, 6);
    lemma_read_layout_field(b, t, fs, 7);
    lemma_read_layout_field(b, t, fs, 8);
    lemma_read_layout_field(b, t, fs, 9);
    lemma_read_layout_field(b, t, fs, 10);
    lemma_read_layout_field(b, t, fs, 11);
    lemma_read_layout_field(b, t, fs, 12);
    lemma_read_layout_field(b, t, fs, 13);
    lemma_read_layout_field(b, t, fs, 14);
    lemma_read_layout_field(b, t, fs, 15);
    lemma_read_layout_field(b, t, fs, 16);
    lemma_read_layout_field(b, t, fs, 17);
    lemma_read_layout_field(b, t, fs, 18);
    lemma_read_layout_field(b, t, fs, 19);
}

/// A string of 6-bit characters written as one field per character.
pub open spec fn chars6(cs: Seq<nat>) -> Seq<(nat, nat)> {
    Seq::new(cs.len(), |j: int| (cs[j], 6nat))
}

/// The text that 6-bit characters `cs` spell through ITU-R M.1371 Table 47,
/// trailing padding trimmed (absent when nothing is left).
pub open spec fn table47_text(cs: Seq<nat>) -> Option<Seq<char>> {
    ais_text(codes_to_chars(Seq::new(cs.len(), |j: int| ais_char_code(cs[j]))))
}

/// The dimensions written as bow, stern, port and starboard (0 = not available).
pub open spec fn written_dimensions(bow: nat, stern: nat, port: nat, starboard: nat) -> Dimensions {
    Dimensions {
        to_bow_m: if bow == 0 { None } else { Some(bow as u16) },
        to_stern_m: if stern == 0 { None } else { Some(stern as u16) },
        to_port_m: if port == 0 { None } else { Some(port as u8) },
        to_starboard_m: if starboard == 0 { None } else { Some(starboard as u8) },
    }
}

proof fn lemma_offset_run(fs: Seq<(nat, nat)>, k: int, j: int)
    requires
        0 <= k,
        0 <= j,
        k + j <= fs.len(),
        forall|i: int| k <= i < k + j ==> (#[trigger] fs[i]).1 == 6,
    ensures
        field_offset(fs, k + j) == field_offset(fs, k) + 6 * j,
    decreases j,
{
    if j > 0 {
        lemma_offset_run(fs, k, j - 1);
        assert(fs[k + j - 1].1 == 6);
    }
}

/// A string written as one 6-bit field per character, starting at field
/// `k`, reads back as the text those characters spell.
pub proof fn lemma_read_written_text(b: Seq<u8>, t: int, fs: Seq<(nat, nat)>, k: int, cs: Seq<nat>)
    requires
        holds_fields(b, t, fs),
        fields_fit(fs),
        0 <= k,
        k + cs.len() <= fs.len(),
        fs.subrange(k, k + cs.len()) == chars6(cs),
    ensures
        text_field(b, t, field_offset(fs, k) as int, cs.len()) == table47_text(cs),
{
    let at = field_offset(fs, k) as int;
    assert forall|i: int| k <= i < k + cs.len() implies (#[trigger] fs[i]).1 == 6 by {
        assert(fs.subrange(k, k + cs.len())[i - k] == fs[i]);
    }
    assert forall|j: int| 0 <= j < cs.len() implies bits_value(b, t, at + 6 * j, 6) == #[trigger] cs[j] by {
        lemma_offset_run(fs, k, j);
        lemma_read_layout_field(b, t, fs, k + j);
        assert(fs.subrange(k, k + cs.len())[j] == fs[k + j]);
        assert(chars6(cs)[j] == (cs[j], 6nat));
    }
    assert(ais_codes(b, t, at, cs.len()) =~= Seq::new(cs.len(), |j: int| ais_char_code(cs[j])));
}

/// Type 24 part A in M.1371 order: message type 6 bits, repeat 2, MMSI 30,
/// part number 2, then the vessel name as 20 six-bit characters.
pub open spec fn part_a_layout(v: Seq<nat>, name: Seq<nat>) -> Seq<(nat, nat)> {
    seq![(v[0], 6nat), (v[1], 2nat), (v[2], 30nat), (v[3], 2nat)] + chars6(name)
}

/// A Type 24 part A written field by field decodes to the written MMSI and
/// to the name its characters spell.
pub proof fn lemma_part_a_reads_back(b: Seq<u8>, t: int, v: Seq<nat>, name: Seq<nat>, m: StaticDataB24A)
    requires
        v.len() == 4,
        name.len() == 20,
        holds_fields(b, t, part_a_layout(v, name)),
        fields_fit(part_a_layout(v, name)),
        part_a_matches(m, b, t),
    ensures
        m.mmsi == v[2],
        opt_string_view(m.vessel_name) == table47_text(name),
{
    let fs = part_a_layout(v, name);
    reveal_with_fuel(field_offset, 5);
    lemma_read_layout_field(b, t, fs, 2);
    assert(field_offset(fs, 2) == 8 && field_offset(fs, 4) == 40);
    assert(fs.subrange(4, 24) =~= chars6(name));
    lemma_read_written_text(b, t, fs, 4, name);
}

/// Type 24 part B in M.1371 order: message type 6 bits, repeat 2, MMSI 30,
/// part number 2, ship type 8, vendor id as 7 six-bit characters, call
/// sign as 7 characters, then the dimensions to bow 9, stern 9, port 6 and
/// starboard 6, and 6 spare bits.
pub open spec fn part_b_layout(v: Seq<nat>, vendor: Seq<nat>, call: Seq<nat>) -> Seq<(nat, nat)> {
    seq![(v[0], 6nat), (v[1], 2nat), (v[2], 30nat), (v[3], 2nat), (v[4], 8nat)] + chars6(vendor) + chars6(call)
        + seq![(v[5], 9nat), (v[6], 9nat), (v[7], 6nat), (v[8], 6nat), (v[9], 6nat)]
}

/// A Type 24 part B written field by field decodes to the written MMSI,
/// ship type, vendor id, call sign and dimensions.
#[verifier::spinoff_prover]
#[verifier::rlimit(100)]
pub proof fn lemma_part_b_reads_back(
    b: Seq<u8>,
    t: int,
    v: Seq<nat>,
    vendor: Seq<nat>,
    call: Seq<nat>,
    m: StaticDataB24B,
)
    requires
        v.len() == 10,
        vendor.len() == 7,
        call.len() == 7,
        holds_fields(b, t, part_b_layout(v, vendor, call)),
        fields_fit(part_b_layout(v, vendor, call)),
        part_b_matches(m, b, t),
    ensures
        m.mmsi == v[2],
        m.ship_type == v[4],
        opt_string_view(m.vendor_id) == table47_text(vendor),
        opt_string_view(m.call_sign) == table47_text(call),
        m.dimensions == written_dimensions(v[5], v[6], v[7], v[8]),
{
    let fs = part_b_layout(v, vendor, call);
    let head = seq![(v[0], 6nat), (v[1], 2nat), (v[2], 30nat), (v[3], 2nat), (v[4], 8nat)];
    let tail = seq![(v[5], 9nat), (v[6], 9nat), (v[7], 6nat), (v[8], 6nat), (v[9], 6nat)];
    assert(fs.len() == 24);
    assert(fs[0] == head[0] && fs[1] == head[1] && fs[2] == head[2] && fs[3] == head[3] && fs[4] == head[4]);
    assert(fs[19] == tail[0] && fs[20] == tail[1] && fs[21] == tail[2] && fs[22] == tail[3]);
    assert(field_offset(fs, 1) == 6);
    assert(field_offset(fs, 2) == 8);
    assert(field_offset(fs, 3) == 38);
    assert(field_offset(fs, 4) == 40);
    assert(field_offset(fs, 5) == 48);
    lemma_read_layout_field(b, t, fs, 2);
    lemma_read_layout_field(b, t, fs, 4);
    assert(fs.subrange(5, 12) =~= chars6(vendor));
    lemma_read_written_text(b, t, fs, 5, vendor);
    assert(fs.subrange(12, 19) =~= chars6(call));
    assert forall|i: int| 5 <= i < 12 implies (#[trigger] fs[i]).1 == 6 by {
        assert(fs.subrange(5, 12)[i - 5] == fs[i]);
    }
    lemma_offset_run(fs, 5, 7);
    lemma_read_written_text(b, t, fs, 12, call);
    assert forall|i: int| 12 <= i < 19 implies (#[trigger] fs[i]).1 == 6 by {
        assert(fs.subrange(12, 19)[i - 12] == fs[i]);
    }
    lemma_offset_run(fs, 12, 7);
    assert(field_offset(fs, 19) == 132);
    assert(field_offset(fs, 20) == 141);
    assert(field_offset(fs, 21) == 150);
    assert(field_offset(fs, 22) == 156);
    lemma_read_layout_field(b, t, fs, 19);
    lemma_read_layout_field(b, t, fs, 20);
    lemma_read_layout_field(b, t, fs, 21);
    lemma_read_layout_field(b, t, fs, 22);
}

/// The extended Class B position report (type 19) in M.1371 order:
/// message type 6 bits, repeat 2, MMSI 30, reserved 8, speed 10, accuracy
/// 1, longitude 28, latitude 27, course 12, heading 9, timestamp 6,
/// reserved 4, the name as 20 six-bit characters, ship type 8, dimensions
/// to bow 9, stern 9, port 6 and starboard 6, EPFD 4, RAIM 1, DTE 1,
/// assigned mode 1, spare 4.
pub open spec fn type19_layout(v: Seq<nat>, name: Seq<nat>) -> Seq<(nat, nat)> {
    seq![
        (v[0], 6nat),
        (v[1], 2nat),
        (v[2], 30nat),
        (v[3], 8nat),
        (v[4], 10nat),
        (v[5], 1nat),
        (v[6], 28nat),
        (v[7], 27nat),
        (v[8], 12nat),
        (v[9], 9nat),
        (v[10], 6nat),
        (v[11], 4nat),
    ] + chars6(name) + seq![
        (v[12], 8nat),
        (v[13], 9nat),
        (v[14], 9nat),
        (v[15], 6nat),
        (v[16], 6nat),
        (v[17], 4nat),
        (v[18], 1nat),
        (v[19], 1nat),
        (v[20], 1nat),
        (v[21], 4nat),
    ]
}

/// A type 19 report written field by field decodes to each written field:
/// MMSI, speed, accuracy, position, course, heading, timestamp, name, ship
/// type, dimensions, EPFD and the RAIM, DTE and assigned flags.
#[verifier::spinoff_prover]
#[verifier::rlimit(100)]
pub proof fn lemma_type19_reads_back(b: Seq<u8>, t: int, v: Seq<nat>, name: Seq<nat>, m: ExtendedPositionReportB)
    requires
        v.len() == 22,
        name.len() == 20,
        holds_fields(b, t, type19_layout(v, name)),
        fields_fit(type19_layout(v, name)),
        extended_position_report_b_matches(m, b, t),
    ensures
        m.mmsi == v[2],
        m.speed_over_ground_raw == opt_u16_of(unless_u(v[4], 1023)),
        m.position_accuracy == (v[5] == 1),
        m.longitude_raw == opt_i32_of(signed_value(v[6], 28), LON_NOT_AVAILABLE as int),
        m.latitude_raw == opt_i32_of(signed_value(v[7], 27), LAT_NOT_AVAILABLE as int),
        m.course_over_ground_raw == opt_u16_of(unless_u(v[8], 3600)),
        m.true_heading == opt_u16_of(unless_u(v[9], 511)),
        m.timestamp == v[10] as u8,
        opt_string_view(m.vessel_name) == table47_text(name),
        m.ship_type == v[12],
        m.dimensions == written_dimensions(v[13], v[14], v[15], v[16]),
        m.epfd == epfd_of(v[17] as u8),
        m.raim == (v[18] == 1),
        m.dte == (v[19] == 1),
        m.assigned_flag == (v[20] == 1),
{
    let fs = type19_layout(v, name);
    assert(fs.len() == 42);
    assert(fs[0] == (v[0], 6nat));
    assert(fs[1] == (v[1], 2nat));
    assert(fs[2] == (v[2], 30nat));
    assert(fs[3] == (v[3], 8nat));
    assert(fs[4] == (v[4], 10nat));
    assert(fs[5] == (v[5], 1nat));
    assert(fs[6] == (v[6], 28nat));
    assert(fs[7] == (v[7], 27nat));
    assert(fs[8] == (v[8], 12nat));
    assert(fs[9] == (v[9], 9nat));
    assert(fs[10] == (v[10], 6nat));
    assert(fs[11] == (v[11], 4nat));
    assert(fs[32] == (v[12], 8nat));
    assert(fs[33] == (v[13], 9nat));
    assert(fs[34] == (v[14], 9nat));
    assert(fs[35] == (v[15], 6nat));
    assert(fs[36] == (v[16], 6nat));
    assert(fs[37] == (v[17], 4nat));
    assert(fs[38] == (v[18], 1nat));
    assert(fs[39] == (v[19], 1nat));
    assert(fs[40] == (v[20], 1nat));
    assert(fs[41] == (v[21], 4nat));
    assert(field_offset(fs, 1) == 6);
    assert(field_offset(fs, 2) == 8);
    assert(field_offset(fs, 3) == 38);
    assert(field_offset(fs, 4) == 46);
    assert(field_offset(fs, 5) == 56);
    assert(field_offset(fs, 6) == 57);
    assert(field_offset(fs, 7) == 85);
    assert(field_offset(fs, 8) == 112);
    assert(field_offset(fs, 9) == 124);
    assert(field_offset(fs, 10) == 133);
    assert(field_offset(fs, 11) == 139);
    assert(field_offset(fs, 12) == 143);
    lemma_read_layout_field(b, t, fs, 2);
    lemma_read_layout_field(b, t, fs, 4);
    lemma_read_layout_field(b, t, fs, 5);
    lemma_read_layout_field(b, t, fs, 6);
    lemma_read_layout_field(b, t, fs, 7);
    lemma_read_layout_field(b, t, fs, 8);
    lemma_read_layout_field(b, t, fs, 9);
    lemma_read_layout_field(b, t, fs, 10);
    assert(fs.subrange(12, 32) =~= chars6(name));
    lemma_read_written_text(b, t, fs, 12, name);
    assert forall|i: int| 12 <= i < 32 implies (#[trigger] fs[i]).1 == 6 by {
        assert(fs.subrange(12, 32)[i - 12] == fs[i]);
    }
    lemma_offset_run(fs, 12, 20);
    assert(field_offset(fs, 32) == 263);
    assert(field_offset(fs, 33) == 271);
    assert(field_offset(fs, 34) == 280);
    assert(field_offset(fs, 35) == 289);
    assert(field_offset(fs, 36) == 295);
    assert(field_offset(fs, 37) == 301);
    assert(field_offset(fs, 38) == 305);
    assert(field_offset(fs, 39) == 306);
    assert(field_offset(fs, 40) == 307);
    assert(field_offset(fs, 41) == 308);
    lemma_read_layout_field(b, t, fs, 32);
    lemma_read_layout_field(b, t, fs, 33);
    lemma_read_layout_field(b, t, fs, 34);
    lemma_read_layout_field(b, t, fs, 35);
    lemma_read_layout_field(b, t, fs, 36);
    lemma_read_layout_field(b, t, fs, 37);
    lemma_read_layout_field(b, t, fs, 38);
    lemma_read_layout_field(b, t, fs, 39);
    lemma_read_layout_field(b, t, fs, 40);
}

/// Static and voyage data (type 5) in M.1371 order: message type 6 bits,
/// repeat 2, MMSI 30, AIS version 2, IMO number 30, call sign as 7 six-bit
/// characters, name as 20 characters, ship type 8, dimensions to bow 9,
/// stern 9, port 6 and starboard 6, EPFD 4, ETA month 4, day 5, hour 5 and
/// minute 6, draught 8, destination as 20 characters, DTE 1, spare 1.
pub open spec fn type5_layout(v: Seq<nat>, call: Seq<nat>, name: Seq<nat>, dest: Seq<nat>) -> Seq<(nat, nat)> {
    seq![(v[0], 6nat), (v[1], 2nat), (v[2], 30nat), (v[3], 2nat), (v[4], 30nat)] + chars6(call) + chars6(name)
        + seq![
        (v[5], 8nat),
        (v[6], 9nat),
        (v[7], 9nat),
        (v[8], 6nat),
        (v[9], 6nat),
        (v[10], 4nat),
        (v[11], 4nat),
        (v[12], 5nat),
        (v[13], 5nat),
        (v[14], 6nat),
        (v[15], 8nat),
    ] + chars6(dest) + seq![(v[16], 1nat), (v[17], 1nat)]
}

/// A type 5 message written field by field decodes to each written field:
/// MMSI, AIS version, IMO number (0 = absent), call sign, name, ship type,
/// dimensions, EPFD, ETA (month 0, day 0, hour 24 and minute 60 mean
/// absent), draught (0 = absent), destination and the DTE flag.
#[verifier::spinoff_prover]
#[verifier::rlimit(100)]
pub proof fn lemma_type5_reads_back(
    b: Seq<u8>,
    t: int,
    v: Seq<nat>,
    call: Seq<nat>,
    name: Seq<nat>,
    dest: Seq<nat>,
    m: StaticAndVoyageA,
)
    requires
        v.len() == 18,
        call.len() == 7,
        name.len() == 20,
        dest.len() == 20,
        holds_fields(b, t, type5_layout(v, call, name, dest)),
        fields_fit(type5_layout(v, call, name, dest)),
        static_and_voyage_a_matches(m, b, t),
    ensures
        m.mmsi == v[2],
        m.ais_version == ais_version_of(v[3] as u8),
        m.imo_number == if v[4] == 0 { None } else { Some(v[4] as u32) },
        opt_string_view(m.call_sign) == table47_text(call),
        opt_string_view(m.vessel_name) == table47_text(name),
        m.ship_type == v[5],
        m.dimensions == written_dimensions(v[6], v[7], v[8], v[9]),
        m.epfd == epfd_of(v[10] as u8),
        m.eta == (Eta {
            month: unless_u8(v[11], 0),
            day: unless_u8(v[12], 0),
            hour: unless_u8(v[13], 24),
            minute: unless_u8(v[14], 60),
        }),
        m.draught_raw == unless_u8(v[15], 0),
        opt_string_view(m.destination) == table47_text(dest),
        m.dte == (v[16] == 1),
{
    let fs = type5_layout(v, call, name, dest);
    assert(fs.len() == 65);
    assert(fs[0] == (v[0], 6nat));
    assert(fs[1] == (v[1], 2nat));
    assert(fs[2] == (v[2], 30nat));
    assert(fs[3] == (v[3], 2nat));
    assert(fs[4] == (v[4], 30nat));
    assert(fs[32] == (v[5], 8nat));
    assert(fs[33] == (v[6], 9nat));
    assert(fs[34] == (v[7], 9nat));
    assert(fs[35] == (v[8], 6nat));
    assert(fs[36] == (v[9], 6nat));
    assert(fs[37] == (v[10], 4nat));
    assert(fs[38] == (v[11], 4nat));
    assert(fs[39] == (v[12], 5nat));
    assert(fs[40] == (v[13], 5nat));
    assert(fs[41] == (v[14], 6nat));
    assert(fs[42] == (v[15], 8nat));
    assert(fs[63] == (v[16], 1nat));
    assert(field_offset(fs, 1) == 6);
    assert(field_offset(fs, 2) == 8);
    assert(field_offset(fs, 3) == 38);
    assert(field_offset(fs, 4) == 40);
    assert(field_offset(fs, 5) == 70);
    lemma_read_layout_field(b, t, fs, 2);
    lemma_read_layout_field(b, t, fs, 3);
    lemma_read_layout_field(b, t, fs, 4);
    assert(fs.subrange(5, 12) =~= chars6(call));
    lemma_read_written_text(b, t, fs, 5, call);
    assert forall|i: int| 5 <= i < 12 implies (#[trigger] fs[i]).1 == 6 by {
        assert(fs.subrange(5, 12)[i - 5] == fs[i]);
    }
    lemma_offset_run(fs, 5, 7);
    assert(fs.subrange(12, 32) =~= chars6(name));
    lemma_read_written_text(b, t, fs, 12, name);
    assert forall|i: int| 12 <= i < 32 implies (#[trigger] fs[i]).1 == 6 by {
        assert(fs.subrange(12, 32)[i - 12] == fs[i]);
    }
    lemma_offset_run(fs, 12, 20);
    assert(field_offset(fs, 32) == 232);
    assert(field_offset(fs, 33) == 240);
    assert(field_offset(fs, 34) == 249);
    assert(field_offset(fs, 35) == 258);
    assert(field_offset(fs, 36) == 264);
    assert(field_offset(fs, 37) == 270);
    assert(field_offset(fs, 38) == 274);
    assert(field_offset(fs, 39) == 278);
    assert(field_offset(fs, 40) == 283);
    assert(field_offset(fs, 41) == 288);
    assert(field_offset(fs, 42) == 294);
    assert(field_offset(fs, 43) == 302);
    lemma_read_layout_field(b, t, fs, 32);
    lemma_read_layout_field(b, t, fs, 33);
    lemma_read_layout_field(b, t, fs, 34);
    lemma_read_layout_field(b, t, fs, 35);
    lemma_read_layout_field(b, t, fs, 36);
    lemma_read_layout_field(b, t, fs, 37);
    lemma_read_layout_field(b, t, fs, 38);
    lemma_read_layout_field(b, t, fs, 39);
    lemma_read_layout_field(b, t, fs, 40);
    lemma_read_layout_field(b, t, fs, 41);
    lemma_read_layout_field(b, t, fs, 42);
    assert(fs.subrange(43, 63) =~= chars6(dest));
    lemma_read_written_text(b, t, fs, 43, dest);
    assert forall|i: int| 43 <= i < 63 implies (#[trigger] fs[i]).1 == 6 by {
        assert(fs.subrange(43, 63)[i - 43] == fs[i]);
    }
    lemma_offset_run(fs, 43, 20);
    assert(field_offset(fs, 63) == 422);
    lemma_read_layout_field(b, t, fs, 63);
}

} // verus!
