//! Where each decoded value comes from: every value a decoder returns is
//! read from its own field of the sentence, at the position NMEA 0183 gives
//! it. Each law is stated against the fields' text, not the decoder.

use vstd::prelude::*;
use crate::envelope::SentenceView;
use crate::nmea::sentences::gga::gga_spec;
use crate::nmea::sentences::gll::gll_spec;
use crate::nmea::sentences::hdg::hdg_spec;
use crate::nmea::sentences::hdt::hdt_spec;
use crate::nmea::sentences::rmc::rmc_spec;
use crate::nmea::sentences::tll::tll_spec;
use crate::nmea::sentences::ttm::ttm_spec;
use crate::nmea::sentences::vtg::vtg_spec;
use crate::nmea::sentences::prdid::{prdid_spec, PrdidData};
use crate::nmea::sentences::psxn::{psxn_spec, role_value, slot_value, slots_error, PsxnModel};
use crate::nmea::number::{opt_number_text, optional_number_spec};
use crate::nmea::options::PrdidDialect;
use crate::nmea::psxn::{PsxnLayout, PsxnSlot};
use crate::nmea::status::data_status_of;

verus! {

/// The text of field `i`, absent when the field is empty.
pub open spec fn field_text(f: Seq<Seq<u8>>, i: int) -> Option<Seq<u8>> {
    if f[i].len() == 0 {
        None
    } else {
        Some(f[i])
    }
}

/// A coordinate: the text of magnitude field `mi`, negative when letter
/// field `di` starts with `neg` (either case); absent when field `mi` is
/// empty.
pub open spec fn coordinate_text(f: Seq<Seq<u8>>, mi: int, di: int, neg: char) -> Option<(Seq<u8>, bool)> {
    if f[mi].len() == 0 {
        None
    } else {
        Some((f[mi], f[di][0] == neg as u8 || f[di][0] == (neg as u8 + 0x20) as u8))
    }
}

/// GGA (UTC, lat, N/S, lon, E/W, quality, satellites, HDOP, altitude, M,
/// geoid separation, M, DGPS age, DGPS station): a decoded GGA's latitude
/// is field 1 signed by field 2, its longitude field 3 signed by field 4,
/// its HDOP the text of field 7, its altitude field 8, its geoid
/// separation field 10, its DGPS age field 12, and its station the value
/// of field 13. In particular the age never comes from the station field.
pub proof fn lemma_gga_field_positions(s: SentenceView, lat_ok: bool, lon_ok: bool)
    ensures
        gga_spec(s, lat_ok, lon_ok) matches Ok(m) ==> {
            &&& m.talker == s.talker
            &&& m.latitude == coordinate_text(s.fields, 1, 2, 'S')
            &&& m.longitude == coordinate_text(s.fields, 3, 4, 'W')
            &&& m.hdop == field_text(s.fields, 7)
            &&& m.altitude_m == field_text(s.fields, 8)
            &&& m.geoid_separation_m == field_text(s.fields, 10)
            &&& m.dgps_age_s == field_text(s.fields, 12)
            &&& (m.dgps_station_id is None <==> s.fields[13].len() == 0)
            &&& (m.satellites_used is None <==> s.fields[6].len() == 0)
        },
{
}

/// TTM (number, distance, bearing, T/R, speed, course, T/R, CPA, TCPA,
/// units, name, status, reference, UTC, acquisition): a decoded TTM's
/// distance is the text of field 1, its bearing field 2, its speed field
/// 4, its course field 5, its CPA field 7 and its TCPA field 8.
pub proof fn lemma_ttm_field_positions(s: SentenceView)
    ensures
        ttm_spec(s) matches Ok(m) ==> {
            &&& m.talker == s.talker
            &&& m.distance == field_text(s.fields, 1)
            &&& m.bearing_deg == field_text(s.fields, 2)
            &&& m.speed == field_text(s.fields, 4)
            &&& m.course_deg == field_text(s.fields, 5)
            &&& m.cpa == field_text(s.fields, 7)
            &&& m.tcpa == field_text(s.fields, 8)
            &&& (m.target_number is None <==> s.fields[0].len() == 0)
        },
{
}

/// The status letter of field `i`: its first byte, `Other(0)` when empty.
pub open spec fn status_letter(f: Seq<Seq<u8>>, i: int) -> crate::nmea::status::DataStatus {
    if f[i].len() == 0 {
        crate::nmea::status::DataStatus::Other(0)
    } else {
        data_status_of(f[i][0])
    }
}

/// RMC (UTC, status, lat, N/S, lon, E/W, speed, course, date, variation,
/// E/W, mode, nav status): a decoded RMC's status is the letter of field 1,
/// its latitude field 2 signed by field 3, its longitude field 4 signed by
/// field 5, its speed the text of field 6, its course field 7, and its
/// magnetic variation field 9 signed by field 10.
pub proof fn lemma_rmc_field_positions(s: SentenceView, lat_ok: bool, lon_ok: bool)
    ensures
        rmc_spec(s, lat_ok, lon_ok) matches Ok(m) ==> {
            &&& m.talker == s.talker
            &&& m.status == status_letter(s.fields, 1)
            &&& m.latitude == coordinate_text(s.fields, 2, 3, 'S')
            &&& m.longitude == coordinate_text(s.fields, 4, 5, 'W')
            &&& m.speed_knots == field_text(s.fields, 6)
            &&& m.course_true_deg == field_text(s.fields, 7)
            &&& m.magnetic_variation == coordinate_text(s.fields, 9, 10, 'W')
        },
{
}

/// GLL (lat, N/S, lon, E/W, UTC, status, mode): a decoded GLL's latitude
/// is field 0 signed by field 1, its longitude field 2 signed by field 3,
/// and its status the letter of field 5.
pub proof fn lemma_gll_field_positions(s: SentenceView, lat_ok: bool, lon_ok: bool)
    ensures
        gll_spec(s, lat_ok, lon_ok) matches Ok(m) ==> {
            &&& m.talker == s.talker
            &&& m.latitude == coordinate_text(s.fields, 0, 1, 'S')
            &&& m.longitude == coordinate_text(s.fields, 2, 3, 'W')
            &&& m.status == status_letter(s.fields, 5)
        },
{
}

/// VTG (course true, T, course magnetic, M, knots, N, km/h, K, mode): a
/// decoded VTG's true course is the text of field 0, its magnetic course
/// field 2, its speed in knots field 4 and in km/h field 6.
pub proof fn lemma_vtg_field_positions(s: SentenceView)
    ensures
        vtg_spec(s) matches Ok(m) ==> {
            &&& m.talker == s.talker
            &&& m.course_true_deg == field_text(s.fields, 0)
            &&& m.course_magnetic_deg == field_text(s.fields, 2)
            &&& m.speed_knots == field_text(s.fields, 4)
            &&& m.speed_kmh == field_text(s.fields, 6)
        },
{
}

/// HDT (heading, T): a decoded HDT's heading is the text of field 0.
pub proof fn lemma_hdt_field_positions(s: SentenceView)
    ensures
        hdt_spec(s) matches Ok(m) ==> m.talker == s.talker && m.heading_true_deg == field_text(s.fields, 0),
{
}

/// HDG (heading, deviation, E/W, variation, E/W): a decoded HDG's heading
/// is the text of field 0, its deviation field 1 signed by field 2, and its
/// variation field 3 signed by field 4.
pub proof fn lemma_hdg_field_positions(s: SentenceView)
    ensures
        hdg_spec(s) matches Ok(m) ==> {
            &&& m.talker == s.talker
            &&& m.heading_magnetic_deg == field_text(s.fields, 0)
            &&& m.deviation == coordinate_text(s.fields, 1, 2, 'W')
            &&& m.variation == coordinate_text(s.fields, 3, 4, 'W')
        },
{
}

/// TLL (number, lat, N/S, lon, E/W, name, UTC, status, reference): a
/// decoded TLL's latitude is field 1 signed by field 2 and its longitude
/// field 3 signed by field 4; its number is absent exactly when field 0 is
/// empty.
pub proof fn lemma_tll_field_positions(s: SentenceView, lat_ok: bool, lon_ok: bool)
    ensures
        tll_spec(s, lat_ok, lon_ok) matches Ok(m) ==> {
            &&& m.talker == s.talker
            &&& m.latitude == coordinate_text(s.fields, 1, 2, 'S')
            &&& m.longitude == coordinate_text(s.fields, 3, 4, 'W')
            &&& (m.target_number is None <==> s.fields[0].len() == 0)
        },
{
}

/// PRDID: in the pitch-roll-heading dialect a decoded sentence's pitch is
/// the text of field 0, its roll field 1 and its heading field 2; in the
/// roll-pitch-heading dialect its roll is field 0, its pitch field 1 and its
/// heading field 2.
pub proof fn lemma_prdid_field_positions(s: SentenceView, d: PrdidData)
    ensures
        prdid_spec(s, PrdidDialect::PitchRollHeading) == Ok::<_, crate::nmea::error::DecodeError>(d@) ==> (
        d matches PrdidData::PitchRollHeading(x) && opt_number_text(x.pitch_deg) == field_text(s.fields, 0)
            && opt_number_text(x.roll_deg) == field_text(s.fields, 1) && opt_number_text(x.heading_deg)
            == field_text(s.fields, 2)),
        prdid_spec(s, PrdidDialect::RollPitchHeading) == Ok::<_, crate::nmea::error::DecodeError>(d@) ==> (
        d matches PrdidData::RollPitchHeading(x) && opt_number_text(x.roll_deg) == field_text(s.fields, 0)
            && opt_number_text(x.pitch_deg) == field_text(s.fields, 1) && opt_number_text(x.heading_deg)
            == field_text(s.fields, 2)),
{
}

/// The value a PSXN model gives a role.
pub open spec fn role_of(m: PsxnModel, role: PsxnSlot) -> Option<Seq<u8>> {
    match role {
        PsxnSlot::Roll => m.roll,
        PsxnSlot::Pitch => m.pitch,
        PsxnSlot::Heave => m.heave_m,
        PsxnSlot::RollSineEncoded => m.roll_sine,
        PsxnSlot::PitchSineEncoded => m.pitch_sine,
        PsxnSlot::Ignored => None,
    }
}

proof fn lemma_slots_checked(f: Seq<Seq<u8>>, n: int, i: int)
    requires
        0 <= i < n,
        slots_error(f, n) is None,
    ensures
        optional_number_spec(f[i + 2], (i + 2) as usize) is Ok,
    decreases n,
{
    if i < n - 1 {
        lemma_slots_checked(f, n - 1, i);
    }
}

proof fn lemma_role_from_last_slot(slots: Seq<PsxnSlot>, f: Seq<Seq<u8>>, role: PsxnSlot, n: int, i: int)
    requires
        0 <= i < n <= slots.len(),
        slots[i] == role,
        forall|j: int| i < j < n ==> #[trigger] slots[j] != role,
    ensures
        role_value(slots, f, role, n) == slot_value(f, i),
    decreases n,
{
    if n - 1 > i {
        lemma_role_from_last_slot(slots, f, role, n - 1, i);
    }
}

proof fn lemma_role_absent(slots: Seq<PsxnSlot>, f: Seq<Seq<u8>>, role: PsxnSlot, n: int)
    requires
        0 <= n <= slots.len(),
        forall|j: int| 0 <= j < n ==> #[trigger] slots[j] != role,
    ensures
        role_value(slots, f, role, n) is None,
    decreases n,
{
    if n > 0 {
        lemma_role_absent(slots, f, role, n - 1);
    }
}

/// PSXN (id, token, data0..data5): each quantity of a decoded PSXN is the
/// text of the data field the layout assigns it (field `2 + i` for slot
/// `i`), the last such slot when several carry it, and absent when none
/// does.
pub proof fn lemma_psxn_field_positions(s: SentenceView, layout: PsxnLayout, role: PsxnSlot)
    requires
        role != PsxnSlot::Ignored,
    ensures
        psxn_spec(s, layout) matches Ok(m) ==> {
            &&& (forall|i: int|
                0 <= i < 6 && layout.slots@[i] == role && (forall|j: int| i < j < 6 ==> layout.slots@[j] != role)
                    ==> role_of(m, role) == #[trigger] field_text(s.fields, i + 2))
            &&& ((forall|j: int| 0 <= j < 6 ==> layout.slots@[j] != role) ==> role_of(m, role) is None)
            &&& m.raw_radians == layout.raw_radians
        },
{
    if let Ok(m) = psxn_spec(s, layout) {
        let slots = layout.slots@;
        assert forall|i: int|
            0 <= i < 6 && slots[i] == role && (forall|j: int| i < j < 6 ==> slots[j] != role) implies role_of(m, role)
            == #[trigger] field_text(s.fields, i + 2) by {
            lemma_role_from_last_slot(slots, s.fields, role, 6, i);
            lemma_slots_checked(s.fields, 6, i);
        }
        if forall|j: int| 0 <= j < 6 ==> slots[j] != role {
            lemma_role_absent(slots, s.fields, role, 6);
        }
    }
}

} // verus!
