//! Class A and Class B position reports (types 1-3, 18, 19).

use marlin::ais::armor::decode as armor_decode;
use marlin::ais::error::AisError;
use marlin::ais::extended_position_report_b::decode_extended_position_report_b;
use marlin::ais::position_report_a::{
    decode_position_report_a, ManeuverIndicator, NavStatus, LAT_NOT_AVAILABLE, LON_NOT_AVAILABLE,
};
use marlin::ais::position_report_b::decode_position_report_b;
use marlin::ais::shared_types::EpfdType;

const ROT_NOT_AVAILABLE: i8 = -128;
const SOG_NOT_AVAILABLE: u16 = 1023;
const COG_NOT_AVAILABLE: u16 = 3600;
const HEADING_NOT_AVAILABLE: u16 = 511;
const MINUTES_FRAC_PER_DEGREE: f64 = 600_000.0;

/// Bit-packing writer, MSB first: the inverse of the bit reader.
struct BitWriter {
    bits: Vec<u8>,
    total_bits: usize,
}

impl BitWriter {
    fn new() -> Self {
        Self { bits: Vec::new(), total_bits: 0 }
    }

    fn u(&mut self, n: usize, value: u64) {
        for i in 0..n {
            let bit = ((value >> (n - 1 - i)) & 1) as u8;
            let byte_idx = self.total_bits / 8;
            let bit_in_byte = 7 - (self.total_bits % 8);
            if byte_idx >= self.bits.len() {
                self.bits.push(0);
            }
            self.bits[byte_idx] |= bit << bit_in_byte;
            self.total_bits += 1;
        }
    }

    fn i(&mut self, n: usize, value: i64) {
        let mask: u64 = if n >= 64 { u64::MAX } else { (1u64 << n) - 1 };
        self.u(n, (value as u64) & mask);
    }

    fn b(&mut self, v: bool) {
        self.u(1, u64::from(v));
    }

    fn finish(self) -> (Vec<u8>, usize) {
        (self.bits, self.total_bits)
    }
}

fn write_ais_str(w: &mut BitWriter, s: &[u8], chars: usize) {
    for i in 0..chars {
        let c = s.get(i).copied().unwrap_or(b'@');
        let v = if c >= 64 { c - 64 } else { c };
        w.u(6, u64::from(v));
    }
}

/// Degrees from a raw 1/10 000-minute coordinate.
fn degrees(raw: Option<i32>) -> Option<f64> {
    raw.map(|r| f64::from(r) / MINUTES_FRAC_PER_DEGREE)
}

/// Tenths from a raw tenth-scaled field.
fn tenths(raw: Option<u16>) -> Option<f32> {
    raw.map(|r| f32::from(r) / 10.0)
}

/// Rate of turn in degrees per minute from its raw ROT_AIS value.
fn rate_of_turn(raw: Option<i8>) -> Option<f32> {
    raw.map(|r| {
        let x = f32::from(r) / 4.733;
        if r < 0 { -(x * x) } else { x * x }
    })
}

#[allow(clippy::too_many_arguments)]
fn build_pra(
    msg_type: u8,
    repeat: u8,
    mmsi: u32,
    nav: u8,
    rot: i8,
    sog: u16,
    pos_acc: bool,
    lon_raw: i32,
    lat_raw: i32,
    cog: u16,
    heading: u16,
    timestamp: u8,
    maneuver: u8,
    raim: bool,
    radio: u32,
) -> (Vec<u8>, usize) {
    let mut w = BitWriter::new();
    w.u(6, u64::from(msg_type));
    w.u(2, u64::from(repeat));
    w.u(30, u64::from(mmsi));
    w.u(4, u64::from(nav));
    w.i(8, i64::from(rot));
    w.u(10, u64::from(sog));
    w.b(pos_acc);
    w.i(28, i64::from(lon_raw));
    w.i(27, i64::from(lat_raw));
    w.u(12, u64::from(cog));
    w.u(9, u64::from(heading));
    w.u(6, u64::from(timestamp));
    w.u(2, u64::from(maneuver));
    w.u(3, 0);
    w.b(raim);
    w.u(19, u64::from(radio));
    w.finish()
}

#[test]
fn decodes_classic_annex5_position_report() {
    let (bits, total) = armor_decode(b"13aGmP0P00PD;88MD5MTDww@2<0L", 0).unwrap();
    let pra = decode_position_report_a(&bits, total).unwrap();
    assert_eq!(pra.mmsi, 244_708_736);
}

#[test]
fn position_report_a_all_sentinels_decode_to_none() {
    let (bits, total) = build_pra(
        1,
        0,
        123_456_789,
        15,
        ROT_NOT_AVAILABLE,
        SOG_NOT_AVAILABLE,
        false,
        LON_NOT_AVAILABLE,
        LAT_NOT_AVAILABLE,
        COG_NOT_AVAILABLE,
        HEADING_NOT_AVAILABLE,
        60,
        0,
        false,
        0,
    );
    let pra = decode_position_report_a(&bits, total).unwrap();
    assert_eq!(pra.mmsi, 123_456_789);
    assert_eq!(pra.navigation_status, NavStatus::NotDefined);
    assert_eq!(pra.rate_of_turn_raw, None);
    assert_eq!(pra.speed_over_ground_raw, None);
    assert!(!pra.position_accuracy);
    assert_eq!(pra.longitude_raw, None);
    assert_eq!(pra.latitude_raw, None);
    assert_eq!(pra.course_over_ground_raw, None);
    assert_eq!(pra.true_heading, None);
    assert_eq!(pra.timestamp, 60);
    assert_eq!(pra.special_maneuver, ManeuverIndicator::NotAvailable);
    assert!(!pra.raim);
    assert_eq!(pra.radio_status, 0);
}

#[test]
fn northern_eastern_coordinates_are_positive() {
    let lat_raw: i32 = (48.1173_f64 * MINUTES_FRAC_PER_DEGREE) as i32;
    let lon_raw: i32 = (11.5167_f64 * MINUTES_FRAC_PER_DEGREE) as i32;
    let (bits, total) = build_pra(1, 0, 1, 0, 0, 0, false, lon_raw, lat_raw, 0, 0, 0, 0, false, 0);
    let pra = decode_position_report_a(&bits, total).unwrap();
    assert!((degrees(pra.latitude_raw).unwrap() - 48.1173).abs() < 1e-4);
    assert!((degrees(pra.longitude_raw).unwrap() - 11.5167).abs() < 1e-4);
}

#[test]
fn southern_western_coordinates_are_negative() {
    let lat_raw: i32 = -(48.1173_f64 * MINUTES_FRAC_PER_DEGREE) as i32;
    let lon_raw: i32 = -(11.5167_f64 * MINUTES_FRAC_PER_DEGREE) as i32;
    let (bits, total) = build_pra(1, 0, 1, 0, 0, 0, false, lon_raw, lat_raw, 0, 0, 0, 0, false, 0);
    let pra = decode_position_report_a(&bits, total).unwrap();
    assert!(degrees(pra.latitude_raw).unwrap() < 0.0);
    assert!(degrees(pra.longitude_raw).unwrap() < 0.0);
    assert!((degrees(pra.latitude_raw).unwrap() + 48.1173).abs() < 1e-4);
    assert!((degrees(pra.longitude_raw).unwrap() + 11.5167).abs() < 1e-4);
}

#[test]
fn equator_and_prime_meridian_decode_to_zero() {
    let (bits, total) = build_pra(1, 0, 1, 0, 0, 0, false, 0, 0, 0, 0, 0, 0, false, 0);
    let pra = decode_position_report_a(&bits, total).unwrap();
    assert_eq!(degrees(pra.latitude_raw), Some(0.0));
    assert_eq!(degrees(pra.longitude_raw), Some(0.0));
}

#[test]
fn nav_status_maps_well_defined_codes() {
    for (code, expected) in [
        (0u8, NavStatus::UnderwayUsingEngine),
        (1, NavStatus::AtAnchor),
        (2, NavStatus::NotUnderCommand),
        (3, NavStatus::RestrictedManeuverability),
        (4, NavStatus::ConstrainedByDraft),
        (5, NavStatus::Moored),
        (6, NavStatus::Aground),
        (7, NavStatus::EngagedInFishing),
        (8, NavStatus::UnderwaySailing),
        (14, NavStatus::AisSartActive),
        (15, NavStatus::NotDefined),
    ] {
        assert_eq!(NavStatus::from_u4(code), expected);
    }
}

#[test]
fn nav_status_reserved_codes_preserve_raw_value() {
    for code in 9u8..=13 {
        assert_eq!(NavStatus::from_u4(code), NavStatus::Reserved(code));
    }
}

#[test]
fn maneuver_indicator_covers_every_value() {
    assert_eq!(ManeuverIndicator::from_u2(0), ManeuverIndicator::NotAvailable);
    assert_eq!(ManeuverIndicator::from_u2(1), ManeuverIndicator::NoSpecial);
    assert_eq!(ManeuverIndicator::from_u2(2), ManeuverIndicator::Special);
    assert_eq!(ManeuverIndicator::from_u2(3), ManeuverIndicator::Reserved);
}

#[test]
fn rate_of_turn_sentinel_maps_to_none() {
    let (bits, total) = build_pra(1, 0, 1, 0, ROT_NOT_AVAILABLE, 0, false, 0, 0, 0, 0, 0, 0, false, 0);
    let pra = decode_position_report_a(&bits, total).unwrap();
    assert_eq!(pra.rate_of_turn_raw, None);
}

#[test]
fn rate_of_turn_zero_means_not_turning() {
    let (bits, total) = build_pra(1, 0, 1, 0, 0, 0, false, 0, 0, 0, 0, 0, 0, false, 0);
    let pra = decode_position_report_a(&bits, total).unwrap();
    assert_eq!(pra.rate_of_turn_raw, Some(0));
    assert_eq!(rate_of_turn(pra.rate_of_turn_raw), Some(0.0));
}

#[test]
fn rate_of_turn_preserves_sign() {
    let (bits, total) = build_pra(1, 0, 1, 0, 21, 0, false, 0, 0, 0, 0, 0, 0, false, 0);
    let pos = decode_position_report_a(&bits, total).unwrap();
    let (bits, total) = build_pra(1, 0, 1, 0, -21, 0, false, 0, 0, 0, 0, 0, 0, false, 0);
    let neg = decode_position_report_a(&bits, total).unwrap();
    assert_eq!(pos.rate_of_turn_raw, Some(21));
    assert_eq!(neg.rate_of_turn_raw, Some(-21));
    let p = rate_of_turn(pos.rate_of_turn_raw).unwrap();
    let n = rate_of_turn(neg.rate_of_turn_raw).unwrap();
    assert!(p > 0.0 && n < 0.0);
    assert!((p + n).abs() < 1e-4);
}

#[test]
fn sog_and_cog_decode_with_tenth_scaling() {
    let (bits, total) = build_pra(1, 0, 1, 0, 0, 255, false, 0, 0, 1234, 42, 0, 0, false, 0);
    let pra = decode_position_report_a(&bits, total).unwrap();
    assert!((tenths(pra.speed_over_ground_raw).unwrap() - 25.5).abs() < 1e-4);
    assert!((tenths(pra.course_over_ground_raw).unwrap() - 123.4).abs() < 1e-4);
    assert_eq!(pra.true_heading, Some(42));
}

#[test]
fn position_report_a_too_short_payload_is_rejected() {
    let buf = [0u8; 10];
    match decode_position_report_a(&buf, 80) {
        Err(AisError::PayloadTooShort) => {}
        other => panic!("expected PayloadTooShort, got {other:?}"),
    }
}

#[test]
fn decoder_accepts_type_2_and_type_3_headers() {
    for msg_type in [1u8, 2, 3] {
        let (bits, total) = build_pra(msg_type, 0, 987_654_321, 1, 0, 100, true, 0, 0, 0, 180, 0, 0, false, 0);
        let pra = decode_position_report_a(&bits, total).unwrap();
        assert_eq!(pra.mmsi, 987_654_321);
        assert_eq!(tenths(pra.speed_over_ground_raw), Some(10.0));
        assert_eq!(pra.true_heading, Some(180));
    }
}

#[test]
fn raim_flag_round_trips() {
    for raim_in in [false, true] {
        let (bits, total) = build_pra(1, 0, 1, 0, 0, 0, false, 0, 0, 0, 0, 0, 0, raim_in, 0);
        let pra = decode_position_report_a(&bits, total).unwrap();
        assert_eq!(pra.raim, raim_in);
    }
}

#[allow(clippy::too_many_arguments)]
fn build_prb(
    mmsi: u32,
    sog: u16,
    pos_acc: bool,
    lon_raw: i32,
    lat_raw: i32,
    cog: u16,
    heading: u16,
    timestamp: u8,
    flags: [bool; 7],
    radio: u32,
) -> (Vec<u8>, usize) {
    let mut w = BitWriter::new();
    w.u(6, 18);
    w.u(2, 0);
    w.u(30, u64::from(mmsi));
    w.u(8, 0);
    w.u(10, u64::from(sog));
    w.b(pos_acc);
    w.i(28, i64::from(lon_raw));
    w.i(27, i64::from(lat_raw));
    w.u(12, u64::from(cog));
    w.u(9, u64::from(heading));
    w.u(6, u64::from(timestamp));
    w.u(2, 0);
    for f in flags {
        w.b(f);
    }
    w.u(20, u64::from(radio));
    w.finish()
}

#[test]
fn decodes_happy_path_with_flags() {
    let (bits, total) = build_prb(
        367_036_850,
        150,
        true,
        6_600_000,
        2_880_000,
        900,
        90,
        30,
        [true, true, false, true, false, false, true],
        0xA_BCDE,
    );
    let msg = decode_position_report_b(&bits, total).unwrap();
    assert_eq!(msg.mmsi, 367_036_850);
    assert!((tenths(msg.speed_over_ground_raw).unwrap() - 15.0).abs() < 1e-4);
    assert!(msg.position_accuracy);
    assert!((degrees(msg.longitude_raw).unwrap() - 11.0).abs() < 1e-4);
    assert!((degrees(msg.latitude_raw).unwrap() - 4.8).abs() < 1e-4);
    assert!((tenths(msg.course_over_ground_raw).unwrap() - 90.0).abs() < 1e-4);
    assert_eq!(msg.true_heading, Some(90));
    assert_eq!(msg.timestamp, 30);
    assert!(msg.class_b_cs_flag);
    assert!(msg.class_b_display_flag);
    assert!(!msg.class_b_dsc_flag);
    assert!(msg.class_b_band_flag);
    assert!(!msg.class_b_message22_flag);
    assert!(!msg.assigned_flag);
    assert!(msg.raim);
    assert_eq!(msg.radio_status, 0xA_BCDE);
}

#[test]
fn position_report_b_sentinels_decode_to_none() {
    let (bits, total) = build_prb(
        1,
        SOG_NOT_AVAILABLE,
        false,
        LON_NOT_AVAILABLE,
        LAT_NOT_AVAILABLE,
        COG_NOT_AVAILABLE,
        HEADING_NOT_AVAILABLE,
        60,
        [false; 7],
        0,
    );
    let msg = decode_position_report_b(&bits, total).unwrap();
    assert_eq!(msg.speed_over_ground_raw, None);
    assert_eq!(msg.longitude_raw, None);
    assert_eq!(msg.latitude_raw, None);
    assert_eq!(msg.course_over_ground_raw, None);
    assert_eq!(msg.true_heading, None);
    assert_eq!(msg.timestamp, 60);
}

#[test]
fn position_report_b_too_short_payload_is_rejected() {
    let buf = [0u8; 10];
    match decode_position_report_b(&buf, 80) {
        Err(AisError::PayloadTooShort) => {}
        other => panic!("expected PayloadTooShort, got {other:?}"),
    }
}

#[allow(clippy::too_many_arguments, clippy::fn_params_excessive_bools)]
fn build_t19(
    mmsi: u32,
    sog: u16,
    pos_acc: bool,
    lon_raw: i32,
    lat_raw: i32,
    cog: u16,
    heading: u16,
    timestamp: u8,
    name: &[u8],
    ship_type: u8,
    bow: u16,
    stern: u16,
    port: u8,
    starboard: u8,
    epfd: u8,
    raim: bool,
    dte: bool,
    assigned: bool,
) -> (Vec<u8>, usize) {
    let mut w = BitWriter::new();
    w.u(6, 19);
    w.u(2, 0);
    w.u(30, u64::from(mmsi));
    w.u(8, 0);
    w.u(10, u64::from(sog));
    w.b(pos_acc);
    w.i(28, i64::from(lon_raw));
    w.i(27, i64::from(lat_raw));
    w.u(12, u64::from(cog));
    w.u(9, u64::from(heading));
    w.u(6, u64::from(timestamp));
    w.u(4, 0);
    write_ais_str(&mut w, name, 20);
    w.u(8, u64::from(ship_type));
    w.u(9, u64::from(bow));
    w.u(9, u64::from(stern));
    w.u(6, u64::from(port));
    w.u(6, u64::from(starboard));
    w.u(4, u64::from(epfd));
    w.b(raim);
    w.b(dte);
    w.b(assigned);
    w.u(4, 0);
    w.finish()
}

#[test]
fn extended_position_report_b_decodes_happy_path() {
    let (bits, total) = build_t19(
        369_493_000,
        150,
        true,
        6_600_000,
        2_880_000,
        900,
        90,
        30,
        b"VESSEL NAME",
        37,
        30,
        10,
        5,
        3,
        1,
        true,
        false,
        false,
    );
    let msg = decode_extended_position_report_b(&bits, total).unwrap();
    assert_eq!(msg.mmsi, 369_493_000);
    assert!((tenths(msg.speed_over_ground_raw).unwrap() - 15.0).abs() < 1e-4);
    assert!(msg.position_accuracy);
    assert!((degrees(msg.longitude_raw).unwrap() - 11.0).abs() < 1e-4);
    assert!((degrees(msg.latitude_raw).unwrap() - 4.8).abs() < 1e-4);
    assert!((tenths(msg.course_over_ground_raw).unwrap() - 90.0).abs() < 1e-4);
    assert_eq!(msg.true_heading, Some(90));
    assert_eq!(msg.timestamp, 30);
    assert_eq!(msg.vessel_name.as_deref(), Some("VESSEL NAME"));
    assert_eq!(msg.ship_type, 37);
    assert_eq!(msg.dimensions.to_bow_m, Some(30));
    assert_eq!(msg.dimensions.to_stern_m, Some(10));
    assert_eq!(msg.dimensions.to_port_m, Some(5));
    assert_eq!(msg.dimensions.to_starboard_m, Some(3));
    assert_eq!(msg.epfd, EpfdType::Gps);
    assert!(msg.raim);
    assert!(!msg.dte);
    assert!(!msg.assigned_flag);
}

#[test]
fn extended_position_report_b_sentinels_decode_to_none() {
    let (bits, total) = build_t19(
        1,
        SOG_NOT_AVAILABLE,
        false,
        LON_NOT_AVAILABLE,
        LAT_NOT_AVAILABLE,
        COG_NOT_AVAILABLE,
        HEADING_NOT_AVAILABLE,
        60,
        b"",
        0,
        0,
        0,
        0,
        0,
        0,
        false,
        false,
        false,
    );
    let msg = decode_extended_position_report_b(&bits, total).unwrap();
    assert_eq!(msg.speed_over_ground_raw, None);
    assert_eq!(msg.longitude_raw, None);
    assert_eq!(msg.latitude_raw, None);
    assert_eq!(msg.course_over_ground_raw, None);
    assert_eq!(msg.true_heading, None);
    assert_eq!(msg.timestamp, 60);
    assert_eq!(msg.vessel_name, None);
    assert_eq!(msg.dimensions.to_bow_m, None);
    assert_eq!(msg.dimensions.to_stern_m, None);
    assert_eq!(msg.dimensions.to_port_m, None);
    assert_eq!(msg.dimensions.to_starboard_m, None);
    assert_eq!(msg.epfd, EpfdType::Undefined);
}

#[test]
fn flag_ordering_raim_dte_assigned_is_spec_correct() {
    for (raim, dte, assigned) in [(true, false, false), (false, true, false), (false, false, true)] {
        let (bits, total) =
            build_t19(1, 0, false, 0, 0, 0, 0, 0, b"X", 0, 0, 0, 0, 0, 0, raim, dte, assigned);
        let msg = decode_extended_position_report_b(&bits, total).unwrap();
        assert_eq!(msg.raim, raim);
        assert_eq!(msg.dte, dte);
        assert_eq!(msg.assigned_flag, assigned);
    }
}

#[test]
fn extended_position_report_b_too_short_payload_is_rejected() {
    let buf = [0u8; 10];
    match decode_extended_position_report_b(&buf, 80) {
        Err(AisError::PayloadTooShort) => {}
        other => panic!("expected PayloadTooShort, got {other:?}"),
    }
}

#[test]
fn position_report_b_rejects_one_bit_short_of_its_length() {
    let (bits, _total) = build_prb(1, 0, false, 0, 0, 0, 0, 0, [false; 7], 0);
    assert_eq!(decode_position_report_b(&bits, 167), Err(AisError::PayloadTooShort));
    assert!(decode_position_report_b(&bits, 168).is_ok());
}
