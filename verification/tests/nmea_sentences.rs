//! NMEA 0183 sentence decoders, the dispatcher and the parser. Numeric
//! fields come out of the library as text; these tests read them as
//! floats the way a caller would.

use marlin::envelope::{parse, OneShot, RawSentence, SentenceSource, Streaming};
use marlin::nmea::codes::{AcquisitionType, AngleReference, DistanceUnits, GgaFixQuality, RmcNavStatus, VtgMode};
use marlin::nmea::error::DecodeError;
use marlin::nmea::message::{self, Nmea0183Message};
use marlin::nmea::number::{optional_coordinate, optional_number, optional_signed_ew, Number, SignedNumber};
use marlin::nmea::options::{DecodeOptions, PrdidDialect};
use marlin::nmea::parser::{Nmea0183Error, Nmea0183Parser, Parser};
use marlin::nmea::psxn::{PsxnLayout, PsxnSlot};
use marlin::nmea::sentences::gga::{decode_gga, GgaData};
use marlin::nmea::sentences::gll::{decode_gll, GllData};
use marlin::nmea::sentences::hdg::decode_hdg;
use marlin::nmea::sentences::hdt::decode_hdt;
use marlin::nmea::sentences::prdid::{
    decode_prdid, decode_prdid_pitch_roll_heading, decode_prdid_roll_pitch_heading, PrdidData,
};
use marlin::nmea::sentences::psxn::{decode_psxn, PsxnData};
use marlin::nmea::sentences::rmc::{decode_rmc, RmcData};
use marlin::nmea::sentences::tll::{decode_tll, TllData};
use marlin::nmea::sentences::ttm::decode_ttm;
use marlin::nmea::sentences::vtg::decode_vtg;
use marlin::nmea::status::{DataStatus, TargetStatus};
use marlin::nmea::utc_time::{UtcDate, UtcTime};

fn parse_raw(bytes: &[u8]) -> RawSentence {
    parse(bytes).expect("test fixture should be envelope-valid")
}

fn build(body: &[u8]) -> Vec<u8> {
    let cksum = body.iter().fold(0u8, |acc, &b| acc ^ b);
    let mut out = Vec::with_capacity(body.len().saturating_add(4));
    out.push(b'$');
    out.extend_from_slice(body);
    out.push(b'*');
    for nib in [cksum >> 4, cksum & 0x0F] {
        out.push(if nib < 10 { b'0' + nib } else { b'A' + (nib - 10) });
    }
    out
}

fn text(b: &[u8]) -> &str {
    std::str::from_utf8(b).unwrap()
}

fn num(n: &Option<Number>) -> Option<f32> {
    n.as_ref().map(|n| text(&n.text).parse::<f32>().unwrap())
}

fn signed(n: &Option<SignedNumber>) -> Option<f32> {
    n.as_ref().map(|n| {
        let m = text(&n.magnitude.text).parse::<f32>().unwrap();
        if n.negative { -m } else { m }
    })
}

/// `ddmm.mmmm` as decimal degrees.
fn unsigned_degrees(b: &[u8]) -> Option<f64> {
    let num: f64 = std::str::from_utf8(b).ok()?.parse().ok()?;
    let degrees_int = (num / 100.0).trunc();
    let minutes = num - degrees_int * 100.0;
    Some(degrees_int + minutes / 60.0)
}

fn coord(n: &Option<SignedNumber>) -> Option<f64> {
    n.as_ref().map(|n| {
        let d = unsigned_degrees(&n.magnitude.text).unwrap();
        if n.negative { -d } else { d }
    })
}

fn in_range(b: &[u8], is_longitude: bool) -> bool {
    let max = if is_longitude { 180.0 } else { 90.0 };
    match unsigned_degrees(b) {
        Some(d) => (-max..=max).contains(&d),
        None => true,
    }
}

fn field_in_range(raw: &RawSentence, i: usize, is_longitude: bool) -> bool {
    raw.fields.get(i).map_or(true, |f| in_range(f, is_longitude))
}

fn gga(raw: &RawSentence) -> Result<GgaData, DecodeError> {
    decode_gga(raw, field_in_range(raw, 1, false), field_in_range(raw, 3, true))
}

fn rmc(raw: &RawSentence) -> Result<RmcData, DecodeError> {
    decode_rmc(raw, field_in_range(raw, 2, false), field_in_range(raw, 4, true))
}

fn gll(raw: &RawSentence) -> Result<GllData, DecodeError> {
    decode_gll(raw, field_in_range(raw, 0, false), field_in_range(raw, 2, true))
}

fn tll(raw: &RawSentence) -> Result<TllData, DecodeError> {
    decode_tll(raw, field_in_range(raw, 1, false), field_in_range(raw, 3, true))
}

fn range_flags(raw: &RawSentence) -> (bool, bool) {
    match message::coordinate_fields(raw) {
        Some((lat, lon)) => (field_in_range(raw, lat, false), field_in_range(raw, lon, true)),
        None => (true, true),
    }
}

fn decode_with(raw: &RawSentence, options: &DecodeOptions) -> Result<Nmea0183Message, DecodeError> {
    let (lat_ok, lon_ok) = range_flags(raw);
    message::decode_with(raw, options, lat_ok, lon_ok)
}

fn decode(raw: &RawSentence) -> Result<Nmea0183Message, DecodeError> {
    let (lat_ok, lon_ok) = range_flags(raw);
    message::decode(raw, lat_ok, lon_ok)
}

fn next_message(parser: &mut Parser) -> Option<Result<Nmea0183Message, Nmea0183Error>> {
    let options = *parser.options();
    parser.next_sentence().map(|r| r.and_then(|raw| decode_with(&raw, &options).map_err(Nmea0183Error::Decode)))
}

fn next_message_of<P: SentenceSource>(parser: &mut Nmea0183Parser<P>) -> Option<Result<Nmea0183Message, Nmea0183Error>> {
    let options = *parser.options();
    parser.next_sentence().map(|r| r.and_then(|raw| decode_with(&raw, &options).map_err(Nmea0183Error::Decode)))
}

fn optional_f32(b: &[u8], i: usize) -> Result<Option<f32>, DecodeError> {
    optional_number(b, i).map(|n| num(&n))
}

fn coordinate(v: &[u8], h: &[u8], vi: usize, hi: usize, is_longitude: bool) -> Result<Option<f64>, DecodeError> {
    optional_coordinate(v, h, vi, hi, is_longitude, in_range(v, is_longitude)).map(|c| coord(&c))
}

fn signed_ew(m: &[u8], d: &[u8], mi: usize, di: usize) -> Result<Option<f32>, DecodeError> {
    optional_signed_ew(m, d, mi, di).map(|s| signed(&s))
}

/// Pitch and roll in radians (or raw units), resolving the sine-encoded slots.
fn resolve(d: &PsxnData) -> (Option<f32>, Option<f32>) {
    let pitch = match (num(&d.pitch), num(&d.pitch_sine)) {
        (Some(p), _) => Some(p),
        (None, Some(ps)) => {
            let arg = -ps;
            if (-1.0..=1.0).contains(&arg) { Some(arg.asin()) } else { None }
        }
        (None, None) => None,
    };
    let roll = match (num(&d.roll), num(&d.roll_sine), pitch) {
        (Some(r), _, _) => Some(r),
        (None, Some(rs), Some(p)) => {
            let cp = p.cos();
            if cp.abs() <= 1e-6 {
                None
            } else {
                let ratio = rs / cp;
                if (-1.0..=1.0).contains(&ratio) { Some(ratio.asin()) } else { None }
            }
        }
        _ => None,
    };
    (roll, pitch)
}

fn factor(d: &PsxnData) -> f32 {
    if d.raw_radians { 1.0 } else { 180.0 / std::f32::consts::PI }
}

fn roll_deg(d: &PsxnData) -> Option<f32> {
    resolve(d).0.map(|r| r * factor(d))
}

fn pitch_deg(d: &PsxnData) -> Option<f32> {
    resolve(d).1.map(|p| p * factor(d))
}

#[test]
fn decode_gga_classic_spec_example() {
    let raw = parse_raw(b"$GPGGA,123519,4807.038,N,01131.000,E,1,08,0.9,545.4,M,46.9,M,,*47");
    let gga = gga(&raw).expect("parse");

    assert_eq!(gga.talker, Some(*b"GP"));
    assert_eq!(
        gga.utc,
        Some(UtcTime {
            hour: 12,
            minute: 35,
            second: 19,
            millisecond: 0
        })
    );
    assert!((coord(&gga.latitude).unwrap() - 48.1173).abs() < 0.0001);
    assert!((coord(&gga.longitude).unwrap() - 11.51667).abs() < 0.0001);
    assert_eq!(gga.fix_quality, GgaFixQuality::GpsFix);
    assert_eq!(gga.satellites_used, Some(8));
    assert!((num(&gga.hdop).unwrap() - 0.9).abs() < 0.001);
    assert!((num(&gga.altitude_m).unwrap() - 545.4).abs() < 0.01);
    assert!((num(&gga.geoid_separation_m).unwrap() - 46.9).abs() < 0.01);
    assert_eq!(num(&gga.dgps_age_s), None);
    assert_eq!(gga.dgps_station_id, None);
}

#[test]
fn decode_gga_all_empty_fields_decode_to_none() {
    let bytes = build(b"GPGGA,,,,,,0,,,,,,,,");
    let raw = parse_raw(&bytes);
    let gga = gga(&raw).expect("parse");

    assert_eq!(gga.utc, None);
    assert_eq!(coord(&gga.latitude), None);
    assert_eq!(coord(&gga.longitude), None);
    assert_eq!(gga.fix_quality, GgaFixQuality::Invalid);
    assert_eq!(gga.satellites_used, None);
    assert_eq!(num(&gga.hdop), None);
    assert_eq!(num(&gga.altitude_m), None);
    assert_eq!(num(&gga.geoid_separation_m), None);
}

#[test]
fn decode_gga_southern_western_coordinates_are_negative() {
    let bytes = build(b"GPGGA,123519,4807.038,S,01131.000,W,1,08,0.9,545.4,M,46.9,M,,");
    let raw = parse_raw(&bytes);
    let gga = gga(&raw).expect("parse");
    assert!(coord(&gga.latitude).unwrap() < 0.0);
    assert!(coord(&gga.longitude).unwrap() < 0.0);
}

#[test]
fn decode_gga_rejects_too_few_fields() {
    let bytes = build(b"GPGGA,1,2,3");
    let raw = parse_raw(&bytes);
    match gga(&raw) {
        Err(DecodeError::NotEnoughFields {
            expected: 14,
            got: 3,
        }) => {}
        other => panic!("expected NotEnoughFields, got {other:?}"),
    }
}

#[test]
fn decode_gll_full_with_mode() {
    let raw = parse_raw(b"$GPGLL,4916.45,N,12311.12,W,225444,A,A*5C");
    let gll = gll(&raw).expect("parse");

    assert_eq!(gll.talker, Some(*b"GP"));
    assert!((coord(&gll.latitude).unwrap() - 49.27417).abs() < 0.0001);
    assert!((coord(&gll.longitude).unwrap() - (-123.18533)).abs() < 0.0001);
    assert_eq!(
        gll.utc,
        Some(UtcTime {
            hour: 22,
            minute: 54,
            second: 44,
            millisecond: 0
        })
    );
    assert_eq!(gll.status, DataStatus::Active);
    assert_eq!(gll.mode, Some(VtgMode::Autonomous));
}

#[test]
fn decode_gll_pre_nmea_2_3_returns_none_mode() {
    let bytes = build(b"GPGLL,4916.45,N,12311.12,W,225444,A");
    let raw = parse_raw(&bytes);
    assert_eq!(raw.fields.len(), 6);
    let gll = gll(&raw).expect("parse");
    assert_eq!(gll.mode, None);
}

#[test]
fn decode_gll_empty_mode_field_is_none() {
    let bytes = build(b"GPGLL,4916.45,N,12311.12,W,225444,A,");
    let raw = parse_raw(&bytes);
    let gll = gll(&raw).expect("parse");
    assert_eq!(gll.mode, None);
}

#[test]
fn decode_gll_void_status_propagates() {
    let bytes = build(b"GPGLL,,,,,,V,N");
    let raw = parse_raw(&bytes);
    let gll = gll(&raw).expect("parse");
    assert_eq!(gll.status, DataStatus::Void);
    assert_eq!(coord(&gll.latitude), None);
    assert_eq!(coord(&gll.longitude), None);
    assert_eq!(gll.utc, None);
    assert_eq!(gll.mode, Some(VtgMode::NotValid));
}

#[test]
fn decode_gll_southern_western_coordinates_are_negative() {
    let bytes = build(b"GPGLL,4807.038,S,01131.000,W,123519,A,A");
    let raw = parse_raw(&bytes);
    let gll = gll(&raw).expect("parse");
    assert!(coord(&gll.latitude).unwrap() < 0.0);
    assert!(coord(&gll.longitude).unwrap() < 0.0);
}

#[test]
fn decode_gll_rejects_too_few_fields() {
    let bytes = build(b"GPGLL,4916.45,N");
    let raw = parse_raw(&bytes);
    match gll(&raw) {
        Err(DecodeError::NotEnoughFields {
            expected: 6,
            got: 2,
        }) => {}
        other => panic!("expected NotEnoughFields, got {other:?}"),
    }
}

#[test]
fn decode_hdg_full_signed() {
    let bytes = build(b"HCHDG,98.3,0.0,E,12.6,W");
    let raw = parse_raw(&bytes);
    let hdg = decode_hdg(&raw).expect("parse");
    assert_eq!(hdg.talker, Some(*b"HC"));
    assert!((num(&hdg.heading_magnetic_deg).unwrap() - 98.3).abs() < 0.01);
    assert!((signed(&hdg.deviation).unwrap() - 0.0).abs() < 0.01);
    assert!((signed(&hdg.variation).unwrap() - -12.6).abs() < 0.01, "W is negative");
}

#[test]
fn decode_hdg_heading_only_has_none_corrections() {
    let bytes = build(b"HCHDG,310.1,,,,");
    let raw = parse_raw(&bytes);
    let hdg = decode_hdg(&raw).expect("parse");
    assert!((num(&hdg.heading_magnetic_deg).unwrap() - 310.1).abs() < 0.01);
    assert_eq!(signed(&hdg.deviation), None);
    assert_eq!(signed(&hdg.variation), None);
}

#[test]
fn decode_hdg_east_variation_is_positive() {
    let bytes = build(b"HCHDG,98.3,1.0,W,7.1,E");
    let raw = parse_raw(&bytes);
    let hdg = decode_hdg(&raw).expect("parse");
    assert!((signed(&hdg.deviation).unwrap() - -1.0).abs() < 0.01);
    assert!((signed(&hdg.variation).unwrap() - 7.1).abs() < 0.01);
}

#[test]
fn decode_hdg_magnitude_without_direction_errors() {
    let bytes = build(b"HCHDG,98.3,1.0,,7.1,E");
    let raw = parse_raw(&bytes);
    match decode_hdg(&raw) {
        Err(DecodeError::InvalidHemisphere { field_index: 2 }) => {}
        other => panic!("expected InvalidHemisphere 2, got {other:?}"),
    }
}

#[test]
fn decode_hdg_rejects_too_few_fields() {
    let bytes = build(b"HCHDG,98.3,1.0");
    let raw = parse_raw(&bytes);
    match decode_hdg(&raw) {
        Err(DecodeError::NotEnoughFields { expected: 5, got: 2 }) => {}
        other => panic!("expected NotEnoughFields, got {other:?}"),
    }
}

#[test]
fn decode_hdg_rejects_malformed_heading() {
    let bytes = build(b"HCHDG,not-a-number,0.0,E,12.6,W");
    let raw = parse_raw(&bytes);
    match decode_hdg(&raw) {
        Err(DecodeError::InvalidNumber { field_index: 0 }) => {}
        other => panic!("expected InvalidNumber 0, got {other:?}"),
    }
}

#[test]
fn decode_hdt_basic() {
    let bytes = build(b"INHDT,123.456,T");
    let raw = parse_raw(&bytes);
    let hdt = decode_hdt(&raw).expect("parse");
    assert_eq!(hdt.talker, Some(*b"IN"));
    assert!((num(&hdt.heading_true_deg).unwrap() - 123.456).abs() < 0.001);
}

#[test]
fn decode_hdt_empty_heading_is_none() {
    let bytes = build(b"HEHDT,,T");
    let raw = parse_raw(&bytes);
    let hdt = decode_hdt(&raw).expect("parse");
    assert_eq!(num(&hdt.heading_true_deg), None);
}

#[test]
fn decode_hdt_rejects_too_few_fields() {
    let bytes = build(b"GPHDT,123.4");
    let raw = parse_raw(&bytes);
    match decode_hdt(&raw) {
        Err(DecodeError::NotEnoughFields {
            expected: 2,
            got: 1,
        }) => {}
        other => panic!("expected NotEnoughFields, got {other:?}"),
    }
}

#[test]
fn decode_rmc_full_with_mode() {
    let bytes = build(b"GPRMC,123519,A,4807.038,N,01131.000,E,022.4,084.4,230394,003.1,W,A");
    let raw = parse_raw(&bytes);
    let rmc = rmc(&raw).expect("parse");

    assert_eq!(rmc.talker, Some(*b"GP"));
    assert_eq!(
        rmc.utc,
        Some(UtcTime {
            hour: 12,
            minute: 35,
            second: 19,
            millisecond: 0
        })
    );
    assert_eq!(rmc.status, DataStatus::Active);
    assert!((coord(&rmc.latitude).unwrap() - 48.1173).abs() < 0.0001);
    assert!((coord(&rmc.longitude).unwrap() - 11.51667).abs() < 0.0001);
    assert!((num(&rmc.speed_knots).unwrap() - 22.4).abs() < 0.01);
    assert!((num(&rmc.course_true_deg).unwrap() - 84.4).abs() < 0.01);
    assert_eq!(
        rmc.date,
        Some(UtcDate {
            day: 23,
            month: 3,
            year_yy: 94
        })
    );
    assert!((signed(&rmc.magnetic_variation).unwrap() - (-3.1)).abs() < 0.01);
    assert_eq!(rmc.mode, Some(VtgMode::Autonomous));
    assert_eq!(rmc.nav_status, None);
}

#[test]
fn decode_rmc_pre_nmea_2_3_returns_none_mode() {
    let bytes = build(b"GPRMC,123519,A,4807.038,N,01131.000,E,022.4,084.4,230394,003.1,W");
    let raw = parse_raw(&bytes);
    assert_eq!(raw.fields.len(), 11);
    let rmc = rmc(&raw).expect("parse");
    assert_eq!(rmc.mode, None);
    assert_eq!(rmc.nav_status, None);
}

#[test]
fn decode_rmc_with_nav_status() {
    let bytes = build(b"GPRMC,123519,A,4807.038,N,01131.000,E,022.4,084.4,230394,003.1,W,A,S");
    let raw = parse_raw(&bytes);
    let rmc = rmc(&raw).expect("parse");
    assert_eq!(rmc.mode, Some(VtgMode::Autonomous));
    assert_eq!(rmc.nav_status, Some(RmcNavStatus::Safe));
}

#[test]
fn decode_rmc_void_status_propagates() {
    let bytes = build(b"GPRMC,,V,,,,,,,,,,N");
    let raw = parse_raw(&bytes);
    let rmc = rmc(&raw).expect("parse");
    assert_eq!(rmc.status, DataStatus::Void);
    assert_eq!(rmc.utc, None);
    assert_eq!(coord(&rmc.latitude), None);
    assert_eq!(rmc.mode, Some(VtgMode::NotValid));
}

#[test]
fn decode_rmc_eastern_variation_is_positive() {
    let bytes = build(b"GPRMC,123519,A,4807.038,N,01131.000,E,022.4,084.4,230394,005.0,E,A");
    let raw = parse_raw(&bytes);
    let rmc = rmc(&raw).expect("parse");
    assert!((signed(&rmc.magnetic_variation).unwrap() - 5.0).abs() < 0.01);
}

#[test]
fn decode_rmc_variation_magnitude_without_direction_errors() {
    let bytes = build(b"GPRMC,123519,A,4807.038,N,01131.000,E,022.4,084.4,230394,005.0,,A");
    let raw = parse_raw(&bytes);
    match rmc(&raw) {
        Err(DecodeError::InvalidHemisphere { field_index: 10 }) => {}
        other => panic!("expected InvalidHemisphere, got {other:?}"),
    }
}

#[test]
fn decode_rmc_variation_direction_without_magnitude_errors() {
    let bytes = build(b"GPRMC,123519,A,4807.038,N,01131.000,E,022.4,084.4,230394,,W,A");
    let raw = parse_raw(&bytes);
    match rmc(&raw) {
        Err(DecodeError::InvalidHemisphere { field_index: 10 }) => {}
        other => panic!("expected InvalidHemisphere, got {other:?}"),
    }
}

#[test]
fn decode_rmc_rejects_too_few_fields() {
    let bytes = build(b"GPRMC,123519,A,4807.038");
    let raw = parse_raw(&bytes);
    match rmc(&raw) {
        Err(DecodeError::NotEnoughFields {
            expected: 11,
            got: 3,
        }) => {}
        other => panic!("expected NotEnoughFields, got {other:?}"),
    }
}

#[test]
fn decode_vtg_full_with_mode() {
    let bytes = build(b"GPVTG,054.7,T,034.4,M,005.5,N,010.2,K,A");
    let raw = parse_raw(&bytes);
    let vtg = decode_vtg(&raw).expect("parse");

    assert_eq!(vtg.talker, Some(*b"GP"));
    assert!((num(&vtg.course_true_deg).unwrap() - 54.7).abs() < 0.01);
    assert!((num(&vtg.course_magnetic_deg).unwrap() - 34.4).abs() < 0.01);
    assert!((num(&vtg.speed_knots).unwrap() - 5.5).abs() < 0.01);
    assert!((num(&vtg.speed_kmh).unwrap() - 10.2).abs() < 0.01);
    assert_eq!(vtg.mode, Some(VtgMode::Autonomous));
}

#[test]
fn decode_vtg_pre_nmea_2_3_returns_none_mode() {
    let bytes = build(b"GPVTG,054.7,T,034.4,M,005.5,N,010.2,K");
    let raw = parse_raw(&bytes);
    assert_eq!(raw.fields.len(), 8, "fixture sanity: pre-2.3 has 8 fields");

    let vtg = decode_vtg(&raw).expect("parse");
    assert_eq!(vtg.mode, None);
    assert!((num(&vtg.speed_knots).unwrap() - 5.5).abs() < 0.01);
}

#[test]
fn decode_vtg_empty_mode_field_is_none() {
    let bytes = build(b"GPVTG,054.7,T,034.4,M,005.5,N,010.2,K,");
    let raw = parse_raw(&bytes);
    let vtg = decode_vtg(&raw).expect("parse");
    assert_eq!(vtg.mode, None);
}

#[test]
fn decode_vtg_all_empty_numeric_fields_decode_to_none() {
    let bytes = build(b"GPVTG,,T,,M,,N,,K,N");
    let raw = parse_raw(&bytes);
    let vtg = decode_vtg(&raw).expect("parse");
    assert_eq!(num(&vtg.course_true_deg), None);
    assert_eq!(num(&vtg.course_magnetic_deg), None);
    assert_eq!(num(&vtg.speed_knots), None);
    assert_eq!(num(&vtg.speed_kmh), None);
    assert_eq!(vtg.mode, Some(VtgMode::NotValid));
}

#[test]
fn decode_vtg_receiver_without_compass_has_no_magnetic_course() {
    let bytes = build(b"GPVTG,054.7,T,,M,005.5,N,010.2,K,A");
    let raw = parse_raw(&bytes);
    let vtg = decode_vtg(&raw).expect("parse");
    assert!(num(&vtg.course_true_deg).is_some());
    assert_eq!(num(&vtg.course_magnetic_deg), None);
    assert!(num(&vtg.speed_knots).is_some());
}

#[test]
fn decode_vtg_rejects_too_few_fields() {
    let bytes = build(b"GPVTG,054.7,T,034.4"); // only 3 fields
    let raw = parse_raw(&bytes);
    match decode_vtg(&raw) {
        Err(DecodeError::NotEnoughFields {
            expected: 8,
            got: 3,
        }) => {}
        other => panic!("expected NotEnoughFields, got {other:?}"),
    }
}

#[test]
fn decode_vtg_rejects_malformed_speed() {
    let bytes = build(b"GPVTG,054.7,T,034.4,M,not-a-number,N,010.2,K,A");
    let raw = parse_raw(&bytes);
    match decode_vtg(&raw) {
        Err(DecodeError::InvalidNumber { field_index: 4 }) => {}
        other => panic!("expected InvalidNumber field 4, got {other:?}"),
    }
}

#[test]
fn decode_tll_full() {
    let bytes = build(b"RATLL,7,4807.038,N,01131.000,E,TGT7,123519,T,R");
    let raw = parse_raw(&bytes);
    let tll = tll(&raw).expect("parse");
    assert_eq!(tll.talker, Some(*b"RA"));
    assert_eq!(tll.target_number, Some(7));
    assert!((coord(&tll.latitude).unwrap() - 48.1173).abs() < 0.0001);
    assert!((coord(&tll.longitude).unwrap() - 11.51667).abs() < 0.0001);
    assert_eq!(tll.name.as_deref(), Some("TGT7"));
    assert_eq!(
        tll.utc_time,
        Some(UtcTime {
            hour: 12,
            minute: 35,
            second: 19,
            millisecond: 0
        })
    );
    assert_eq!(tll.status, Some(TargetStatus::Tracking));
    assert!(tll.reference_target);
}

#[test]
fn decode_tll_southern_western_negative() {
    let bytes = build(b"RATLL,1,4807.038,S,01131.000,W,,,L,");
    let raw = parse_raw(&bytes);
    let tll = tll(&raw).expect("parse");
    assert!(coord(&tll.latitude).unwrap() < 0.0);
    assert!(coord(&tll.longitude).unwrap() < 0.0);
    assert_eq!(tll.name, None);
    assert_eq!(tll.utc_time, None);
    assert_eq!(tll.status, Some(TargetStatus::Lost));
    assert!(!tll.reference_target);
}

#[test]
fn decode_tll_position_only_five_fields() {
    let bytes = build(b"RATLL,2,5000.00,N,00500.00,E");
    let raw = parse_raw(&bytes);
    let tll = tll(&raw).expect("parse");
    assert_eq!(tll.target_number, Some(2));
    assert!(coord(&tll.latitude).is_some());
    assert_eq!(tll.name, None);
    assert_eq!(tll.status, None);
    assert!(!tll.reference_target);
}

#[test]
fn decode_tll_rejects_too_few_fields() {
    let bytes = build(b"RATLL,2,5000.00,N");
    let raw = parse_raw(&bytes);
    match tll(&raw) {
        Err(DecodeError::NotEnoughFields {
            expected: 5,
            got: 3,
        }) => {}
        other => panic!("expected NotEnoughFields, got {other:?}"),
    }
}

#[test]
fn decode_tll_rejects_invalid_hemisphere() {
    let bytes = build(b"RATLL,2,5000.00,X,00500.00,E");
    let raw = parse_raw(&bytes);
    match tll(&raw) {
        Err(DecodeError::InvalidHemisphere { field_index: 2 }) => {}
        other => panic!("expected InvalidHemisphere 2, got {other:?}"),
    }
}

#[test]
fn decode_rattm_full() {
    let bytes = build(b"RATTM,12,1.23,45.6,T,7.8,90.1,R,2.5,-11.0,S,TGT1,T,R,123519.00,R");
    let raw = parse_raw(&bytes);
    let ttm = decode_ttm(&raw).expect("parse");
    assert_eq!(ttm.talker, Some(*b"RA"));
    assert_eq!(ttm.target_number, Some(12));
    assert!((num(&ttm.distance).unwrap() - 1.23).abs() < 0.001);
    assert_eq!(ttm.bearing_reference, Some(AngleReference::True));
    assert_eq!(ttm.course_reference, Some(AngleReference::Relative));
    assert!((num(&ttm.tcpa).unwrap() - -11.0).abs() < 0.001, "negative TCPA");
    assert_eq!(ttm.units, Some(DistanceUnits::Statute));
    assert_eq!(ttm.name.as_deref(), Some("TGT1"));
    assert_eq!(ttm.status, Some(TargetStatus::Tracking));
    assert!(ttm.reference_target);
    assert_eq!(
        ttm.utc_time,
        Some(UtcTime { hour: 12, minute: 35, second: 19, millisecond: 0 })
    );
    assert_eq!(ttm.acquisition, Some(AcquisitionType::Reported));
}

#[test]
fn decode_ttm_base_13_fields_optional_trailing_none() {
    let bytes = build(b"RATTM,3,5.0,180.0,T,10.0,270.0,T,1.0,5.0,N,,Q,");
    let raw = parse_raw(&bytes);
    let ttm = decode_ttm(&raw).expect("parse");
    assert_eq!(ttm.target_number, Some(3));
    assert_eq!(ttm.units, Some(DistanceUnits::Nautical));
    assert_eq!(ttm.name, None);
    assert_eq!(ttm.status, Some(TargetStatus::Query));
    assert!(!ttm.reference_target);
    assert_eq!(ttm.utc_time, None);
    assert_eq!(ttm.acquisition, None);
}

#[test]
fn decode_ttm_unknown_codes_preserved() {
    let bytes = build(b"RATTM,1,1.0,2.0,X,3.0,4.0,Y,5.0,6.0,Z,N1,W,,,B");
    let raw = parse_raw(&bytes);
    let ttm = decode_ttm(&raw).expect("parse");
    assert_eq!(ttm.bearing_reference, Some(AngleReference::Other(b'X')));
    assert_eq!(ttm.course_reference, Some(AngleReference::Other(b'Y')));
    assert_eq!(ttm.units, Some(DistanceUnits::Other(b'Z')));
    assert_eq!(ttm.status, Some(TargetStatus::Other(b'W')));
    assert_eq!(ttm.acquisition, Some(AcquisitionType::Other(b'B')));
}

#[test]
fn decode_ttm_rejects_too_few_fields() {
    let bytes = build(b"RATTM,1,1.0,2.0,T,3.0,4.0,T,5.0,6.0,N,name");
    let raw = parse_raw(&bytes);
    match decode_ttm(&raw) {
        Err(DecodeError::NotEnoughFields { expected: 12, got: 11 }) => {}
        other => panic!("expected NotEnoughFields, got {other:?}"),
    }
}

#[test]
fn decode_ttm_rejects_malformed_number() {
    let bytes = build(b"RATTM,1,bad,2.0,T,3.0,4.0,T,5.0,6.0,N,name,T,");
    let raw = parse_raw(&bytes);
    match decode_ttm(&raw) {
        Err(DecodeError::InvalidNumber { field_index: 1 }) => {}
        other => panic!("expected InvalidNumber 1, got {other:?}"),
    }
}

#[test]
fn decode_prdid_with_unknown_dialect_emits_raw_fields() {
    let bytes = build(b"PRDID,1.5,-0.5,92.3");
    let raw = parse_raw(&bytes);
    let data = decode_prdid(&raw, PrdidDialect::Unknown).expect("decode");
    let fields = match data {
        PrdidData::Raw { fields } => fields,
        other => panic!("expected Raw, got {other:?}"),
    };
    assert_eq!(fields.len(), 3);
    assert_eq!(fields[0], b"1.5");
    assert_eq!(fields[1], b"-0.5");
    assert_eq!(fields[2], b"92.3");
}

#[test]
fn decode_prdid_unknown_preserves_empty_fields() {
    let bytes = build(b"PRDID,1.5,,92.3");
    let raw = parse_raw(&bytes);
    let data = decode_prdid(&raw, PrdidDialect::Unknown).expect("decode");
    let fields = match data {
        PrdidData::Raw { fields } => fields,
        other => panic!("expected Raw, got {other:?}"),
    };
    assert_eq!(fields.len(), 3);
    assert!(fields[1].is_empty());
}

#[test]
fn decode_prdid_unknown_never_errors_on_field_count() {
    let bytes = build(b"PRDID,only-one-field");
    let raw = parse_raw(&bytes);
    let data = decode_prdid(&raw, PrdidDialect::Unknown).expect("decode");
    let fields = match data {
        PrdidData::Raw { fields } => fields,
        other => panic!("expected Raw, got {other:?}"),
    };
    assert_eq!(fields.len(), 1);
    assert_eq!(fields[0], b"only-one-field");
}

#[test]
fn decode_prdid_pitch_roll_heading_dispatches_correctly() {
    let bytes = build(b"PRDID,1.0,2.0,180.0");
    let raw = parse_raw(&bytes);
    let data = decode_prdid(&raw, PrdidDialect::PitchRollHeading).expect("decode");
    let prh = match data {
        PrdidData::PitchRollHeading(d) => d,
        other => panic!("expected PitchRollHeading, got {other:?}"),
    };
    assert!((num(&prh.pitch_deg).unwrap() - 1.0).abs() < 0.001);
    assert!((num(&prh.roll_deg).unwrap() - 2.0).abs() < 0.001);
    assert!((num(&prh.heading_deg).unwrap() - 180.0).abs() < 0.001);
}

#[test]
fn decode_prdid_pitch_roll_heading_direct_decoder_matches_dispatcher() {
    let bytes = build(b"PRDID,-1.5,0.5,45.0");
    let raw = parse_raw(&bytes);
    let direct = decode_prdid_pitch_roll_heading(&raw).expect("direct");
    let via_dispatch = decode_prdid(&raw, PrdidDialect::PitchRollHeading).expect("via");
    assert_eq!(PrdidData::PitchRollHeading(direct), via_dispatch);
}

#[test]
fn decode_prdid_roll_pitch_heading_swaps_first_two_fields() {
    let bytes = build(b"PRDID,1.0,2.0,180.0");
    let raw = parse_raw(&bytes);
    let data = decode_prdid(&raw, PrdidDialect::RollPitchHeading).expect("decode");
    let rph = match data {
        PrdidData::RollPitchHeading(d) => d,
        other => panic!("expected RollPitchHeading, got {other:?}"),
    };
    assert!((num(&rph.roll_deg).unwrap() - 1.0).abs() < 0.001);
    assert!((num(&rph.pitch_deg).unwrap() - 2.0).abs() < 0.001);
    assert!((num(&rph.heading_deg).unwrap() - 180.0).abs() < 0.001);
}

#[test]
fn prh_and_rph_produce_different_interpretations_of_same_bytes() {
    let bytes = build(b"PRDID,10.0,20.0,90.0");
    let raw = parse_raw(&bytes);
    let prh = decode_prdid_pitch_roll_heading(&raw).expect("prh");
    let rph = decode_prdid_roll_pitch_heading(&raw).expect("rph");
    assert_eq!(num(&prh.pitch_deg), num(&rph.roll_deg), "first field role differs");
    assert_eq!(num(&prh.roll_deg), num(&rph.pitch_deg), "second field role differs");
    assert_eq!(num(&prh.heading_deg), num(&rph.heading_deg), "heading is 3rd for both");
}

#[test]
fn decode_prdid_typed_preserves_none_for_empty_fields() {
    let bytes = build(b"PRDID,,,");
    let raw = parse_raw(&bytes);
    let data = decode_prdid(&raw, PrdidDialect::PitchRollHeading).expect("decode");
    let prh = match data {
        PrdidData::PitchRollHeading(d) => d,
        other => panic!("expected PitchRollHeading, got {other:?}"),
    };
    assert_eq!(num(&prh.pitch_deg), None);
    assert_eq!(num(&prh.roll_deg), None);
    assert_eq!(num(&prh.heading_deg), None);
}

#[test]
fn decode_prdid_typed_errors_on_too_few_fields() {
    let bytes = build(b"PRDID,1.0,2.0"); // only 2 fields
    let raw = parse_raw(&bytes);
    match decode_prdid(&raw, PrdidDialect::PitchRollHeading) {
        Err(DecodeError::NotEnoughFields {
            expected: 3,
            got: 2,
        }) => {}
        other => panic!("expected NotEnoughFields 3/2, got {other:?}"),
    }
}

#[test]
fn decode_prdid_typed_errors_on_invalid_number() {
    let bytes = build(b"PRDID,not-a-number,2.0,90.0");
    let raw = parse_raw(&bytes);
    match decode_prdid(&raw, PrdidDialect::PitchRollHeading) {
        Err(DecodeError::InvalidNumber { field_index: 0 }) => {}
        other => panic!("expected InvalidNumber field 0, got {other:?}"),
    }
}

#[test]
fn top_level_decode_uses_default_unknown_dialect() {
    let bytes = build(b"PRDID,1.0,2.0,180.0");
    let raw = parse_raw(&bytes);
    let msg = decode(&raw).expect("dispatcher");
    match msg {
        Nmea0183Message::Prdid(PrdidData::Raw { fields }) => {
            assert_eq!(fields.len(), 3);
        }
        other => panic!("expected Prdid(Raw), got {other:?}"),
    }
}

#[test]
fn decode_with_configures_prdid_dialect() {
    let opts =
        DecodeOptions::default().with_prdid_dialect(PrdidDialect::PitchRollHeading);
    let bytes = build(b"PRDID,1.0,2.0,180.0");
    let raw = parse_raw(&bytes);
    let msg = decode_with(&raw, &opts).expect("dispatcher");
    match msg {
        Nmea0183Message::Prdid(PrdidData::PitchRollHeading(prh)) => {
            assert!((num(&prh.pitch_deg).unwrap() - 1.0).abs() < 0.001);
        }
        other => panic!("expected Prdid(PitchRollHeading), got {other:?}"),
    }
}

#[test]
fn decode_with_switches_between_dialects() {
    let bytes = build(b"PRDID,10.0,20.0,30.0");
    let raw = parse_raw(&bytes);

    let prh_opts =
        DecodeOptions::default().with_prdid_dialect(PrdidDialect::PitchRollHeading);
    let rph_opts =
        DecodeOptions::default().with_prdid_dialect(PrdidDialect::RollPitchHeading);

    let prh_msg = decode_with(&raw, &prh_opts).expect("prh");
    let rph_msg = decode_with(&raw, &rph_opts).expect("rph");

    match (prh_msg, rph_msg) {
        (
            Nmea0183Message::Prdid(PrdidData::PitchRollHeading(prh)),
            Nmea0183Message::Prdid(PrdidData::RollPitchHeading(rph)),
        ) => {
            assert_eq!(num(&prh.pitch_deg), num(&rph.roll_deg));
            assert_eq!(num(&prh.roll_deg), num(&rph.pitch_deg));
        }
        other => panic!("unexpected pair: {other:?}"),
    }
}

#[test]
fn decode_psxn_default_layout_yields_roll_pitch_heave_in_degrees() {
    let bytes = build(b"PSXN,10,mytoken,0.017453,0.034907,0.5,,,");
    let raw = parse_raw(&bytes);
    let data = decode_psxn(&raw, &PsxnLayout::default()).expect("parse");

    assert_eq!(data.id, Some(10));
    assert_eq!(data.token.as_deref(), Some(b"mytoken".as_slice()));
    assert!((roll_deg(&data).unwrap() - 1.0).abs() < 0.01);
    assert!((pitch_deg(&data).unwrap() - 2.0).abs() < 0.01);
    assert!((num(&data.heave_m).unwrap() - 0.5).abs() < 0.001);
}

#[test]
fn decode_psxn_all_empty_data_fields_decode_to_none() {
    let bytes = build(b"PSXN,,,,,,,,");
    let raw = parse_raw(&bytes);
    let data = decode_psxn(&raw, &PsxnLayout::default()).expect("parse");
    assert_eq!(data.id, None);
    assert_eq!(data.token, None);
    assert_eq!(roll_deg(&data), None);
    assert_eq!(pitch_deg(&data), None);
    assert_eq!(num(&data.heave_m), None);
}

#[test]
fn decode_psxn_raw_radians_preserves_wire_values() {
    let layout = PsxnLayout {
        raw_radians: true,
        ..PsxnLayout::default()
    };
    let bytes = build(b"PSXN,10,t,0.1,0.2,0.3,,,");
    let raw = parse_raw(&bytes);
    let data = decode_psxn(&raw, &layout).expect("parse");
    assert!((roll_deg(&data).unwrap() - 0.1).abs() < 0.001);
    assert!((pitch_deg(&data).unwrap() - 0.2).abs() < 0.001);
}

#[test]
fn decode_psxn_pitch_sine_encoded_resolves_to_angle() {
    let layout = PsxnLayout {
        slots: [
            PsxnSlot::PitchSineEncoded,
            PsxnSlot::Ignored,
            PsxnSlot::Ignored,
            PsxnSlot::Ignored,
            PsxnSlot::Ignored,
            PsxnSlot::Ignored,
        ],
        raw_radians: false,
    };
    let bytes = build(b"PSXN,10,,-0.5,,,,,");
    let raw = parse_raw(&bytes);
    let data = decode_psxn(&raw, &layout).expect("parse");
    assert!(
        (pitch_deg(&data).unwrap() - 30.0).abs() < 0.1,
        "got {:?}",
        pitch_deg(&data)
    );
}

#[test]
fn decode_psxn_roll_sine_without_pitch_source_yields_none() {
    let layout = PsxnLayout {
        slots: [
            PsxnSlot::RollSineEncoded,
            PsxnSlot::Ignored,
            PsxnSlot::Ignored,
            PsxnSlot::Ignored,
            PsxnSlot::Ignored,
            PsxnSlot::Ignored,
        ],
        raw_radians: false,
    };
    let bytes = build(b"PSXN,10,,0.3,,,,,");
    let raw = parse_raw(&bytes);
    let data = decode_psxn(&raw, &layout).expect("parse");
    assert_eq!(roll_deg(&data), None);
}

#[test]
fn decode_psxn_roll_sine_with_pitch_resolves() {
    let layout = PsxnLayout {
        slots: [
            PsxnSlot::Pitch,
            PsxnSlot::RollSineEncoded,
            PsxnSlot::Ignored,
            PsxnSlot::Ignored,
            PsxnSlot::Ignored,
            PsxnSlot::Ignored,
        ],
        raw_radians: false,
    };
    let bytes = build(b"PSXN,10,,0.0,0.17365,,,,");
    let raw = parse_raw(&bytes);
    let data = decode_psxn(&raw, &layout).expect("parse");
    assert!((roll_deg(&data).unwrap() - 10.0).abs() < 0.1);
    assert_eq!(pitch_deg(&data), Some(0.0));
}

#[test]
fn decode_psxn_gimbal_lock_yields_none_for_sine_roll() {
    let layout = PsxnLayout {
        slots: [
            PsxnSlot::Pitch,
            PsxnSlot::RollSineEncoded,
            PsxnSlot::Ignored,
            PsxnSlot::Ignored,
            PsxnSlot::Ignored,
            PsxnSlot::Ignored,
        ],
        raw_radians: false,
    };
    let bytes = build(b"PSXN,10,,1.5707963,0.5,,,,");
    let raw = parse_raw(&bytes);
    let data = decode_psxn(&raw, &layout).expect("parse");
    assert_eq!(roll_deg(&data), None);
    assert!((pitch_deg(&data).unwrap() - 90.0).abs() < 0.01);
}

#[test]
fn decode_psxn_too_few_fields_errors() {
    let bytes = build(b"PSXN,10,tok,1.0,2.0"); // 5 fields, need 8
    let raw = parse_raw(&bytes);
    match decode_psxn(&raw, &PsxnLayout::default()) {
        Err(DecodeError::NotEnoughFields { expected: 8, got }) => {
            assert!(got < 8);
        }
        other => panic!("expected NotEnoughFields, got {other:?}"),
    }
}

#[test]
fn decode_psxn_invalid_id_errors_at_field_0() {
    let bytes = build(b"PSXN,abc,tok,1.0,2.0,3.0,0,0,0");
    let raw = parse_raw(&bytes);
    match decode_psxn(&raw, &PsxnLayout::default()) {
        Err(DecodeError::InvalidNumber { field_index: 0 }) => {}
        other => panic!("expected InvalidNumber field 0, got {other:?}"),
    }
}

#[test]
fn decode_psxn_invalid_data_slot_errors_at_correct_field_index() {
    let bytes = build(b"PSXN,10,tok,1.0,2.0,nan-str,0,0,0");
    let raw = parse_raw(&bytes);
    match decode_psxn(&raw, &PsxnLayout::default()) {
        Err(DecodeError::InvalidNumber { field_index: 4 }) => {}
        other => panic!("expected InvalidNumber field 4, got {other:?}"),
    }
}

#[test]
fn top_level_decode_dispatches_psxn_with_default_options() {
    let bytes = build(b"PSXN,10,tok,0.017453,0.0,0.0,,,");
    let raw = parse_raw(&bytes);
    let msg = decode(&raw).expect("dispatcher");
    match msg {
        Nmea0183Message::Psxn(d) => {
            assert_eq!(d.id, Some(10));
            assert!((roll_deg(&d).unwrap() - 1.0).abs() < 0.01);
        }
        other => panic!("expected Psxn, got {other:?}"),
    }
}

#[test]
fn decode_with_custom_layout_applies_configured_slots() {
    let layout: PsxnLayout = "q1".parse().expect("layout parse");
    let opts = DecodeOptions::default().with_psxn_layout(layout);
    let bytes = build(b"PSXN,10,tok,-0.5,,,,,");
    let raw = parse_raw(&bytes);
    let msg = decode_with(&raw, &opts).expect("dispatcher");
    match msg {
        Nmea0183Message::Psxn(d) => {
            assert!((pitch_deg(&d).unwrap() - core::f32::consts::FRAC_PI_6).abs() < 0.001);
        }
        other => panic!("expected Psxn, got {other:?}"),
    }
}

#[test]
fn optional_f32_parses_and_handles_empty() {
    assert_eq!(optional_f32(b"", 0).unwrap(), None);
    assert_eq!(optional_f32(b"2.5", 0).unwrap(), Some(2.5));
    assert_eq!(optional_f32(b"-1.5", 0).unwrap(), Some(-1.5));
}

#[test]
fn optional_f32_rejects_garbage() {
    match optional_f32(b"not-a-number", 2) {
        Err(DecodeError::InvalidNumber { field_index: 2 }) => {}
        other => panic!("expected InvalidNumber {{ field_index: 2 }}, got {other:?}"),
    }
}

#[test]
fn coordinate_decode_northern_eastern() {
    let lat = coordinate(b"4807.038", b"N", 2, 3, false)
        .unwrap()
        .unwrap();
    assert!((lat - 48.1173).abs() < 0.0001, "got {lat}");
    let lon = coordinate(b"01131.000", b"E", 4, 5, true)
        .unwrap()
        .unwrap();
    assert!((lon - 11.51667).abs() < 0.0001, "got {lon}");
}

#[test]
fn coordinate_decode_southern_western_is_negative() {
    let lat = coordinate(b"4807.038", b"S", 2, 3, false)
        .unwrap()
        .unwrap();
    assert!(lat < 0.0);
    let lon = coordinate(b"01131.000", b"W", 4, 5, true)
        .unwrap()
        .unwrap();
    assert!(lon < 0.0);
}

#[test]
fn coordinate_empty_fields_decode_to_none() {
    assert_eq!(coordinate(b"", b"", 2, 3, false).unwrap(), None);
}

#[test]
fn coordinate_rejects_invalid_hemisphere() {
    match coordinate(b"4807.038", b"X", 2, 3, false) {
        Err(DecodeError::InvalidHemisphere { field_index: 3 }) => {}
        other => panic!("expected InvalidHemisphere, got {other:?}"),
    }
}

#[test]
fn coordinate_rejects_out_of_range() {
    match coordinate(b"9500.000", b"N", 2, 3, false) {
        Err(DecodeError::OutOfRange { .. }) => {}
        other => panic!("expected OutOfRange, got {other:?}"),
    }
}

#[test]
fn signed_ew_signs_and_handles_empty() {
    assert_eq!(signed_ew(b"", b"", 1, 2).unwrap(), None);
    assert_eq!(signed_ew(b"12.6", b"E", 1, 2).unwrap(), Some(12.6));
    assert_eq!(signed_ew(b"12.6", b"W", 1, 2).unwrap(), Some(-12.6));
}

#[test]
fn signed_ew_rejects_half_empty_and_bad_dir() {
    match signed_ew(b"12.6", b"", 1, 2) {
        Err(DecodeError::InvalidHemisphere { field_index: 2 }) => {}
        other => panic!("expected InvalidHemisphere 2, got {other:?}"),
    }
    match signed_ew(b"12.6", b"X", 1, 2) {
        Err(DecodeError::InvalidHemisphere { field_index: 2 }) => {}
        other => panic!("expected InvalidHemisphere 2, got {other:?}"),
    }
}

#[test]
fn one_shot_decodes_gga_bytes_into_typed_message() {
    let mut parser = Parser::one_shot();
    parser.feed(b"$GPGGA,123519,4807.038,N,01131.000,E,1,08,0.9,545.4,M,46.9,M,,*47");
    let msg = next_message(&mut parser).unwrap().unwrap();
    let gga = match msg {
        Nmea0183Message::Gga(d) => d,
        other => panic!("expected Gga, got {other:?}"),
    };
    assert_eq!(gga.talker, Some(*b"GP"));
    assert_eq!(gga.satellites_used, Some(8));
    assert_eq!(gga.fix_quality, GgaFixQuality::GpsFix);
}

#[test]
fn streaming_decodes_multiple_messages_from_one_feed() {
    let mut parser = Parser::streaming();
    let gga = build(b"GPGGA,123519,4807.038,N,01131.000,E,1,08,0.9,545.4,M,46.9,M,,");
    let hdt = build(b"INHDT,100.0,T");
    let vtg = build(b"GPVTG,054.7,T,034.4,M,005.5,N,010.2,K,A");
    let mut combined = Vec::new();
    combined.extend_from_slice(&gga);
    combined.extend_from_slice(b"\r\n");
    combined.extend_from_slice(&hdt);
    combined.extend_from_slice(b"\r\n");
    combined.extend_from_slice(&vtg);
    combined.extend_from_slice(b"\r\n");
    parser.feed(&combined);

    let mut seen: Vec<&'static str> = Vec::new();
    while let Some(result) = next_message(&mut parser) {
        let msg = result.unwrap();
        seen.push(match msg {
            Nmea0183Message::Gga(_) => "gga",
            Nmea0183Message::Hdt(_) => "hdt",
            Nmea0183Message::Vtg(_) => "vtg",
            _ => "other",
        });
    }
    assert_eq!(seen, ["gga", "hdt", "vtg"]);
}

#[test]
fn parser_applies_configured_prdid_dialect() {
    let opts = DecodeOptions::default().with_prdid_dialect(PrdidDialect::PitchRollHeading);
    let mut parser = Parser::one_shot_with_options(opts);
    parser.feed(&build(b"PRDID,1.0,2.0,180.0"));

    let msg = next_message(&mut parser).unwrap().unwrap();
    match msg {
        Nmea0183Message::Prdid(PrdidData::PitchRollHeading(prh)) => {
            assert!((num(&prh.pitch_deg).unwrap() - 1.0).abs() < 0.01);
        }
        other => panic!("expected Prdid PRH, got {other:?}"),
    }
}

#[test]
fn parser_default_options_emit_raw_for_prdid() {
    let mut parser = Parser::one_shot();
    parser.feed(&build(b"PRDID,1.0,2.0,180.0"));
    let msg = next_message(&mut parser).unwrap().unwrap();
    match msg {
        Nmea0183Message::Prdid(PrdidData::Raw { fields }) => {
            assert_eq!(fields.len(), 3);
        }
        other => panic!("expected Prdid(Raw) with default options, got {other:?}"),
    }
}

#[test]
fn parser_set_options_changes_subsequent_decodes() {
    let mut parser = Parser::one_shot();
    parser.feed(&build(b"PRDID,1.0,2.0,180.0"));
    assert!(matches!(
        next_message(&mut parser).unwrap().unwrap(),
        Nmea0183Message::Prdid(PrdidData::Raw { .. })
    ));

    parser.set_options(
        DecodeOptions::default().with_prdid_dialect(PrdidDialect::RollPitchHeading),
    );
    parser.feed(&build(b"PRDID,3.0,4.0,90.0"));
    match next_message(&mut parser).unwrap().unwrap() {
        Nmea0183Message::Prdid(PrdidData::RollPitchHeading(rph)) => {
            assert!((num(&rph.roll_deg).unwrap() - 3.0).abs() < 0.01);
        }
        other => panic!("expected Prdid RPH after set_options, got {other:?}"),
    }
}

#[test]
fn parser_applies_psxn_layout() {
    let layout: PsxnLayout = "rphx".parse().unwrap();
    let opts = DecodeOptions::default().with_psxn_layout(layout);
    let mut parser = Parser::one_shot_with_options(opts);
    parser.feed(&build(b"PSXN,10,tok,0.017453,0.034907,0.5,,,"));
    match next_message(&mut parser).unwrap().unwrap() {
        Nmea0183Message::Psxn(d) => {
            assert_eq!(d.id, Some(10));
            assert!((roll_deg(&d).unwrap() - 1.0).abs() < 0.01);
            assert!((num(&d.heave_m).unwrap() - 0.5).abs() < 0.01);
        }
        other => panic!("expected Psxn, got {other:?}"),
    }
}

#[test]
fn parser_propagates_envelope_checksum_error() {
    let mut parser = Parser::one_shot();
    parser.feed(b"$GPGGA,1,2,3*FF");
    let err = next_message(&mut parser).unwrap().unwrap_err();
    assert!(
        matches!(err, Nmea0183Error::Envelope(_)),
        "expected Envelope, got {err:?}"
    );
}

#[test]
fn parser_propagates_decode_error_for_short_gga() {
    let mut parser = Parser::one_shot();
    parser.feed(&build(b"GPGGA,1,2,3"));
    let err = next_message(&mut parser).unwrap().unwrap_err();
    assert!(
        matches!(
            err,
            Nmea0183Error::Decode(DecodeError::NotEnoughFields {
                expected: 14,
                got: 3
            })
        ),
        "got {err:?}"
    );
}

#[test]
fn streaming_returns_none_on_partial_buffer() {
    let mut parser = Parser::streaming();
    parser.feed(b"$GPGGA,1,2,3"); // no '*hh' yet
    assert!(next_message(&mut parser).is_none());
}

#[test]
fn parser_returns_unknown_for_unrecognised_sentence_type() {
    let mut parser = Parser::one_shot();
    parser.feed(&build(b"GPABC,1,2,3")); // ABC is not a supported type
    let msg = next_message(&mut parser).unwrap().unwrap();
    match msg {
        Nmea0183Message::Unknown(raw) => {
            assert_eq!(raw.sentence_type, b"ABC");
        }
        other => panic!("expected Unknown, got {other:?}"),
    }
}

#[test]
fn nmea_parser_generic_wrapper_works_with_one_shot() {
    let mut parser: Nmea0183Parser<OneShot> = Nmea0183Parser::new(OneShot::new());
    parser.feed(&build(b"INHDT,123.4,T"));
    match next_message_of(&mut parser).unwrap().unwrap() {
        Nmea0183Message::Hdt(d) => {
            assert!((num(&d.heading_true_deg).unwrap() - 123.4).abs() < 0.01);
        }
        other => panic!("expected Hdt, got {other:?}"),
    }
}

#[test]
fn nmea_parser_generic_wrapper_works_with_streaming() {
    let mut parser: Nmea0183Parser<Streaming> = Nmea0183Parser::default();
    parser.feed(&build(b"INHDT,123.4,T"));
    match next_message_of(&mut parser).unwrap().unwrap() {
        Nmea0183Message::Hdt(d) => {
            assert!((num(&d.heading_true_deg).unwrap() - 123.4).abs() < 0.01);
        }
        other => panic!("expected Hdt, got {other:?}"),
    }
}

#[test]
fn float_syntax_follows_the_documented_grammar() {
    for ok in ["1", "+1", "-1.", ".5", "1.5e3", "1E-3", "inf", "-Infinity", "NaN", "007", "1e+0"] {
        assert!(optional_number(ok.as_bytes(), 0).unwrap().is_some(), "{ok}");
        assert!(ok.parse::<f32>().is_ok(), "{ok}");
    }
    for bad in [".", "e5", "1e", "1.2.3", " 1", "1 ", "+-1", "infinit", "1e5.0", "0x10", "1_000"] {
        assert_eq!(optional_number(bad.as_bytes(), 6), Err(DecodeError::InvalidNumber { field_index: 6 }), "{bad}");
        assert!(bad.parse::<f32>().is_err(), "{bad}");
    }
    assert_eq!(optional_number(&[0xC3], 6), Err(DecodeError::InvalidUtf8 { field_index: 6 }));
}

#[test]
fn coordinate_range_is_checked_before_the_hemisphere() {
    assert_eq!(optional_coordinate(b"9500.000", b"X", 2, 3, false, false), Err(DecodeError::OutOfRange { field_index: 2 }));
    assert_eq!(optional_coordinate(b"4807.038", b"", 2, 3, false, true), Err(DecodeError::InvalidHemisphere { field_index: 3 }));
    assert_eq!(optional_coordinate(b"48x", b"N", 2, 3, false, false), Err(DecodeError::InvalidNumber { field_index: 2 }));
    let c = optional_coordinate(b"01131.000", b"w", 4, 5, true, true).unwrap().unwrap();
    assert!(c.negative);
    assert_eq!(c.magnitude.text, b"01131.000");
}

#[test]
fn gga_reports_the_first_failing_field() {
    let raw = parse_raw(&build(b"GPGGA,123519,4807.038,X,01131.000,E,12,08,x,545.4,M,46.9,M,,"));
    assert_eq!(gga(&raw).unwrap_err(), DecodeError::InvalidHemisphere { field_index: 2 });
    let raw = parse_raw(&build(b"GPGGA,123519,4807.038,N,01131.000,E,12,08,x,545.4,M,46.9,M,,"));
    assert_eq!(gga(&raw).unwrap_err(), DecodeError::InvalidNumber { field_index: 5 });
    let raw = parse_raw(&build(b"GPGGA,,,,,,1,256,,,,,,,"));
    assert_eq!(gga(&raw).unwrap_err(), DecodeError::InvalidNumber { field_index: 6 });
}

#[test]
fn psxn_last_slot_of_a_role_wins() {
    let layout = PsxnLayout { slots: [PsxnSlot::Heave, PsxnSlot::Heave, PsxnSlot::Ignored, PsxnSlot::Roll, PsxnSlot::Ignored, PsxnSlot::Ignored], raw_radians: true };
    let raw = parse_raw(&build(b"PSXN,1,t,0.5,,9,0.25,,"));
    let d = decode_psxn(&raw, &layout).unwrap();
    assert_eq!(num(&d.heave_m), None);
    assert_eq!(num(&d.roll), Some(0.25));
    assert!(d.raw_radians);
}

#[test]
fn dispatcher_routes_rmc_to_its_decoder() {
    let raw = parse_raw(&build(b"GPRMC,123519,A,4807.038,N,01131.000,E,022.4,084.4,230394,003.1,W,A"));
    match decode(&raw).expect("decode") {
        Nmea0183Message::Rmc(d) => {
            assert_eq!(d.talker, Some(*b"GP"));
            assert_eq!(d.status, DataStatus::Active);
            let lat = coord(&d.latitude).unwrap();
            assert!((lat - (48.0 + 7.038 / 60.0)).abs() < 1e-9);
            let lon = coord(&d.longitude).unwrap();
            assert!((lon - (11.0 + 31.0 / 60.0)).abs() < 1e-9);
            assert_eq!(d.mode, Some(VtgMode::Autonomous));
        }
        other => panic!("expected Rmc, got {other:?}"),
    }
}

#[test]
fn dispatcher_routes_gll_to_its_decoder() {
    let raw = parse_raw(&build(b"GPGLL,4916.45,N,12311.12,W,225444,A,A"));
    match decode(&raw).expect("decode") {
        Nmea0183Message::Gll(d) => {
            assert_eq!(d.talker, Some(*b"GP"));
            let lon = coord(&d.longitude).unwrap();
            assert!((lon + (123.0 + 11.12 / 60.0)).abs() < 1e-9);
        }
        other => panic!("expected Gll, got {other:?}"),
    }
}

#[test]
fn dispatcher_range_checks_rmc_coordinates_in_their_own_fields() {
    // Latitude 91 degrees sits in field 2 of RMC.
    let raw = parse_raw(&build(b"GPRMC,123519,A,9100.000,N,01131.000,E,022.4,084.4,230394,003.1,W,A"));
    assert!(decode(&raw).is_err());
    assert_eq!(message::coordinate_fields(&raw), Some((2, 4)));
}

#[test]
fn coordinate_fields_follow_the_sentence_type() {
    assert_eq!(message::coordinate_fields(&parse_raw(&build(b"GPGGA,1,2,3"))), Some((1, 3)));
    assert_eq!(message::coordinate_fields(&parse_raw(&build(b"GPGLL,1,2,3"))), Some((0, 2)));
    assert_eq!(message::coordinate_fields(&parse_raw(&build(b"GPHDT,1,T"))), None);
}
