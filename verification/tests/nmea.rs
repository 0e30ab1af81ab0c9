//! NMEA 0183 field decoding: times, dates, status and mode codes, PSXN
//! layouts, options, and proprietary sentence framing.

use marlin::envelope::{parse, OneShot, RawSentence, Streaming};
use marlin::nmea::parser::{Nmea0183Parser, Parser};
use marlin::nmea::codes::{AcquisitionType, AngleReference, DistanceUnits, GgaFixQuality, RmcNavStatus, VtgMode};
use marlin::nmea::error::DecodeError;
use marlin::nmea::options::{DecodeOptions, PrdidDialect};
use marlin::nmea::psxn::{PsxnLayout, PsxnLayoutParseError, PsxnSlot};
use marlin::nmea::status::{DataStatus, TargetStatus};
use marlin::nmea::utc_time::{UtcDate, UtcTime};
use marlin::nmea::util::{non_empty, optional_string, optional_u16, optional_u8};

fn parse_raw(bytes: &[u8]) -> RawSentence {
    parse(bytes).expect("test fixture should be envelope-valid")
}

/// `$` + body + `*hh` with the XOR checksum of the body.
fn build(body: &[u8]) -> Vec<u8> {
    let cksum = body.iter().fold(0u8, |acc, &b| acc ^ b);
    let mut out = Vec::with_capacity(body.len().saturating_add(4));
    out.push(b'$');
    out.extend_from_slice(body);
    out.push(b'*');
    for nib in [cksum >> 4, cksum & 0x0F] {
        out.push(if nib < 10 { b'0' + nib } else { b'A' + (nib - 10) });
    }
    out
}

#[test]
fn parses_hhmmss_no_fraction() {
    let t = UtcTime::parse(b"123519", 0).unwrap();
    assert_eq!(t, UtcTime { hour: 12, minute: 35, second: 19, millisecond: 0 });
}

#[test]
fn parses_hhmmss_with_fraction() {
    let t = UtcTime::parse(b"092750.123", 0).unwrap();
    assert_eq!(t, UtcTime { hour: 9, minute: 27, second: 50, millisecond: 123 });
}

#[test]
fn parses_hhmmss_with_short_fraction_pads() {
    let t = UtcTime::parse(b"000000.1", 0).unwrap();
    assert_eq!(t.millisecond, 100);
}

#[test]
fn allows_leap_second() {
    let t = UtcTime::parse(b"235960", 0).unwrap();
    assert_eq!(t.second, 60);
}

#[test]
fn rejects_bad_length() {
    match UtcTime::parse(b"12345", 2) {
        Err(DecodeError::InvalidUtcTime { field_index: 2 }) => {}
        other => panic!("expected InvalidUtcTime, got {other:?}"),
    }
}

#[test]
fn rejects_out_of_range_hour() {
    match UtcTime::parse(b"243000", 0) {
        Err(DecodeError::InvalidUtcTime { .. }) => {}
        other => panic!("expected InvalidUtcTime, got {other:?}"),
    }
}

#[test]
fn utc_time_fraction_edge_cases() {
    assert_eq!(UtcTime::parse(b"120000.98765", 1).unwrap().millisecond, 987);
    assert_eq!(UtcTime::parse(b"120000.", 1).unwrap().millisecond, 0);
    assert_eq!(UtcTime::parse(b"126000", 1), Err(DecodeError::InvalidUtcTime { field_index: 1 }));
    assert_eq!(UtcTime::parse(b"120061", 1), Err(DecodeError::InvalidUtcTime { field_index: 1 }));
    assert_eq!(UtcTime::parse(b"12a000", 1), Err(DecodeError::InvalidUtcTime { field_index: 1 }));
    assert_eq!(UtcTime::parse(b"120000.1x", 1), Err(DecodeError::InvalidUtcTime { field_index: 1 }));
}

#[test]
fn utc_date_parses_ddmmyy() {
    let d = UtcDate::parse(b"230394", 8).unwrap();
    assert_eq!(d.day, 23);
    assert_eq!(d.month, 3);
    assert_eq!(d.year_yy, 94);
}

#[test]
fn utc_date_rejects_invalid_month() {
    match UtcDate::parse(b"231394", 8) {
        Err(DecodeError::InvalidUtcTime { field_index: 8 }) => {}
        other => panic!("expected InvalidUtcTime, got {other:?}"),
    }
}

#[test]
fn utc_date_rejects_wrong_length() {
    match UtcDate::parse(b"23039", 8) {
        Err(DecodeError::InvalidUtcTime { field_index: 8 }) => {}
        other => panic!("expected InvalidUtcTime, got {other:?}"),
    }
}

#[test]
fn utc_date_rejects_zero_day() {
    match UtcDate::parse(b"000394", 8) {
        Err(DecodeError::InvalidUtcTime { field_index: 8 }) => {}
        other => panic!("expected InvalidUtcTime, got {other:?}"),
    }
}

#[test]
fn maps_active_and_void() {
    assert_eq!(DataStatus::from_byte(b'A'), DataStatus::Active);
    assert_eq!(DataStatus::from_byte(b'a'), DataStatus::Active);
    assert_eq!(DataStatus::from_byte(b'V'), DataStatus::Void);
    assert_eq!(DataStatus::from_byte(b'v'), DataStatus::Void);
}

#[test]
fn unknown_byte_preserved() {
    assert_eq!(DataStatus::from_byte(b'X'), DataStatus::Other(b'X'));
}

#[test]
fn target_status_maps_letters() {
    assert_eq!(TargetStatus::from_byte(b'L'), TargetStatus::Lost);
    assert_eq!(TargetStatus::from_byte(b'Q'), TargetStatus::Query);
    assert_eq!(TargetStatus::from_byte(b'T'), TargetStatus::Tracking);
    assert_eq!(TargetStatus::from_byte(b'Z'), TargetStatus::Other(b'Z'));
}

#[test]
fn decode_gga_various_fix_qualities() {
    for (byte, expected) in [
        (b'0', GgaFixQuality::Invalid),
        (b'1', GgaFixQuality::GpsFix),
        (b'2', GgaFixQuality::DgpsFix),
        (b'3', GgaFixQuality::PpsFix),
        (b'4', GgaFixQuality::RtkFixed),
        (b'5', GgaFixQuality::RtkFloat),
        (b'6', GgaFixQuality::DeadReckoning),
        (b'7', GgaFixQuality::ManualInput),
        (b'8', GgaFixQuality::Simulator),
        (b'9', GgaFixQuality::Other(b'9')),
    ] {
        assert_eq!(GgaFixQuality::from_byte(byte), expected);
    }
}

#[test]
fn decode_vtg_covers_every_recognized_mode() {
    for (byte, expected) in [
        (b'A', VtgMode::Autonomous),
        (b'D', VtgMode::Differential),
        (b'E', VtgMode::Estimated),
        (b'N', VtgMode::NotValid),
        (b'M', VtgMode::Manual),
        (b'S', VtgMode::Simulator),
        (b'X', VtgMode::Other(b'X')),
    ] {
        assert_eq!(VtgMode::from_byte(byte), expected);
    }
}

#[test]
fn decode_vtg_mode_is_case_insensitive() {
    assert_eq!(VtgMode::from_byte(b'a'), VtgMode::Autonomous);
    assert_eq!(VtgMode::from_byte(b'd'), VtgMode::Differential);
}

#[test]
fn rmc_nav_status_covers_all_recognized_letters() {
    for (byte, expected) in [
        (b'S', RmcNavStatus::Safe),
        (b'C', RmcNavStatus::Caution),
        (b'U', RmcNavStatus::Unsafe),
        (b'V', RmcNavStatus::NotValid),
        (b'X', RmcNavStatus::Other(b'X')),
    ] {
        assert_eq!(RmcNavStatus::from_byte(byte), expected);
    }
}

#[test]
fn target_codes_map_letters() {
    assert_eq!(AngleReference::from_byte(b'T'), AngleReference::True);
    assert_eq!(AngleReference::from_byte(b'R'), AngleReference::Relative);
    assert_eq!(AngleReference::from_byte(b'?'), AngleReference::Other(b'?'));
    assert_eq!(DistanceUnits::from_byte(b'K'), DistanceUnits::Kilometers);
    assert_eq!(DistanceUnits::from_byte(b'N'), DistanceUnits::Nautical);
    assert_eq!(DistanceUnits::from_byte(b'S'), DistanceUnits::Statute);
    assert_eq!(DistanceUnits::from_byte(b'x'), DistanceUnits::Other(b'x'));
    assert_eq!(AcquisitionType::from_byte(b'A'), AcquisitionType::Automatic);
    assert_eq!(AcquisitionType::from_byte(b'M'), AcquisitionType::Manual);
    assert_eq!(AcquisitionType::from_byte(b'R'), AcquisitionType::Reported);
    assert_eq!(AcquisitionType::from_byte(b'Q'), AcquisitionType::Other(b'Q'));
}

#[test]
fn layout_from_str_rphx_matches_default() {
    let parsed: PsxnLayout = "rphx".parse().expect("parse");
    assert_eq!(parsed.slots[0], PsxnSlot::Roll);
    assert_eq!(parsed.slots[1], PsxnSlot::Pitch);
    assert_eq!(parsed.slots[2], PsxnSlot::Heave);
    assert_eq!(parsed.slots[3], PsxnSlot::Ignored);
    assert_eq!(parsed.slots[4], PsxnSlot::Ignored);
    assert_eq!(parsed.slots[5], PsxnSlot::Ignored);
    assert!(!parsed.raw_radians);
    assert_eq!(parsed, PsxnLayout::default());
}

#[test]
fn layout_from_str_hippy_variants() {
    let parsed: PsxnLayout = "sqhx".parse().expect("parse");
    assert_eq!(parsed.slots[0], PsxnSlot::RollSineEncoded);
    assert_eq!(parsed.slots[1], PsxnSlot::PitchSineEncoded);
    assert_eq!(parsed.slots[2], PsxnSlot::Heave);
}

#[test]
fn layout_from_str_flag_1_sets_raw_radians_anywhere_in_string() {
    for s in ["rphx1", "1rphx", "rp1hx"] {
        let parsed: PsxnLayout = s.parse().expect("parse");
        assert!(parsed.raw_radians, "for input {s:?}");
    }
}

#[test]
fn layout_from_str_rejects_unknown_char() {
    match "rpz".parse::<PsxnLayout>() {
        Err(PsxnLayoutParseError::UnknownChar('z')) => {}
        other => panic!("expected UnknownChar('z'), got {other:?}"),
    }
}

#[test]
fn layout_from_str_rejects_too_many_slots() {
    match "rphxrph".parse::<PsxnLayout>() {
        Err(PsxnLayoutParseError::TooManySlots) => {}
        other => panic!("expected TooManySlots, got {other:?}"),
    }
}

#[test]
fn layout_from_str_case_insensitive() {
    let parsed: PsxnLayout = "RPHX".parse().expect("parse");
    assert_eq!(parsed.slots[0], PsxnSlot::Roll);
    assert_eq!(parsed.slots[1], PsxnSlot::Pitch);
}

#[test]
fn layout_from_str_short_strings_pad_with_ignored() {
    let parsed = PsxnLayout::parse("h").expect("parse");
    assert_eq!(parsed.slots, [PsxnSlot::Heave, PsxnSlot::Ignored, PsxnSlot::Ignored, PsxnSlot::Ignored, PsxnSlot::Ignored, PsxnSlot::Ignored]);
    assert_eq!(PsxnLayout::parse("é"), Err(PsxnLayoutParseError::UnknownChar('é')));
}

#[test]
fn prdid_dialect_default_is_unknown() {
    assert_eq!(PrdidDialect::default(), PrdidDialect::Unknown);
}

#[test]
fn decode_options_builders_set_their_field() {
    let layout: PsxnLayout = "sqhx1".parse().unwrap();
    let opts = DecodeOptions::default().with_psxn_layout(layout).with_prdid_dialect(PrdidDialect::PitchRollHeading);
    assert_eq!(opts.psxn_layout, layout);
    assert_eq!(opts.prdid_dialect, PrdidDialect::PitchRollHeading);
    assert_eq!(DecodeOptions::default().psxn_layout, PsxnLayout::default());
}

#[test]
fn prdid_envelope_has_no_talker() {
    let bytes = build(b"PRDID,1.0,2.0,180.0");
    let raw = parse_raw(&bytes);
    assert_eq!(raw.talker, None, "proprietary → no standardised talker");
    assert_eq!(raw.sentence_type, b"PRDID");
}

#[test]
fn psxn_envelope_has_no_talker() {
    let bytes = build(b"PSXN,10,tok,0.0,0.0,0.0,0,0,0");
    let raw = parse_raw(&bytes);
    assert_eq!(raw.talker, None, "proprietary → no standardised talker");
    assert_eq!(raw.sentence_type, b"PSXN");
}

#[test]
fn empty_field_is_none() {
    assert!(non_empty(b"").is_none());
    assert_eq!(non_empty(b"abc"), Some(b"abc".as_slice()));
}

#[test]
fn optional_string_parses_and_handles_empty() {
    assert_eq!(optional_string(b"", 10).unwrap(), None);
    assert_eq!(optional_string(b"TGT1", 10).unwrap(), Some("TGT1".to_string()));
    assert!(optional_string(&[0xFF, 0xFE], 10).is_err());
}

#[test]
fn optional_integers_parse_and_report_their_field() {
    assert_eq!(optional_u8(b"", 3), Ok(None));
    assert_eq!(optional_u8(b"255", 3), Ok(Some(255)));
    assert_eq!(optional_u8(b"256", 3), Err(DecodeError::InvalidNumber { field_index: 3 }));
    assert_eq!(optional_u16(b"65535", 4), Ok(Some(65535)));
    assert_eq!(optional_u16(b"-1", 4), Err(DecodeError::InvalidNumber { field_index: 4 }));
    assert_eq!(optional_string(&[0xFF], 7), Err(DecodeError::InvalidUtf8 { field_index: 7 }));
}

#[test]
fn into_inner_returns_underlying_envelope_parser() {
    let parser: Nmea0183Parser<OneShot> = Nmea0183Parser::new(OneShot::new());
    let _one_shot: OneShot = parser.into_inner();
}

#[test]
fn parser_options_can_be_replaced() {
    let mut parser: Nmea0183Parser<Streaming> = Nmea0183Parser::default();
    assert_eq!(*parser.options(), DecodeOptions::default());
    let opts = DecodeOptions::default().with_prdid_dialect(PrdidDialect::RollPitchHeading);
    parser.set_options(opts);
    assert_eq!(parser.options().prdid_dialect, PrdidDialect::RollPitchHeading);
    let mut p = Parser::streaming_with_options(opts);
    assert_eq!(p.options().prdid_dialect, PrdidDialect::RollPitchHeading);
    p.set_options(DecodeOptions::default());
    assert_eq!(*p.options(), DecodeOptions::default());
}

#[test]
fn layout_string_errors_follow_the_first_failing_position() {
    assert_eq!(PsxnLayout::parse("rphxsqz"), Err(PsxnLayoutParseError::TooManySlots));
    assert_eq!(PsxnLayout::parse("rphxsz1"), Err(PsxnLayoutParseError::UnknownChar('z')));
    let l = PsxnLayout::parse("R1pH").expect("parse");
    assert!(l.raw_radians);
    assert_eq!(l.slots, [PsxnSlot::Roll, PsxnSlot::Pitch, PsxnSlot::Heave, PsxnSlot::Ignored, PsxnSlot::Ignored, PsxnSlot::Ignored]);
}
