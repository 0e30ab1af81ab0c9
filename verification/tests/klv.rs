//! KLV: BER lengths, the ST 0601 local set, and the tag registry.

use marlin::klv::ber::{ber_decode_len, ber_encode_len};
use marlin::klv::checksum::bcc;
use marlin::klv::error::Error;
use marlin::klv::st0601::{decode, encode, encode_to_bytes, precision_timestamp, St0601, UAS_LS_KEY};
use marlin::klv::tags::{tag_name, tag_number, tags};

fn round_trip(set: &St0601) -> St0601 {
    let mut buf = Vec::new();
    encode(set, &mut buf).expect("encode");
    decode(&buf).expect("decode")
}

#[test]
fn short_form_encodes_single_byte() {
    let mut out = Vec::new();
    ber_encode_len(5, &mut out);
    assert_eq!(out, [0x05]);
}

#[test]
fn short_form_boundary_127_is_single_byte() {
    let mut out = Vec::new();
    ber_encode_len(127, &mut out);
    assert_eq!(out, [0x7F]);
}

#[test]
fn long_form_128_is_two_bytes() {
    let mut out = Vec::new();
    ber_encode_len(128, &mut out);
    assert_eq!(out, [0x81, 0x80]);
}

#[test]
fn long_form_200_is_81_c8() {
    let mut out = Vec::new();
    ber_encode_len(200, &mut out);
    assert_eq!(out, [0x81, 0xC8]);
}

#[test]
fn long_form_300_is_82_01_2c() {
    let mut out = Vec::new();
    ber_encode_len(300, &mut out);
    assert_eq!(out, [0x82, 0x01, 0x2C]);
}

#[test]
fn decode_short_form_returns_value_and_next_offset() {
    let (len, next) = ber_decode_len(&[0x05], 0).expect("short-form length");
    assert_eq!(len, 5);
    assert_eq!(next, 1);
}

#[test]
fn decode_long_form_300_round_trips() {
    let mut buf = Vec::new();
    ber_encode_len(300, &mut buf);
    let (len, next) = ber_decode_len(&buf, 0).expect("long-form length");
    assert_eq!(len, 300);
    assert_eq!(next, 3);
}

#[test]
fn decode_empty_input_is_truncated() {
    let err = ber_decode_len(&[], 0).expect_err("no length byte present");
    assert_eq!(err, Error::Truncated { offset: 0, needed: 1, available: 0 });
}

#[test]
fn decode_long_form_missing_length_bytes_is_truncated() {
    let err = ber_decode_len(&[0x82, 0x01], 0).expect_err("missing one length byte");
    assert!(matches!(err, Error::Truncated { .. }), "got {err:?}");
}

#[test]
fn decode_oversized_length_count_is_overflow() {
    let err = ber_decode_len(&[0x89, 0, 0, 0, 0, 0, 0, 0, 0, 0], 0).expect_err("9 length bytes overflow usize");
    assert_eq!(err, Error::LengthOverflow);
}

#[test]
fn decode_indefinite_length_is_rejected() {
    let err = ber_decode_len(&[0x80], 0).expect_err("indefinite length illegal");
    assert_eq!(err, Error::LengthOverflow);
}

#[test]
fn ber_round_trips_at_form_boundaries_and_offsets() {
    for len in [0usize, 1, 127, 128, 255, 256, 65_535, 65_536, 1 << 24, usize::MAX] {
        let mut buf = vec![0xAA, 0xBB];
        ber_encode_len(len, &mut buf);
        assert_eq!(&buf[..2], &[0xAA, 0xBB]);
        let (back, next) = ber_decode_len(&buf, 2).unwrap();
        assert_eq!(back, len);
        assert_eq!(next, buf.len());
    }
}

#[test]
fn ber_long_form_uses_minimal_octets() {
    let mut out = Vec::new();
    ber_encode_len(65_536, &mut out);
    assert_eq!(out, [0x83, 0x01, 0x00, 0x00]);
    let err = ber_decode_len(&[0x05], 1).expect_err("offset past the end");
    assert_eq!(err, Error::Truncated { offset: 1, needed: 1, available: 0 });
}

#[test]
fn bcc_sums_big_endian_words_with_odd_tail() {
    assert_eq!(bcc(&[]), 0);
    assert_eq!(bcc(&[0x12]), 0x1200);
    assert_eq!(bcc(&[0x12, 0x34, 0x01]), 0x1334);
    assert_eq!(bcc(&[0xFF, 0xFF, 0x00, 0x02]), 0x0001);
}

#[test]
fn uas_ls_key_first_and_last_bytes() {
    assert_eq!(UAS_LS_KEY[0], 0x06);
    assert_eq!(UAS_LS_KEY[15], 0x00);
}

#[test]
fn timestamp_and_version_encode_byte_exact() {
    let set = St0601 { timestamp_us: 0x0001_0203_0405_0607, version: Some(0x0B), ..St0601::default() };
    let mut out = Vec::new();
    encode(&set, &mut out).expect("encode");
    assert_eq!(
        out,
        vec![
            0x06, 0x0E, 0x2B, 0x34, 0x02, 0x0B, 0x01, 0x01, 0x0E, 0x01, 0x03, 0x01, 0x01, 0x00, 0x00, 0x00,
            0x11, 0x02, 0x08, 0x00, 0x01, 0x02, 0x03, 0x04, 0x05, 0x06, 0x07, 0x41, 0x01, 0x0B, 0x01, 0x02,
            0x71, 0xAC,
        ]
    );
}

#[test]
fn encode_starts_with_uas_ls_key() {
    let mut out = Vec::new();
    encode(&St0601::default(), &mut out).expect("encode");
    assert_eq!(&out[..16], &UAS_LS_KEY);
}

#[test]
fn checksum_item_is_last_four_bytes() {
    let set = St0601 { timestamp_us: 0x0001_0203_0405_0607, version: Some(0x0B), ..St0601::default() };
    let mut out = Vec::new();
    encode(&set, &mut out).expect("encode");
    let tail = &out[out.len() - 4..];
    assert_eq!(tail, &[0x01, 0x02, 0x71, 0xAC], "tag 1, len 2, big-endian bcc");
}

#[test]
fn encode_appends_without_disturbing_existing_bytes() {
    let mut out = vec![0xDE, 0xAD];
    encode(&St0601::default(), &mut out).expect("encode");
    assert_eq!(&out[..2], &[0xDE, 0xAD], "pre-existing bytes untouched");
    assert_eq!(&out[2..18], &UAS_LS_KEY, "key written after existing bytes");
}

#[test]
fn round_trip_preserves_all_typed_fields() {
    let set = St0601 {
        timestamp_us: 0x1122_3344_5566_7788,
        version: Some(11),
        platform_heading: Some(0xBEEF),
        platform_pitch: Some(-1000),
        ..Default::default()
    };
    let mut buf = Vec::new();
    encode(&set, &mut buf).expect("encode");
    let decoded = decode(&buf).expect("decode");
    assert_eq!(decoded, set);
}

#[test]
fn unknown_tags_survive_round_trip_in_order() {
    let set = St0601 {
        timestamp_us: 7,
        unknown: vec![(0x70, vec![0xDE, 0xAD]), (0x71, vec![0x01])],
        ..Default::default()
    };
    let mut buf = Vec::new();
    encode(&set, &mut buf).expect("encode");
    let decoded = decode(&buf).expect("decode");
    assert_eq!(
        decoded.unknown,
        vec![(0x70, vec![0xDE, 0xAD]), (0x71, vec![0x01])],
        "unknown tags preserved in input order"
    );
    assert_eq!(decoded, set);
}

#[test]
fn corrupted_checksum_is_rejected() {
    let set = St0601 { timestamp_us: 42, version: Some(1), ..St0601::default() };
    let mut buf = Vec::new();
    encode(&set, &mut buf).expect("encode");
    let last = buf.len() - 1;
    buf[last] ^= 0xFF;
    let err = decode(&buf).expect_err("checksum no longer matches");
    assert!(matches!(err, Error::BadChecksum { .. }), "got {err:?}");
}

#[test]
fn wrong_key_is_bad_key() {
    let set = St0601 { timestamp_us: 1, ..St0601::default() };
    let mut buf = Vec::new();
    encode(&set, &mut buf).expect("encode");
    buf[0] = 0x00;
    assert_eq!(decode(&buf), Err(Error::BadKey));
}

#[test]
fn tag_65_wrong_length_falls_back_to_unknown() {
    let mut packet = UAS_LS_KEY.to_vec();
    let mut items = vec![2u8, 0x08];
    items.extend_from_slice(&7u64.to_be_bytes());
    items.extend_from_slice(&[0x41, 0x02, 0x0B, 0x00]);
    let value_len = items.len() + 4;
    packet.push(value_len as u8);
    packet.append(&mut items);
    packet.push(1);
    packet.push(2);
    let checksum = bcc(&packet);
    packet.extend_from_slice(&checksum.to_be_bytes());

    let decoded = decode(&packet).expect("decode");
    assert_eq!(decoded.version, None);
    assert_eq!(decoded.unknown, vec![(65, vec![0x0B, 0x00])]);

    let mut re_encoded = Vec::new();
    encode(&decoded, &mut re_encoded).expect("re-encode");
    assert_eq!(re_encoded, packet, "tag 65 unknown bytes must re-encode verbatim");
}

#[test]
fn malformed_inputs_error_without_panicking() {
    let wrong_key: [u8; 16] = [0xFF; 16];
    let cases: Vec<Vec<u8>> = vec![
        vec![],
        vec![0x06, 0x0E, 0x2B],
        UAS_LS_KEY.to_vec(),
        wrong_key.to_vec(),
        {
            let mut v = UAS_LS_KEY.to_vec();
            v.push(0x05);
            v
        },
        {
            let mut v = UAS_LS_KEY.to_vec();
            v.extend_from_slice(&[0x03, 0x02, 0x08, 0x00]);
            v
        },
        {
            let mut v = UAS_LS_KEY.to_vec();
            v.push(0x80);
            v
        },
        {
            let mut v = UAS_LS_KEY.to_vec();
            v.extend_from_slice(&[0x82, 0x01]);
            v
        },
    ];
    for case in &cases {
        assert!(decode(case).is_err(), "expected Err, got Ok for {case:02X?}");
    }
}

#[test]
fn present_timestamp_is_returned_without_full_decode() {
    let set = St0601 { timestamp_us: 0x0102_0304_0506_0708, version: Some(1), ..St0601::default() };
    let mut buf = Vec::new();
    encode(&set, &mut buf).expect("encode");
    assert_eq!(precision_timestamp(&buf), Ok(Some(0x0102_0304_0506_0708)));
}

#[test]
fn absent_timestamp_returns_none() {
    let mut packet = UAS_LS_KEY.to_vec();
    let mut items = vec![65u8, 0x01, 0x09];
    let value_len = items.len() + 4;
    packet.push(value_len as u8);
    packet.append(&mut items);
    packet.push(1);
    packet.push(2);
    let checksum = bcc(&packet);
    packet.extend_from_slice(&checksum.to_be_bytes());
    assert_eq!(precision_timestamp(&packet), Ok(None));
}

#[test]
fn truncated_input_errors_without_panicking() {
    assert!(precision_timestamp(&[0x06, 0x0E]).is_err());
    assert!(precision_timestamp(&UAS_LS_KEY).is_err());
}

#[test]
fn encode_to_bytes_matches_encode_into_vec() {
    let set = St0601 { timestamp_us: 5, version: Some(1), ..St0601::default() };
    let mut vec_out = Vec::new();
    encode(&set, &mut vec_out).expect("encode");
    let bytes_out = encode_to_bytes(&set).expect("encode_to_bytes");
    assert_eq!(bytes_out.as_ref(), vec_out.as_slice());
}

#[test]
fn every_typed_field_round_trips() {
    let set = St0601 {
        timestamp_us: u64::MAX,
        version: Some(19),
        platform_heading: Some(1),
        platform_pitch: Some(i16::MIN + 1),
        platform_roll: Some(-5),
        platform_true_airspeed: Some(200),
        sensor_latitude: Some(-123_456),
        sensor_longitude: Some(i32::MAX),
        sensor_true_altitude: Some(65_535),
        sensor_horizontal_fov: Some(4),
        sensor_vertical_fov: Some(5),
        sensor_relative_azimuth: Some(u32::MAX),
        sensor_relative_elevation: Some(-7),
        sensor_relative_roll: Some(8),
        slant_range: Some(9),
        target_width: Some(10),
        frame_center_latitude: Some(11),
        frame_center_longitude: Some(-12),
        frame_center_elevation: Some(13),
        target_location_latitude: Some(14),
        target_location_longitude: Some(15),
        target_location_elevation: Some(16),
        unknown: vec![(3, vec![]), (0x7F, vec![1, 2, 3])],
    };
    assert_eq!(round_trip(&set), set);
}

#[test]
fn wrong_length_typed_tag_falls_back_to_unknown() {
    let mut set = St0601 { timestamp_us: 1, ..Default::default() };
    set.unknown.push((7, vec![0x01, 0x02, 0x03]));
    let back = round_trip(&set);
    assert_eq!(back.platform_roll, None);
    assert_eq!(back.unknown, vec![(7, vec![0x01, 0x02, 0x03])]);
}

#[test]
fn roll_sentinel_raw_value_round_trips() {
    let set = St0601 { timestamp_us: 1, platform_roll: Some(i16::MIN), ..Default::default() };
    let back = round_trip(&set);
    assert_eq!(back.platform_roll, Some(i16::MIN));
}

#[test]
fn sensor_latitude_sentinel_raw_value_round_trips() {
    let set = St0601 { timestamp_us: 1, sensor_latitude: Some(i32::MIN), ..Default::default() };
    let back = round_trip(&set);
    assert_eq!(back.sensor_latitude, Some(i32::MIN));
}

#[test]
fn covers_all_22_decodable_tags_in_ascending_order() {
    let all = tags();
    assert_eq!(all.len(), 22, "20 scaled + Tag 2 + Tag 65");
    assert_eq!(all.first().map(|t| t.number), Some(2), "Tag 2 leads");
    assert_eq!(all.last().map(|t| t.number), Some(65), "Tag 65 trails");
    assert!(all.windows(2).all(|w| w[0].number < w[1].number), "strictly ascending tag numbers");
    assert!(all.iter().all(|t| t.number != 1), "Tag 1 (checksum) is framing, never a field");
}

#[test]
fn framing_tags_carry_expected_names_and_units() {
    assert_eq!(tag_name(2), Some("timestamp"));
    assert_eq!(tag_name(65), Some("version"));
    let all = tags();
    let version = all.iter().find(|t| t.number == 65).expect("tag 65");
    assert_eq!(version.unit, None, "version is unit-less");
    let timestamp = all.iter().find(|t| t.number == 2).expect("tag 2");
    assert_eq!(timestamp.unit, Some("microseconds"));
}

#[test]
fn scaled_tags_all_carry_a_unit() {
    for t in tags().iter().filter(|t| t.number != 65) {
        assert!(t.unit.is_some(), "tag {} has a unit", t.number);
    }
}

#[test]
fn name_and_number_lookups_are_inverse() {
    for t in tags() {
        assert_eq!(tag_number(t.name), Some(t.number), "name -> number");
        assert_eq!(tag_name(t.number), Some(t.name), "number -> name");
    }
}

#[test]
fn sample_scaled_tag_is_named_from_the_field() {
    assert_eq!(tag_number("sensor_latitude"), Some(13));
    assert_eq!(tag_name(13), Some("sensor_latitude"));
}

#[test]
fn absent_names_and_numbers_return_none() {
    assert_eq!(tag_number("not_a_tag"), None);
    assert_eq!(tag_number("sensor_latitude_degrees"), None, "accessor, not field");
    assert_eq!(tag_name(1), None, "checksum tag is not a field");
    assert_eq!(tag_name(99), None);
}

#[test]
fn timestamp_peek_reads_back_every_encoded_timestamp() {
    for ts in [0u64, 1, 0x0102_0304_0506_0708, u64::MAX] {
        let set = St0601 { timestamp_us: ts, unknown: vec![(2, vec![9; 8])], ..St0601::default() };
        let mut buf = Vec::new();
        encode(&set, &mut buf).unwrap();
        assert_eq!(precision_timestamp(&buf), Ok(Some(ts)));
    }
}

#[test]
fn a_set_without_a_timestamp_is_refused() {
    let mut packet = UAS_LS_KEY.to_vec();
    let mut items = vec![65u8, 0x01, 0x09];
    let value_len = items.len() + 4;
    packet.push(value_len as u8);
    packet.append(&mut items);
    packet.push(1);
    packet.push(2);
    let checksum = bcc(&packet);
    packet.extend_from_slice(&checksum.to_be_bytes());
    assert_eq!(decode(&packet), Err(Error::MissingTimestamp));
}

#[test]
fn an_item_after_the_checksum_is_refused() {
    let mut packet = UAS_LS_KEY.to_vec();
    let mut items = vec![2u8, 0x08];
    items.extend_from_slice(&7u64.to_be_bytes());
    // Tag 1 item (4 bytes) then a Tag 65 item (3 bytes) inside the outer length.
    let value_len = items.len() + 4 + 3;
    packet.push(value_len as u8);
    packet.append(&mut items);
    packet.push(1);
    packet.push(2);
    let checksum = bcc(&packet);
    packet.extend_from_slice(&checksum.to_be_bytes());
    packet.extend_from_slice(&[0x41, 0x01, 0x09]);
    assert_eq!(decode(&packet), Err(Error::ChecksumNotLast));
}

#[test]
fn a_corrupted_set_without_a_timestamp_reports_the_checksum_first() {
    let mut packet = UAS_LS_KEY.to_vec();
    packet.extend_from_slice(&[0x07, 0x41, 0x01, 0x09, 0x01, 0x02]);
    let checksum = bcc(&packet) ^ 0x0001;
    packet.extend_from_slice(&checksum.to_be_bytes());
    assert!(matches!(decode(&packet), Err(Error::BadChecksum { .. })));
}

#[test]
fn timestamp_peek_ignores_the_checksum_bytes() {
    let set = St0601 { timestamp_us: 0x0102_0304_0506_0708, version: Some(1), ..St0601::default() };
    let mut buf = Vec::new();
    encode(&set, &mut buf).expect("encode");
    let n = buf.len();
    buf[n - 2] ^= 0x5A;
    buf[n - 1] ^= 0xA5;
    assert_eq!(precision_timestamp(&buf), Ok(Some(0x0102_0304_0506_0708)));
}

#[test]
fn a_wrong_checksum_reports_both_values() {
    let set = St0601 { timestamp_us: 42, version: Some(1), ..St0601::default() };
    let mut buf = Vec::new();
    encode(&set, &mut buf).expect("encode");
    let n = buf.len();
    let computed = bcc(&buf[..n - 2]);
    buf[n - 1] ^= 0xFF;
    let embedded = u16::from_be_bytes([buf[n - 2], buf[n - 1]]);
    assert_eq!(decode(&buf), Err(Error::BadChecksum { computed, embedded }));
}

#[test]
fn encode_appends_key_length_items_and_checksum() {
    let set = St0601 { timestamp_us: 0x1122_3344_5566_7788, ..St0601::default() };
    let mut out = vec![0xAA, 0xBB];
    encode(&set, &mut out).expect("encode");
    assert_eq!(&out[..2], &[0xAA, 0xBB]);
    let e = &out[2..];
    assert_eq!(&e[..16], &UAS_LS_KEY);
    // Items: Tag 2 (10 bytes), then the 4-byte Tag 1 item.
    assert_eq!(e[16], 14);
    assert_eq!(&e[17..19], &[0x02, 0x08]);
    assert_eq!(&e[19..27], &0x1122_3344_5566_7788u64.to_be_bytes());
    assert_eq!(&e[27..29], &[0x01, 0x02]);
    assert_eq!(e.len(), 31);
    assert_eq!(u16::from_be_bytes([e[29], e[30]]), bcc(&e[..29]));
}
