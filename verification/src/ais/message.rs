//! Dispatch a decoded AIS bit stream to its typed message decoder.

use vstd::prelude::*;
use vstd::arithmetic::power2::lemma2_to64;
use crate::ais::aivdm::{parse_aivdm_wrapper, wrapper_spec};
use crate::ais::armor::{all_armor, first_invalid, packs_armor};
use crate::ais::bit_reader::BitReader;
use crate::envelope::RawSentence;
use crate::ais::error::AisError;
use crate::ais::extended_position_report_b::{
    decode_extended_position_report_b, extended_position_report_b_matches, ExtendedPositionReportB,
    EXTENDED_POSITION_REPORT_B_BITS,
};
use crate::ais::fields::{read_u8, uf};
use crate::ais::position_report_a::{decode_position_report_a, position_report_a_of, PositionReportA};
use crate::ais::position_report_b::{decode_position_report_b, position_report_b_of, PositionReportB};
use crate::ais::static_data_b::{
    decode_static_data_b, part_a_matches, part_b_matches, StaticDataB, StaticDataB24A, StaticDataB24B,
    STATIC_DATA_B_24A_BITS, STATIC_DATA_B_24B_BITS,
};
use crate::ais::static_voyage_a::{
    decode_static_and_voyage_a, static_and_voyage_a_matches, StaticAndVoyageA, STATIC_VOYAGE_A_BITS,
};

verus! {

/// A decoded AIS message with its provenance flag.
#[derive(Debug, Clone, PartialEq, Eq)]
pub struct AisMessage {
    /// `true` when the sentence was `!AIVDO` (own ship).
    pub is_own_ship: bool,
    /// The typed message.
    pub body: AisMessageBody,
}

/// The typed body of an AIS message, by message type.
#[derive(Debug, Clone, PartialEq, Eq)]
#[non_exhaustive]
pub enum AisMessageBody {
    /// Type 1 — scheduled position report (Class A).
    Type1(PositionReportA),
    /// Type 2 — assigned scheduled position report (Class A).
    Type2(PositionReportA),
    /// Type 3 — special position report (Class A).
    Type3(PositionReportA),
    /// Type 5 — static and voyage-related data.
    Type5(StaticAndVoyageA),
    /// Type 18 — standard Class B position report.
    Type18(PositionReportB),
    /// Type 19 — extended Class B position report.
    Type19(ExtendedPositionReportB),
    /// Type 24 part A.
    Type24A(StaticDataB24A),
    /// Type 24 part B.
    Type24B(StaticDataB24B),
    /// Any other type (and Type 24 reserved parts): the raw bit stream.
    Other {
        /// The 6-bit message type.
        msg_type: u8,
        /// The packed bit stream.
        raw_payload: Vec<u8>,
        /// Number of valid bits in `raw_payload`.
        total_bits: usize,
    },
}

/// The body a message of type `ty` would carry undecoded.
pub open spec fn is_other(body: AisMessageBody, ty: nat, b: Seq<u8>, t: int) -> bool {
    body matches AisMessageBody::Other { msg_type, raw_payload, total_bits } && msg_type == ty && raw_payload@ == b
        && total_bits == t
}

/// `res` is what `decode_message` owes for the stream `b` of `t` bits.
pub open spec fn message_matches(res: Result<AisMessage, AisError>, b: Seq<u8>, t: int, own: bool) -> bool {
    let ty = uf(b, t, 0, 6);
    if t < 6 {
        res matches Err(e) && e == AisError::PayloadTooShort
    } else if (ty == 1 || ty == 2 || ty == 3) && t < 168 {
        res matches Err(e) && e == AisError::PayloadTooShort
    } else if ty == 5 && t < STATIC_VOYAGE_A_BITS {
        res matches Err(e) && e == AisError::PayloadTooShort
    } else if ty == 18 && t < 168 {
        res matches Err(e) && e == AisError::PayloadTooShort
    } else if ty == 19 && t < EXTENDED_POSITION_REPORT_B_BITS {
        res matches Err(e) && e == AisError::PayloadTooShort
    } else if ty == 24 && (t < STATIC_DATA_B_24A_BITS || (uf(b, t, 38, 2) == 1 && t < STATIC_DATA_B_24B_BITS)) {
        res matches Err(e) && e == AisError::PayloadTooShort
    } else {
        res matches Ok(m) && m.is_own_ship == own && {
            let body = m.body;
            if ty == 1 {
                body == AisMessageBody::Type1(position_report_a_of(b, t))
            } else if ty == 2 {
                body == AisMessageBody::Type2(position_report_a_of(b, t))
            } else if ty == 3 {
                body == AisMessageBody::Type3(position_report_a_of(b, t))
            } else if ty == 5 {
                body matches AisMessageBody::Type5(s) && static_and_voyage_a_matches(s, b, t)
            } else if ty == 18 {
                body == AisMessageBody::Type18(position_report_b_of(b, t))
            } else if ty == 19 {
                body matches AisMessageBody::Type19(s) && extended_position_report_b_matches(s, b, t)
            } else if ty == 24 && uf(b, t, 38, 2) == 0 {
                body matches AisMessageBody::Type24A(s) && part_a_matches(s, b, t)
            } else if ty == 24 && uf(b, t, 38, 2) == 1 {
                body matches AisMessageBody::Type24B(s) && part_b_matches(s, b, t)
            } else {
                is_other(body, ty, b, t)
            }
        }
    }
}

fn other_payload(msg_type: u8, bits: &[u8], total_bits: usize) -> (body: AisMessageBody)
    ensures
        is_other(body, msg_type as nat, bits@, total_bits as int),
{
    AisMessageBody::Other { msg_type, raw_payload: vstd::slice::slice_to_vec(bits), total_bits }
}

/// Decode a bit stream (as produced by `armor::decode`) into a typed
/// message, dispatching on the 6-bit message type. Unsupported types come
/// back as `AisMessageBody::Other` with the raw stream.
pub fn decode_message(bits: &[u8], total_bits: usize, is_own_ship: bool) -> (res: Result<AisMessage, AisError>)
    ensures
        message_matches(res, bits@, total_bits as int, is_own_ship),
{
    if total_bits < 6 {
        return Err(AisError::PayloadTooShort);
    }
    proof {
        lemma2_to64();
    }
    let mut r = BitReader::new(bits, total_bits);
    let msg_type = read_u8(&mut r, 6);
    let body = if msg_type == 1 || msg_type == 2 || msg_type == 3 {
        let report = match decode_position_report_a(bits, total_bits) {
            Ok(p) => p,
            Err(e) => return Err(e),
        };
        if msg_type == 1 {
            AisMessageBody::Type1(report)
        } else if msg_type == 2 {
            AisMessageBody::Type2(report)
        } else {
            AisMessageBody::Type3(report)
        }
    } else if msg_type == 5 {
        match decode_static_and_voyage_a(bits, total_bits) {
            Ok(s) => AisMessageBody::Type5(s),
            Err(e) => return Err(e),
        }
    } else if msg_type == 18 {
        match decode_position_report_b(bits, total_bits) {
            Ok(p) => AisMessageBody::Type18(p),
            Err(e) => return Err(e),
        }
    } else if msg_type == 19 {
        match decode_extended_position_report_b(bits, total_bits) {
            Ok(p) => AisMessageBody::Type19(p),
            Err(e) => return Err(e),
        }
    } else if msg_type == 24 {
        match decode_static_data_b(bits, total_bits) {
            Ok(StaticDataB::PartA(a)) => AisMessageBody::Type24A(a),
            Ok(StaticDataB::PartB(b)) => AisMessageBody::Type24B(b),
            Ok(StaticDataB::Reserved { .. }) => other_payload(msg_type, bits, total_bits),
            Err(e) => return Err(e),
        }
    } else {
        other_payload(msg_type, bits, total_bits)
    };
    Ok(AisMessage { is_own_ship, body })
}

/// What decoding an armored payload owes: the armor's error, or the message
/// its bits decode to.
pub open spec fn payload_message_matches(res: Result<AisMessage, AisError>, p: Seq<u8>, f: u8, own: bool) -> bool {
    if f > 5 {
        res matches Err(r) && r == AisError::InvalidFillBits(f)
    } else if p.len() * 6 > usize::MAX {
        res matches Err(r) && r == AisError::PayloadTooLong
    } else if p.len() * 6 < f {
        res matches Err(r) && r == AisError::PayloadTooShort
    } else if !all_armor(p) {
        exists|k: int| first_invalid(p, k) && (res matches Err(r) && r == AisError::InvalidArmorChar(p[k]))
    } else {
        exists|bits: Seq<u8>|
            #[trigger] packs_armor(bits, p, p.len() * 6 - f) && message_matches(res, bits, p.len() * 6 - f, own)
    }
}

/// What `decode` owes for a framed sentence: the wrapper's error, or what
/// its payload owes.
pub open spec fn sentence_message_matches(res: Result<AisMessage, AisError>, raw: crate::envelope::SentenceView) -> bool {
    match wrapper_spec(raw) {
        Err(e) => res matches Err(r) && r == e,
        Ok(h) => payload_message_matches(res, h.payload, h.fill_bits, h.is_own_ship),
    }
}

/// Armor-decode a whole payload and decode the message it carries.
pub fn decode_payload(payload: &[u8], fill_bits: u8, is_own_ship: bool) -> (res: Result<AisMessage, AisError>)
    ensures
        payload_message_matches(res, payload@, fill_bits, is_own_ship),
{
    let (bits, total_bits) = match crate::ais::armor::decode(payload, fill_bits) {
        Ok(p) => p,
        Err(e) => return Err(e),
    };
    let res = decode_message(bits.as_slice(), total_bits, is_own_ship);
    proof {
        assert(packs_armor(bits@, payload@, total_bits as int));
    }
    res
}

/// Decode one framed AIVDM/AIVDO sentence holding a whole message:
/// wrapper, armor, then the typed message.
pub fn decode(raw: &RawSentence) -> (res: Result<AisMessage, AisError>)
    ensures
        sentence_message_matches(res, raw@),
{
    let header = match parse_aivdm_wrapper(raw) {
        Ok(h) => h,
        Err(e) => return Err(e),
    };
    decode_payload(header.payload, header.fill_bits, header.is_own_ship)
}

} // verus!
