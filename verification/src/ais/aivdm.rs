//! AIVDM/AIVDO wrapper fields.

use vstd::prelude::*;
use crate::ais::error::AisError;
use crate::envelope::{RawSentence, SentenceView};
use crate::text::{decimal_spec, parse_unsigned};

verus! {

/// Fields extracted from an AIVDM/AIVDO wrapper. `payload` borrows the
/// armored payload bytes from the sentence it came from.
#[derive(Debug, Clone, PartialEq, Eq)]
pub struct AivdmHeader<'a> {
    /// `true` for `!AIVDO` (own-ship), `false` for `!AIVDM`.
    pub is_own_ship: bool,
    /// Number of sentences in the underlying AIS message.
    pub fragment_count: u8,
    /// 1-based index of this sentence within a multi-sentence message.
    pub fragment_number: u8,
    /// Sequential message ID for multi-sentence reassembly.
    pub sequential_id: Option<u8>,
    /// VHF channel (typically `b'A'` or `b'B'`), when reported.
    pub channel: Option<u8>,
    /// ASCII-armored payload bytes.
    pub payload: &'a [u8],
    /// Trailing fill bits in the payload (0..=5).
    pub fill_bits: u8,
}

/// The wrapper fields as plain values.
pub struct HeaderView {
    pub is_own_ship: bool,
    pub fragment_count: u8,
    pub fragment_number: u8,
    pub sequential_id: Option<u8>,
    pub channel: Option<u8>,
    pub payload: Seq<u8>,
    pub fill_bits: u8,
}

impl<'a> View for AivdmHeader<'a> {
    type V = HeaderView;

    open spec fn view(&self) -> HeaderView {
        HeaderView {
            is_own_ship: self.is_own_ship,
            fragment_count: self.fragment_count,
            fragment_number: self.fragment_number,
            sequential_id: self.sequential_id,
            channel: self.channel,
            payload: self.payload@,
            fill_bits: self.fill_bits,
        }
    }
}

/// What `u8`'s decimal parse accepts: an optional `+`, then one or more
/// digits with a value of at most 255.
pub open spec fn small_u8_spec(b: Seq<u8>) -> Option<u8> {
    match decimal_spec(b, 255) {
        Some(v) => Some(v as u8),
        None => None,
    }
}

/// Parse an ASCII decimal field as `u8` (fragment count, number,
/// sequential id, fill bits): optional `+`, digits, value at most 255.
pub fn parse_small_u8(bytes: &[u8]) -> (res: Result<u8, AisError>)
    ensures
        match small_u8_spec(bytes@) {
            Some(v) => res == Ok::<u8, AisError>(v),
            None => res == Err::<u8, AisError>(AisError::MalformedWrapper),
        },
{
    match parse_unsigned(bytes, 255) {
        Some(v) => Ok(v as u8),
        None => Err(AisError::MalformedWrapper),
    }
}

/// The channel field: empty → `None`, one byte → that byte, longer → malformed.
pub open spec fn channel_spec(f: Seq<u8>) -> Result<Option<u8>, AisError> {
    if f.len() == 0 {
        Ok(None)
    } else if f.len() == 1 {
        Ok(Some(f[0]))
    } else {
        Err(AisError::MalformedWrapper)
    }
}

pub open spec fn field_u8(f: Seq<u8>) -> Result<u8, AisError> {
    match small_u8_spec(f) {
        Some(v) => Ok(v),
        None => Err(AisError::MalformedWrapper),
    }
}

/// What `parse_aivdm_wrapper` returns for a framed sentence.
pub open spec fn wrapper_spec(s: SentenceView) -> Result<HeaderView, AisError> {
    if s.start_delimiter != 0x21 {
        Err(AisError::NotAnAisSentence)
    } else if s.sentence_type != seq![0x56u8, 0x44, 0x4D] && s.sentence_type != seq![0x56u8, 0x44, 0x4F] {
        Err(AisError::NotAnAisSentence)
    } else if s.fields.len() < 6 {
        Err(AisError::MalformedWrapper)
    } else {
        let f = s.fields;
        match field_u8(f[0]) {
            Err(e) => Err(e),
            Ok(count) => match field_u8(f[1]) {
                Err(e) => Err(e),
                Ok(number) => match (if f[2].len() == 0 {
                    Ok(None)
                } else {
                    match field_u8(f[2]) {
                        Ok(v) => Ok(Some(v)),
                        Err(e) => Err(e),
                    }
                }) {
                    Err(e) => Err(e),
                    Ok(seq_id) => match channel_spec(f[3]) {
                        Err(e) => Err(e),
                        Ok(channel) => match field_u8(f[5]) {
                            Err(e) => Err(e),
                            Ok(fill) => Ok(
                                HeaderView {
                                    is_own_ship: s.sentence_type == seq![0x56u8, 0x44, 0x4F],
                                    fragment_count: count,
                                    fragment_number: number,
                                    sequential_id: seq_id,
                                    channel,
                                    payload: f[4],
                                    fill_bits: fill,
                                },
                            ),
                        },
                    },
                },
            },
        }
    }
}

pub open spec fn header_result_view(r: Result<AivdmHeader, AisError>) -> Result<HeaderView, AisError> {
    match r {
        Ok(h) => Ok(h@),
        Err(e) => Err(e),
    }
}

/// Parse the AIVDM/AIVDO wrapper fields out of a framed sentence. The
/// armored payload is borrowed, not decoded.
pub fn parse_aivdm_wrapper<'a>(raw: &'a RawSentence) -> (res: Result<AivdmHeader<'a>, AisError>)
    ensures
        header_result_view(res) == wrapper_spec(raw@),
{
    if raw.start_delimiter != 0x21 {
        return Err(AisError::NotAnAisSentence);
    }
    let ty = raw.sentence_type.as_slice();
    let is_vdm = ty.len() == 3 && ty[0] == 0x56 && ty[1] == 0x44 && ty[2] == 0x4D;
    let is_vdo = ty.len() == 3 && ty[0] == 0x56 && ty[1] == 0x44 && ty[2] == 0x4F;
    proof {
        assert(is_vdm == (ty@ == seq![0x56u8, 0x44, 0x4D])) by {
            if ty@.len() == 3 {
                if ty@ == seq![0x56u8, 0x44, 0x4D] {
                    assert(ty@[0] == 0x56 && ty@[1] == 0x44 && ty@[2] == 0x4D);
                }
                if is_vdm {
                    assert(ty@ =~= seq![0x56u8, 0x44, 0x4D]);
                }
            }
        }
        assert(is_vdo == (ty@ == seq![0x56u8, 0x44, 0x4F])) by {
            if ty@.len() == 3 {
                if ty@ == seq![0x56u8, 0x44, 0x4F] {
                    assert(ty@[0] == 0x56 && ty@[1] == 0x44 && ty@[2] == 0x4F);
                }
                if is_vdo {
                    assert(ty@ =~= seq![0x56u8, 0x44, 0x4F]);
                }
            }
        }
    }
    if !is_vdm && !is_vdo {
        return Err(AisError::NotAnAisSentence);
    }
    let f = &raw.fields;
    if f.len() < 6 {
        return Err(AisError::MalformedWrapper);
    }
    let fragment_count = match parse_small_u8(f[0].as_slice()) {
        Ok(v) => v,
        Err(e) => return Err(e),
    };
    let fragment_number = match parse_small_u8(f[1].as_slice()) {
        Ok(v) => v,
        Err(e) => return Err(e),
    };
    let sequential_id = if f[2].len() == 0 {
        None
    } else {
        match parse_small_u8(f[2].as_slice()) {
            Ok(v) => Some(v),
            Err(e) => return Err(e),
        }
    };
    let channel = if f[3].len() == 0 {
        None
    } else if f[3].len() == 1 {
        Some(f[3][0])
    } else {
        return Err(AisError::MalformedWrapper);
    };
    let payload = f[4].as_slice();
    let fill_bits = match parse_small_u8(f[5].as_slice()) {
        Ok(v) => v,
        Err(e) => return Err(e),
    };
    Ok(
        AivdmHeader {
            is_own_ship: is_vdo,
            fragment_count,
            fragment_number,
            sequential_id,
            channel,
            payload,
            fill_bits,
        },
    )
}

/// Where each wrapper value comes from: `!AIVDM`/`!AIVDO` fields are
/// fragment count, fragment number, sequential id, channel, payload and
/// fill bits, in that order. A parsed header's count, number and fill bits
/// are the decimal values of fields 0, 1 and 5, its sequential id that of
/// field 2 (absent when empty), its channel the byte of field 3 (absent
/// when empty), its payload field 4 as sent, and it is own-ship exactly
/// for `VDO`.
pub proof fn lemma_wrapper_field_positions(s: SentenceView)
    ensures
        wrapper_spec(s) matches Ok(h) ==> {
            &&& decimal_spec(s.fields[0], 255) == Some(h.fragment_count as nat)
            &&& decimal_spec(s.fields[1], 255) == Some(h.fragment_number as nat)
            &&& (h.sequential_id is None <==> s.fields[2].len() == 0)
            &&& (h.sequential_id matches Some(id) ==> decimal_spec(s.fields[2], 255) == Some(id as nat))
            &&& (h.channel is None <==> s.fields[3].len() == 0)
            &&& (h.channel matches Some(c) ==> s.fields[3] == seq![c])
            &&& h.payload == s.fields[4]
            &&& decimal_spec(s.fields[5], 255) == Some(h.fill_bits as nat)
            &&& h.is_own_ship == (s.sentence_type == seq![0x56u8, 0x44, 0x4F])
        },
{
    if let Ok(h) = wrapper_spec(s) {
        if let Some(c) = h.channel {
            assert(s.fields[3] =~= seq![c]);
        }
    }
}

} // verus!
