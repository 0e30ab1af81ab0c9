//! Routing a framed sentence to its decoder.

use vstd::prelude::*;
use crate::envelope::{RawSentence, SentenceView};
use crate::nmea::error::DecodeError;
use crate::nmea::options::{DecodeOptions, PrdidDialect};
use crate::nmea::psxn::default_layout_slots;
use crate::nmea::sentences::gga::{decode_gga, gga_spec, GgaData, GgaModel};
use crate::nmea::sentences::gll::{decode_gll, gll_spec, GllData, GllModel};
use crate::nmea::sentences::rmc::{decode_rmc, rmc_spec, RmcData, RmcModel};
use crate::nmea::sentences::hdt::{decode_hdt, hdt_spec, HdtData, HdtModel};
use crate::nmea::sentences::prdid::{decode_prdid, prdid_spec, PrdidData, PrdidModel};
use crate::nmea::sentences::psxn::{decode_psxn, psxn_spec, PsxnData, PsxnModel};
use crate::nmea::sentences::vtg::{decode_vtg, vtg_spec, VtgData, VtgModel};
use crate::text::bytes_equal;

verus! {

/// A decoded NMEA 0183 sentence, by type.
#[derive(Debug, Clone, PartialEq, Eq)]
#[non_exhaustive]
pub enum Nmea0183Message {
    /// GGA.
    Gga(GgaData),
    /// GLL.
    Gll(GllData),
    /// HDT.
    Hdt(HdtData),
    /// RMC.
    Rmc(RmcData),
    /// VTG.
    Vtg(VtgData),
    /// PSXN.
    Psxn(PsxnData),
    /// PRDID.
    Prdid(PrdidData),
    /// Any other sentence type, as framed.
    Unknown(RawSentence),
}

pub enum MessageModel {
    Gga(GgaModel),
    Gll(GllModel),
    Hdt(HdtModel),
    Rmc(RmcModel),
    Vtg(VtgModel),
    Psxn(PsxnModel),
    Prdid(PrdidModel),
    Unknown(SentenceView),
}

impl View for Nmea0183Message {
    type V = MessageModel;

    open spec fn view(&self) -> MessageModel {
        match self {
            Nmea0183Message::Gga(d) => MessageModel::Gga(d@),
            Nmea0183Message::Gll(d) => MessageModel::Gll(d@),
            Nmea0183Message::Hdt(d) => MessageModel::Hdt(d@),
            Nmea0183Message::Rmc(d) => MessageModel::Rmc(d@),
            Nmea0183Message::Vtg(d) => MessageModel::Vtg(d@),
            Nmea0183Message::Psxn(d) => MessageModel::Psxn(d@),
            Nmea0183Message::Prdid(d) => MessageModel::Prdid(d@),
            Nmea0183Message::Unknown(r) => MessageModel::Unknown(r@),
        }
    }
}

pub open spec fn message_result_view(r: Result<Nmea0183Message, DecodeError>) -> Result<MessageModel, DecodeError> {
    match r {
        Ok(m) => Ok(m@),
        Err(e) => Err(e),
    }
}

pub open spec fn wrap<M>(r: Result<M, DecodeError>, f: spec_fn(M) -> MessageModel) -> Result<MessageModel, DecodeError> {
    match r {
        Ok(m) => Ok(f(m)),
        Err(e) => Err(e),
    }
}

/// The fields holding a sentence type's latitude and longitude: GGA 1 and
/// 3, GLL 0 and 2, RMC 2 and 4; other types carry no coordinates the
/// dispatcher checks.
pub open spec fn coordinate_fields_spec(t: Seq<u8>) -> Option<(usize, usize)> {
    if t == seq![0x47u8, 0x47, 0x41] {
        Some((1, 3))
    } else if t == seq![0x47u8, 0x4C, 0x4C] {
        Some((0, 2))
    } else if t == seq![0x52u8, 0x4D, 0x43] {
        Some((2, 4))
    } else {
        None
    }
}

/// What `decode_with` gives: routing is on the sentence type alone (`GGA`,
/// `GLL`, `HDT`, `RMC`, `VTG`, `PSXN`, `PRDID`); any other type is
/// `Unknown`, never an error. `lat_ok` / `lon_ok` are the range checks of
/// the coordinates in the fields `coordinate_fields_spec` names for the
/// type.
pub open spec fn decode_with_spec(s: SentenceView, options: DecodeOptions, lat_ok: bool, lon_ok: bool) -> Result<
    MessageModel,
    DecodeError,
> {
    let t = s.sentence_type;
    if t == seq![0x47u8, 0x47, 0x41] {
        wrap(gga_spec(s, lat_ok, lon_ok), |m: GgaModel| MessageModel::Gga(m))
    } else if t == seq![0x47u8, 0x4C, 0x4C] {
        wrap(gll_spec(s, lat_ok, lon_ok), |m: GllModel| MessageModel::Gll(m))
    } else if t == seq![0x48u8, 0x44, 0x54] {
        wrap(hdt_spec(s), |m: HdtModel| MessageModel::Hdt(m))
    } else if t == seq![0x52u8, 0x4D, 0x43] {
        wrap(rmc_spec(s, lat_ok, lon_ok), |m: RmcModel| MessageModel::Rmc(m))
    } else if t == seq![0x56u8, 0x54, 0x47] {
        wrap(vtg_spec(s), |m: VtgModel| MessageModel::Vtg(m))
    } else if t == seq![0x50u8, 0x53, 0x58, 0x4E] {
        wrap(psxn_spec(s, options.psxn_layout), |m: PsxnModel| MessageModel::Psxn(m))
    } else if t == seq![0x50u8, 0x52, 0x44, 0x49, 0x44] {
        wrap(prdid_spec(s, options.prdid_dialect), |m: PrdidModel| MessageModel::Prdid(m))
    } else {
        Ok(MessageModel::Unknown(s))
    }
}

fn type_is(raw: &RawSentence, name: &[u8]) -> (r: bool)
    ensures
        r == (raw@.sentence_type == name@),
{
    bytes_equal(raw.sentence_type.as_slice(), name)
}

fn copy_sentence(raw: &RawSentence) -> (c: RawSentence)
    ensures
        c@ == raw@,
{
    let tag_block = match &raw.tag_block {
        Some(t) => Some(vstd::slice::slice_to_vec(t.as_slice())),
        None => None,
    };
    RawSentence {
        start_delimiter: raw.start_delimiter,
        talker: raw.talker,
        sentence_type: vstd::slice::slice_to_vec(raw.sentence_type.as_slice()),
        fields: crate::nmea::sentences::prdid::copy_fields(raw),
        tag_block,
        raw: vstd::slice::slice_to_vec(raw.raw.as_slice()),
    }
}

/// The fields holding the sentence's latitude and longitude, for the types
/// whose coordinates the dispatcher range-checks (GGA, GLL, RMC).
pub fn coordinate_fields(raw: &RawSentence) -> (r: Option<(usize, usize)>)
    ensures
        r == coordinate_fields_spec(raw@.sentence_type),
{
    let gga: [u8; 3] = [0x47, 0x47, 0x41];
    let gll: [u8; 3] = [0x47, 0x4C, 0x4C];
    let rmc: [u8; 3] = [0x52, 0x4D, 0x43];
    proof {
        assert(gga@ =~= seq![0x47u8, 0x47, 0x41]);
        assert(gll@ =~= seq![0x47u8, 0x4C, 0x4C]);
        assert(rmc@ =~= seq![0x52u8, 0x4D, 0x43]);
    }
    if type_is(raw, gga.as_slice()) {
        Some((1, 3))
    } else if type_is(raw, gll.as_slice()) {
        Some((0, 2))
    } else if type_is(raw, rmc.as_slice()) {
        Some((2, 4))
    } else {
        None
    }
}

/// Decode a framed sentence with `options`. `latitude_in_range` and
/// `longitude_in_range` are the range checks of the sentence's coordinates,
/// in the fields `coordinate_fields` names (GGA, GLL, RMC); other types
/// ignore them.
pub fn decode_with(raw: &RawSentence, options: &DecodeOptions, latitude_in_range: bool, longitude_in_range: bool) -> (res: Result<
    Nmea0183Message,
    DecodeError,
>)
    ensures
        message_result_view(res) == decode_with_spec(raw@, *options, latitude_in_range, longitude_in_range),
{
    let gga: [u8; 3] = [0x47, 0x47, 0x41];
    let gll: [u8; 3] = [0x47, 0x4C, 0x4C];
    let rmc: [u8; 3] = [0x52, 0x4D, 0x43];
    let hdt: [u8; 3] = [0x48, 0x44, 0x54];
    let vtg: [u8; 3] = [0x56, 0x54, 0x47];
    let psxn: [u8; 4] = [0x50, 0x53, 0x58, 0x4E];
    let prdid: [u8; 5] = [0x50, 0x52, 0x44, 0x49, 0x44];
    proof {
        assert(gga@ =~= seq![0x47u8, 0x47, 0x41]);
        assert(gll@ =~= seq![0x47u8, 0x4C, 0x4C]);
        assert(rmc@ =~= seq![0x52u8, 0x4D, 0x43]);
        assert(hdt@ =~= seq![0x48u8, 0x44, 0x54]);
        assert(vtg@ =~= seq![0x56u8, 0x54, 0x47]);
        assert(psxn@ =~= seq![0x50u8, 0x53, 0x58, 0x4E]);
        assert(prdid@ =~= seq![0x50u8, 0x52, 0x44, 0x49, 0x44]);
    }
    if type_is(raw, gga.as_slice()) {
        match decode_gga(raw, latitude_in_range, longitude_in_range) {
            Ok(d) => Ok(Nmea0183Message::Gga(d)),
            Err(e) => Err(e),
        }
    } else if type_is(raw, gll.as_slice()) {
        match decode_gll(raw, latitude_in_range, longitude_in_range) {
            Ok(d) => Ok(Nmea0183Message::Gll(d)),
            Err(e) => Err(e),
        }
    } else if type_is(raw, hdt.as_slice()) {
        match decode_hdt(raw) {
            Ok(d) => Ok(Nmea0183Message::Hdt(d)),
            Err(e) => Err(e),
        }
    } else if type_is(raw, rmc.as_slice()) {
        match decode_rmc(raw, latitude_in_range, longitude_in_range) {
            Ok(d) => Ok(Nmea0183Message::Rmc(d)),
            Err(e) => Err(e),
        }
    } else if type_is(raw, vtg.as_slice()) {
        match decode_vtg(raw) {
            Ok(d) => Ok(Nmea0183Message::Vtg(d)),
            Err(e) => Err(e),
        }
    } else if type_is(raw, psxn.as_slice()) {
        match decode_psxn(raw, &options.psxn_layout) {
            Ok(d) => Ok(Nmea0183Message::Psxn(d)),
            Err(e) => Err(e),
        }
    } else if type_is(raw, prdid.as_slice()) {
        match decode_prdid(raw, options.prdid_dialect) {
            Ok(d) => Ok(Nmea0183Message::Prdid(d)),
            Err(e) => Err(e),
        }
    } else {
        Ok(Nmea0183Message::Unknown(copy_sentence(raw)))
    }
}

/// Decode a framed sentence with the default options.
pub fn decode(raw: &RawSentence, latitude_in_range: bool, longitude_in_range: bool) -> (res: Result<
    Nmea0183Message,
    DecodeError,
>)
    ensures
        forall|o: DecodeOptions|
            o.psxn_layout.slots@ == default_layout_slots() && !o.psxn_layout.raw_radians && o.prdid_dialect
                == PrdidDialect::Unknown ==> #[trigger] decode_with_spec(raw@, o, latitude_in_range, longitude_in_range)
                == message_result_view(res),
{
    let options = DecodeOptions::default();
    let res = decode_with(raw, &options, latitude_in_range, longitude_in_range);
    proof {
        assert forall|o: DecodeOptions|
            o.psxn_layout.slots@ == default_layout_slots() && !o.psxn_layout.raw_radians && o.prdid_dialect
                == PrdidDialect::Unknown implies #[trigger] decode_with_spec(raw@, o, latitude_in_range, longitude_in_range)
            == message_result_view(res) by {
            assert(o.psxn_layout.slots@ =~= options.psxn_layout.slots@);
            assert(o.psxn_layout.slots =~= options.psxn_layout.slots);
            assert(o.psxn_layout == options.psxn_layout);
            assert(o == options);
        }
    }
    res
}

} // verus!
