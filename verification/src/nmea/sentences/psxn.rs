//! PSXN — proprietary motion sentence whose six data slots are assigned by
//! the install's [`PsxnLayout`].

use vstd::prelude::*;
use crate::envelope::{RawSentence, SentenceView};
use crate::nmea::error::DecodeError;
use crate::nmea::number::{opt_number_text, optional_number, optional_number_spec, Number};
use crate::nmea::psxn::{PsxnLayout, PsxnSlot};
use crate::nmea::sentences::fields::{opt_u16_nat, too_few};
use crate::nmea::util::{non_empty, optional_u16, optional_unsigned_spec};

verus! {

/// Minimum number of PSXN fields: id, token and six data slots.
pub const PSXN_MIN_FIELDS: usize = 8;

/// The PSXN fields sorted by the role the layout gives their slot. Values
/// keep their text; the angles they encode are computed where floating
/// point is available.
#[derive(Debug, Clone, PartialEq, Eq)]
pub struct PsxnData {
    /// `id` field.
    pub id: Option<u16>,
    /// `token` field, as sent.
    pub token: Option<Vec<u8>>,
    /// The slot carrying roll directly.
    pub roll: Option<Number>,
    /// The slot carrying pitch directly.
    pub pitch: Option<Number>,
    /// The slot carrying heave, metres.
    pub heave_m: Option<Number>,
    /// The slot carrying `sin(roll) * cos(pitch)`.
    pub roll_sine: Option<Number>,
    /// The slot carrying `-sin(pitch)`.
    pub pitch_sine: Option<Number>,
    /// Whether the layout keeps angles in raw radians.
    pub raw_radians: bool,
}

pub struct PsxnModel {
    pub id: Option<nat>,
    pub token: Option<Seq<u8>>,
    pub roll: Option<Seq<u8>>,
    pub pitch: Option<Seq<u8>>,
    pub heave_m: Option<Seq<u8>>,
    pub roll_sine: Option<Seq<u8>>,
    pub pitch_sine: Option<Seq<u8>>,
    pub raw_radians: bool,
}

pub open spec fn opt_bytes(o: Option<Vec<u8>>) -> Option<Seq<u8>> {
    match o {
        Some(v) => Some(v@),
        None => None,
    }
}

impl View for PsxnData {
    type V = PsxnModel;

    open spec fn view(&self) -> PsxnModel {
        PsxnModel {
            id: opt_u16_nat(self.id),
            token: opt_bytes(self.token),
            roll: opt_number_text(self.roll),
            pitch: opt_number_text(self.pitch),
            heave_m: opt_number_text(self.heave_m),
            roll_sine: opt_number_text(self.roll_sine),
            pitch_sine: opt_number_text(self.pitch_sine),
            raw_radians: self.raw_radians,
        }
    }
}

pub open spec fn psxn_result_view(r: Result<PsxnData, DecodeError>) -> Result<PsxnModel, DecodeError> {
    match r {
        Ok(d) => Ok(d@),
        Err(e) => Err(e),
    }
}

/// The first failing data slot among slots `0..n` (fields 2..2+n), in order.
pub open spec fn slots_error(f: Seq<Seq<u8>>, n: int) -> Option<DecodeError>
    decreases n,
{
    if n <= 0 {
        None
    } else {
        match slots_error(f, n - 1) {
            Some(e) => Some(e),
            None => match optional_number_spec(f[n + 1], (n + 1) as usize) {
                Err(e) => Some(e),
                Ok(_) => None,
            },
        }
    }
}

/// The value of data slot `i` (field `2 + i`).
pub open spec fn slot_value(f: Seq<Seq<u8>>, i: int) -> Option<Seq<u8>> {
    optional_number_spec(f[i + 2], (i + 2) as usize)->Ok_0
}

/// The value of the last of slots `0..n` the layout gives `role`, or
/// `None` when none does.
pub open spec fn role_value(slots: Seq<PsxnSlot>, f: Seq<Seq<u8>>, role: PsxnSlot, n: int) -> Option<Seq<u8>>
    decreases n,
{
    if n <= 0 {
        None
    } else if slots[n - 1] == role {
        slot_value(f, n - 1)
    } else {
        role_value(slots, f, role, n - 1)
    }
}

/// What a PSXN sentence decodes to under `layout`.
pub open spec fn psxn_spec(s: SentenceView, layout: PsxnLayout) -> Result<PsxnModel, DecodeError> {
    let f = s.fields;
    let slots = layout.slots@;
    if f.len() < PSXN_MIN_FIELDS {
        Err(too_few(PSXN_MIN_FIELDS, f.len()))
    } else {
        let id = optional_unsigned_spec(f[0], 65535, 0);
        if id is Err {
            Err(id->Err_0)
        } else if slots_error(f, 6) is Some {
            Err(slots_error(f, 6)->Some_0)
        } else {
            Ok(
                PsxnModel {
                    id: id->Ok_0,
                    token: if f[1].len() == 0 {
                        None
                    } else {
                        Some(f[1])
                    },
                    roll: role_value(slots, f, PsxnSlot::Roll, 6),
                    pitch: role_value(slots, f, PsxnSlot::Pitch, 6),
                    heave_m: role_value(slots, f, PsxnSlot::Heave, 6),
                    roll_sine: role_value(slots, f, PsxnSlot::RollSineEncoded, 6),
                    pitch_sine: role_value(slots, f, PsxnSlot::PitchSineEncoded, 6),
                    raw_radians: layout.raw_radians,
                },
            )
        }
    }
}

/// Decode a PSXN sentence under `layout`: the id, the token, and each data
/// slot sorted by its role (the last slot of a role wins).
pub fn decode_psxn(raw: &RawSentence, layout: &PsxnLayout) -> (res: Result<PsxnData, DecodeError>)
    ensures
        psxn_result_view(res) == psxn_spec(raw@, *layout),
{
    let f = &raw.fields;
    if f.len() < PSXN_MIN_FIELDS {
        return Err(DecodeError::NotEnoughFields { expected: PSXN_MIN_FIELDS, got: f.len() });
    }
    let id = match optional_u16(f[0].as_slice(), 0) {
        Ok(v) => v,
        Err(e) => return Err(e),
    };
    let token = match non_empty(f[1].as_slice()) {
        Some(t) => Some(vstd::slice::slice_to_vec(t)),
        None => None,
    };
    let mut roll: Option<Number> = None;
    let mut pitch: Option<Number> = None;
    let mut heave_m: Option<Number> = None;
    let mut roll_sine: Option<Number> = None;
    let mut pitch_sine: Option<Number> = None;
    let ghost fv = raw@.fields;
    let ghost slots = layout.slots@;
    let mut i: usize = 0;
    while i < 6
        invariant
            0 <= i <= 6,
            fv == raw@.fields,
            fv.len() >= PSXN_MIN_FIELDS,
            optional_unsigned_spec(fv[0], 65535, 0) is Ok,
            slots == layout.slots@,
            slots_error(fv, i as int) is None,
            opt_number_text(roll) == role_value(slots, fv, PsxnSlot::Roll, i as int),
            opt_number_text(pitch) == role_value(slots, fv, PsxnSlot::Pitch, i as int),
            opt_number_text(heave_m) == role_value(slots, fv, PsxnSlot::Heave, i as int),
            opt_number_text(roll_sine) == role_value(slots, fv, PsxnSlot::RollSineEncoded, i as int),
            opt_number_text(pitch_sine) == role_value(slots, fv, PsxnSlot::PitchSineEncoded, i as int),
        decreases 6 - i,
    {
        proof {
            assert(fv[i + 2] == raw.fields@[i + 2]@);
        }
        let v = match optional_number(raw.fields[i + 2].as_slice(), i + 2) {
            Ok(v) => v,
            Err(e) => {
                proof {
                    assert(slots_error(fv, i + 1) == Some(e));
                    lemma_slots_error_persists(fv, i + 1, 6);
                }
                return Err(e);
            },
        };
        proof {
            assert(slots_error(fv, i + 1) is None);
            assert(opt_number_text(v) == slot_value(fv, i as int));
        }
        match layout.slots[i] {
            PsxnSlot::Roll => roll = v,
            PsxnSlot::Pitch => pitch = v,
            PsxnSlot::Heave => heave_m = v,
            PsxnSlot::RollSineEncoded => roll_sine = v,
            PsxnSlot::PitchSineEncoded => pitch_sine = v,
            PsxnSlot::Ignored => {},
        }
        i = i + 1;
    }
    Ok(PsxnData { id, token, roll, pitch, heave_m, roll_sine, pitch_sine, raw_radians: layout.raw_radians })
}

proof fn lemma_slots_error_persists(f: Seq<Seq<u8>>, k: int, n: int)
    requires
        0 <= k <= n,
        slots_error(f, k) is Some,
    ensures
        slots_error(f, n) == slots_error(f, k),
    decreases n - k,
{
    if k < n {
        lemma_slots_error_persists(f, k, n - 1);
    }
}

} // verus!
