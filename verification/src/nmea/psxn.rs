//! PSXN slot layout: which of the six data slots carries which quantity,
//! with the compact layout-string form (`"rphx"`, `"sqhx1"`).

use vstd::prelude::*;
use vstd::string::StrSliceExecFns;

verus! {

/// What one PSXN data slot carries.
#[derive(Debug, Clone, Copy, PartialEq, Eq, Structural)]
#[non_exhaustive]
pub enum PsxnSlot {
    /// Roll angle.
    Roll,
    /// Pitch angle.
    Pitch,
    /// Heave in metres.
    Heave,
    /// Roll as the sine-encoded gravity component.
    RollSineEncoded,
    /// Pitch as the sine-encoded gravity component.
    PitchSineEncoded,
    /// Not used.
    Ignored,
}

/// Per-install layout of the six PSXN data slots, and whether angles are
/// emitted in radians without conversion.
#[derive(Debug, Clone, Copy, PartialEq, Eq)]
pub struct PsxnLayout {
    /// Meaning of data slots 0..=5.
    pub slots: [PsxnSlot; 6],
    /// `true` to keep angles in raw radians.
    pub raw_radians: bool,
}

/// Errors from parsing a layout string.
#[derive(Debug, Clone, Copy, PartialEq, Eq, Structural)]
#[non_exhaustive]
pub enum PsxnLayoutParseError {
    /// A character that names no slot.
    UnknownChar(char),
    /// More than six slot characters.
    TooManySlots,
}

/// The default layout: roll, pitch, heave, then three ignored slots, in degrees.
pub open spec fn default_layout_slots() -> Seq<PsxnSlot> {
    seq![
        PsxnSlot::Roll,
        PsxnSlot::Pitch,
        PsxnSlot::Heave,
        PsxnSlot::Ignored,
        PsxnSlot::Ignored,
        PsxnSlot::Ignored,
    ]
}

impl Default for PsxnLayout {
    fn default() -> (l: Self)
        ensures
            l.slots@ == default_layout_slots(),
            !l.raw_radians,
    {
        let l = PsxnLayout {
            slots: [
                PsxnSlot::Roll,
                PsxnSlot::Pitch,
                PsxnSlot::Heave,
                PsxnSlot::Ignored,
                PsxnSlot::Ignored,
                PsxnSlot::Ignored,
            ],
            raw_radians: false,
        };
        proof {
            assert(l.slots@ =~= default_layout_slots());
        }
        l
    }
}

/// The slot a layout character names (either case).
pub open spec fn slot_of(c: char) -> Option<PsxnSlot> {
    if c == 'r' || c == 'R' {
        Some(PsxnSlot::Roll)
    } else if c == 'p' || c == 'P' {
        Some(PsxnSlot::Pitch)
    } else if c == 'h' || c == 'H' {
        Some(PsxnSlot::Heave)
    } else if c == 's' || c == 'S' {
        Some(PsxnSlot::RollSineEncoded)
    } else if c == 'q' || c == 'Q' {
        Some(PsxnSlot::PitchSineEncoded)
    } else if c == 'x' || c == 'X' {
        Some(PsxnSlot::Ignored)
    } else {
        None
    }
}

/// Reading the characters of a layout string left to right: the slots
/// named so far and whether `'1'` (raw radians) appeared.
pub open spec fn layout_chars(cs: Seq<char>) -> Result<(Seq<PsxnSlot>, bool), PsxnLayoutParseError>
    decreases cs.len(),
{
    if cs.len() == 0 {
        Ok((Seq::empty(), false))
    } else {
        match layout_chars(cs.drop_last()) {
            Err(e) => Err(e),
            Ok((slots, raw)) => {
                let c = cs.last();
                if c == '1' {
                    Ok((slots, true))
                } else if slots.len() >= 6 {
                    Err(PsxnLayoutParseError::TooManySlots)
                } else {
                    match slot_of(c) {
                        Some(s) => Ok((slots.push(s), raw)),
                        None => Err(PsxnLayoutParseError::UnknownChar(c)),
                    }
                }
            },
        }
    }
}

/// The six slots: those named, then `Ignored`.
pub open spec fn padded_slots(named: Seq<PsxnSlot>) -> Seq<PsxnSlot> {
    Seq::new(6, |i: int| if i < named.len() { named[i] } else { PsxnSlot::Ignored })
}

/// A character a layout string may hold: a slot letter or the `'1'` flag.
pub open spec fn layout_char(c: char) -> bool {
    c == '1' || slot_of(c) is Some
}

/// How many characters of `cs` are not the `'1'` flag (each names a slot).
pub open spec fn slot_count(cs: Seq<char>) -> nat
    decreases cs.len(),
{
    if cs.len() == 0 {
        0
    } else {
        slot_count(cs.drop_last()) + if cs.last() == '1' { 0nat } else { 1nat }
    }
}

/// The slots the non-`'1'` characters of `cs` name, in order.
pub open spec fn named_slots(cs: Seq<char>) -> Seq<PsxnSlot>
    decreases cs.len(),
{
    if cs.len() == 0 {
        Seq::empty()
    } else if cs.last() == '1' {
        named_slots(cs.drop_last())
    } else {
        named_slots(cs.drop_last()).push(
            match slot_of(cs.last()) {
                Some(s) => s,
                None => PsxnSlot::Ignored,
            },
        )
    }
}

proof fn lemma_layout_chars_cases(cs: Seq<char>)
    ensures
        match layout_chars(cs) {
            Ok((slots, raw)) => {
                &&& forall|i: int| 0 <= i < cs.len() ==> layout_char(#[trigger] cs[i])
                &&& slot_count(cs) <= 6
                &&& slots == named_slots(cs)
                &&& slots.len() == slot_count(cs)
                &&& raw == cs.contains('1')
            },
            Err(PsxnLayoutParseError::UnknownChar(c)) => exists|b: int|
                0 <= b < cs.len() && #[trigger] cs[b] == c && !layout_char(c) && slot_count(cs.subrange(0, b)) < 6
                    && forall|j: int| 0 <= j < b ==> layout_char(#[trigger] cs[j]),
            Err(PsxnLayoutParseError::TooManySlots) => exists|k: int|
                0 <= k < cs.len() && #[trigger] cs[k] != '1' && slot_count(cs.subrange(0, k)) == 6
                    && forall|j: int| 0 <= j < k ==> layout_char(#[trigger] cs[j]),
        },
    decreases cs.len(),
{
    if cs.len() > 0 {
        let p = cs.drop_last();
        let c = cs.last();
        let n = p.len() as int;
        lemma_layout_chars_cases(p);
        assert(cs.subrange(0, n) =~= p);
        assert forall|j: int| 0 <= j < n implies cs[j] == p[j] by {}
        match layout_chars(p) {
            Err(PsxnLayoutParseError::UnknownChar(e)) => {
                let b = choose|b: int|
                    0 <= b < p.len() && #[trigger] p[b] == e && !layout_char(e) && slot_count(p.subrange(0, b)) < 6
                        && forall|j: int| 0 <= j < b ==> layout_char(#[trigger] p[j]);
                assert(cs.subrange(0, b) =~= p.subrange(0, b));
                assert(cs[b] == e);
            },
            Err(PsxnLayoutParseError::TooManySlots) => {
                let k = choose|k: int|
                    0 <= k < p.len() && #[trigger] p[k] != '1' && slot_count(p.subrange(0, k)) == 6
                        && forall|j: int| 0 <= j < k ==> layout_char(#[trigger] p[j]);
                assert(cs.subrange(0, k) =~= p.subrange(0, k));
                assert(cs[k] != '1');
            },
            Ok((slots, raw)) => {
                assert(cs[n] == c);
                if c == '1' {
                    assert(cs.contains('1'));
                } else if slots.len() >= 6 {
                    assert(cs[n] != '1');
                } else {
                    match slot_of(c) {
                        Some(sl) => {
                            assert(cs.contains('1') == p.contains('1')) by {
                                if cs.contains('1') {
                                    let i = choose|i: int| 0 <= i < cs.len() && cs[i] == '1';
                                    assert(i < n);
                                    assert(p[i] == '1');
                                }
                                if p.contains('1') {
                                    let i = choose|i: int| 0 <= i < p.len() && p[i] == '1';
                                    assert(cs[i] == '1');
                                }
                            }
                        },
                        None => {
                            assert(cs[n] == c);
                        },
                    }
                }
            },
        }
    } else {
        assert(!cs.contains('1'));
    }
}

proof fn lemma_valid_layout_parses(cs: Seq<char>)
    requires
        forall|i: int| 0 <= i < cs.len() ==> layout_char(#[trigger] cs[i]),
        slot_count(cs) <= 6,
    ensures
        layout_chars(cs) is Ok,
    decreases cs.len(),
{
    if cs.len() > 0 {
        let p = cs.drop_last();
        assert forall|i: int| 0 <= i < p.len() implies layout_char(#[trigger] p[i]) by {
            assert(p[i] == cs[i]);
        }
        lemma_valid_layout_parses(p);
        lemma_layout_chars_cases(p);
        assert(layout_char(cs[cs.len() - 1]));
    }
}

/// The layout-string law: a string parses exactly when every character is
/// one of `r p h s q x 1` (either case) and at most six are not `'1'`; the
/// slots are then those the non-`'1'` characters name, in order (the rest
/// `Ignored`), and `raw_radians` says whether a `'1'` appears. Otherwise
/// the error is `UnknownChar(c)` for the first character that is not a
/// layout character, when fewer than six slot characters precede it, or
/// `TooManySlots` at a seventh slot character whose predecessors are all
/// layout characters.
pub proof fn lemma_layout_string(cs: Seq<char>)
    ensures
        layout_chars(cs) is Ok <==> (forall|i: int| 0 <= i < cs.len() ==> layout_char(#[trigger] cs[i])) && slot_count(
            cs,
        ) <= 6,
        layout_chars(cs) is Ok ==> layout_chars(cs) == Ok::<(Seq<PsxnSlot>, bool), PsxnLayoutParseError>(
            (named_slots(cs), cs.contains('1')),
        ),
        layout_chars(cs) matches Err(PsxnLayoutParseError::UnknownChar(c)) ==> exists|b: int|
            0 <= b < cs.len() && #[trigger] cs[b] == c && !layout_char(c) && slot_count(cs.subrange(0, b)) < 6
                && forall|j: int| 0 <= j < b ==> layout_char(#[trigger] cs[j]),
        layout_chars(cs) matches Err(PsxnLayoutParseError::TooManySlots) ==> exists|k: int|
            0 <= k < cs.len() && #[trigger] cs[k] != '1' && slot_count(cs.subrange(0, k)) == 6
                && forall|j: int| 0 <= j < k ==> layout_char(#[trigger] cs[j]),
{
    lemma_layout_chars_cases(cs);
    if (forall|i: int| 0 <= i < cs.len() ==> layout_char(#[trigger] cs[i])) && slot_count(cs) <= 6 {
        lemma_valid_layout_parses(cs);
    }
}

proof fn lemma_error_persists(s: Seq<char>, k: int)
    requires
        0 <= k <= s.len(),
        layout_chars(s.subrange(0, k)) is Err,
    ensures
        layout_chars(s) == layout_chars(s.subrange(0, k)),
    decreases s.len() - k,
{
    if k < s.len() {
        assert(s.subrange(0, k + 1).drop_last() =~= s.subrange(0, k));
        lemma_error_persists(s, k + 1);
    } else {
        assert(s.subrange(0, k) =~= s);
    }
}

fn slot_for(c: char) -> (r: Option<PsxnSlot>)
    ensures
        r == slot_of(c),
{
    if c == 'r' || c == 'R' {
        Some(PsxnSlot::Roll)
    } else if c == 'p' || c == 'P' {
        Some(PsxnSlot::Pitch)
    } else if c == 'h' || c == 'H' {
        Some(PsxnSlot::Heave)
    } else if c == 's' || c == 'S' {
        Some(PsxnSlot::RollSineEncoded)
    } else if c == 'q' || c == 'Q' {
        Some(PsxnSlot::PitchSineEncoded)
    } else if c == 'x' || c == 'X' {
        Some(PsxnSlot::Ignored)
    } else {
        None
    }
}

impl PsxnLayout {
    /// Parse a layout string: each of `r p h s q x` (either case) names the
    /// next slot (roll, pitch, heave, sine roll, sine pitch, ignored); `1`
    /// anywhere selects raw radians; unnamed slots are ignored.
    pub fn parse(s: &str) -> (res: Result<PsxnLayout, PsxnLayoutParseError>)
        ensures
            match layout_chars(s@) {
                Ok((named, raw)) => res matches Ok(l) && l.slots@ == padded_slots(named) && l.raw_radians == raw,
                Err(e) => res == Err::<PsxnLayout, PsxnLayoutParseError>(e),
            },
    {
        let n = s.unicode_len();
        let mut slots = [PsxnSlot::Ignored;6];
        let mut raw_radians = false;
        let mut idx: usize = 0;
        let mut i: usize = 0;
        while i < n
            invariant
                n == s@.len(),
                0 <= i <= n,
                layout_chars(s@.subrange(0, i as int)) matches Ok((named, raw)) && named.len() == idx && raw
                    == raw_radians && slots@ == padded_slots(named),
                idx <= 6,
            decreases n - i,
        {
            let c = s.get_char(i);
            proof {
                assert(s@.subrange(0, i + 1).drop_last() =~= s@.subrange(0, i as int));
            }
            if c == '1' {
                raw_radians = true;
            } else {
                if idx >= 6 {
                    proof {
                        lemma_error_persists(s@, i + 1);
                    }
                    return Err(PsxnLayoutParseError::TooManySlots);
                }
                match slot_for(c) {
                    Some(slot) => {
                        let ghost named = layout_chars(s@.subrange(0, i as int))->Ok_0.0;
                        slots[idx] = slot;
                        idx = idx + 1;
                        proof {
                            assert(slots@ =~= padded_slots(named.push(slot)));
                        }
                    },
                    None => {
                        proof {
                            lemma_error_persists(s@, i + 1);
                        }
                        return Err(PsxnLayoutParseError::UnknownChar(c));
                    },
                }
            }
            i = i + 1;
        }
        proof {
            assert(s@.subrange(0, n as int) =~= s@);
        }
        Ok(PsxnLayout { slots, raw_radians })
    }
}

impl core::str::FromStr for PsxnLayout {
    type Err = PsxnLayoutParseError;

    fn from_str(s: &str) -> (res: Result<Self, Self::Err>)
        ensures
            match layout_chars(s@) {
                Ok((named, raw)) => res matches Ok(l) && l.slots@ == padded_slots(named) && l.raw_radians == raw,
                Err(e) => res == Err::<PsxnLayout, PsxnLayoutParseError>(e),
            },
    {
        PsxnLayout::parse(s)
    }
}

} // verus!
