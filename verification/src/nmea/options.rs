//! Decode options: PSXN slot layout and PRDID dialect.

use vstd::prelude::*;
use crate::nmea::psxn::{default_layout_slots, PsxnLayout};

verus! {

/// How to read `$PRDID` sentences, whose field order differs by vendor.
#[derive(Debug, Clone, Copy, PartialEq, Eq, Structural)]
#[non_exhaustive]
pub enum PrdidDialect {
    /// Refuse to guess: sentences decode to their raw fields (default).
    Unknown,
    /// Pitch, roll, heading (Teledyne RDI ADCP order).
    PitchRollHeading,
    /// Roll, pitch, heading.
    RollPitchHeading,
}

impl Default for PrdidDialect {
    fn default() -> (d: Self)
        ensures
            d == PrdidDialect::Unknown,
    {
        PrdidDialect::Unknown
    }
}

/// Options that steer decoding of install-dependent sentences.
#[derive(Debug, Clone, Copy, PartialEq, Eq)]
#[non_exhaustive]
pub struct DecodeOptions {
    /// Slot layout for `$PSXN`.
    pub psxn_layout: PsxnLayout,
    /// Dialect for `$PRDID`.
    pub prdid_dialect: PrdidDialect,
}

impl Default for DecodeOptions {
    fn default() -> (o: Self)
        ensures
            o.psxn_layout.slots@ == default_layout_slots(),
            !o.psxn_layout.raw_radians,
            o.prdid_dialect == PrdidDialect::Unknown,
    {
        DecodeOptions { psxn_layout: PsxnLayout::default(), prdid_dialect: PrdidDialect::default() }
    }
}

impl DecodeOptions {
    /// These options with the PSXN layout replaced.
    pub fn with_psxn_layout(self, layout: PsxnLayout) -> (o: Self)
        ensures
            o.psxn_layout == layout,
            o.prdid_dialect == self.prdid_dialect,
    {
        let mut o = self;
        o.psxn_layout = layout;
        o
    }

    /// These options with the PRDID dialect replaced.
    pub fn with_prdid_dialect(self, dialect: PrdidDialect) -> (o: Self)
        ensures
            o.prdid_dialect == dialect,
            o.psxn_layout == self.psxn_layout,
    {
        let mut o = self;
        o.prdid_dialect = dialect;
        o
    }
}

} // verus!
