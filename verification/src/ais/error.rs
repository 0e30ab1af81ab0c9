use vstd::prelude::*;
use crate::envelope::EnvelopeError;

verus! {

/// Errors that can occur while decoding AIS sentences.
#[derive(Debug, Clone, Copy, PartialEq, Eq, Structural)]
#[non_exhaustive]
pub enum AisError {
    /// Framing failure (start delimiter, checksum, TAG block, buffer
    /// overflow) from the sentence source.
    Envelope(EnvelopeError),
    /// The sentence is not an AIS encapsulation sentence — its start
    /// delimiter is not `!` or its sentence type is not `VDM`/`VDO`.
    NotAnAisSentence,
    /// The AIVDM/AIVDO wrapper fields are missing or structurally malformed.
    MalformedWrapper,
    /// A byte in the armored payload is not in the AIS 6-bit armor alphabet.
    InvalidArmorChar(u8),
    /// The declared fill-bits count is out of range (must be 0..=5).
    InvalidFillBits(u8),
    /// The declared fill-bits count exceeds the payload's bit count, or the
    /// payload is shorter than its message type requires.
    PayloadTooShort,
    /// The payload length × 6 would overflow `usize`.
    PayloadTooLong,
    /// Message type field did not match any decoder known to this crate.
    UnknownMessageType(u8),
    /// Multi-sentence reassembly received a fragment out of the expected order.
    ReassemblyOutOfOrder,
    /// Multi-sentence reassembly saw fragments with mismatched channels.
    ReassemblyChannelMismatch,
    /// A partial multi-sentence reassembly was dropped before completing.
    ReassemblyTimeout,
}

} // verus!
