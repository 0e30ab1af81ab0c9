use vstd::prelude::*;

verus! {

/// Errors returned by the KLV encoder and decoder. Every variant is an input
/// problem (truncated bytes, a length the input cannot back, a wrong or
/// misplaced checksum, a missing timestamp, a wrong key) or a length that
/// overflows `usize`.
#[derive(Debug, Clone, Copy, PartialEq, Eq, Structural)]
pub enum Error {
    /// The input ended before a length claim could be satisfied.
    Truncated {
        /// Byte offset into the input where the missing data was expected.
        offset: usize,
        /// Number of bytes required to satisfy the read.
        needed: usize,
        /// Number of bytes actually available from `offset` to the end of input.
        available: usize,
    },
    /// A BER long-form length claims more length octets than fit in a
    /// `usize`, or uses the illegal indefinite form (`0x80`).
    LengthOverflow,
    /// The embedded Tag 1 checksum does not match the computed BCC.
    BadChecksum {
        /// Checksum computed over the input bytes.
        computed: u16,
        /// Checksum embedded in the input's Tag 1 item.
        embedded: u16,
    },
    /// The first 16 bytes are not the UAS Datalink LS universal label.
    BadKey,
    /// An item follows the Tag 1 checksum, which must be the last item.
    ChecksumNotLast,
    /// The local set has no Tag 2 precision timestamp, which is mandatory.
    MissingTimestamp,
}

} // verus!
