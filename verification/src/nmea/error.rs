use vstd::prelude::*;

verus! {

/// Errors from decoding the fields of an NMEA 0183 sentence.
#[derive(Debug, Clone, Copy, PartialEq, Eq, Structural)]
#[non_exhaustive]
pub enum DecodeError {
    /// The sentence has fewer fields than the type needs.
    NotEnoughFields {
        /// The number of fields required.
        expected: usize,
        /// The number of fields present.
        got: usize,
    },
    /// A numeric field does not parse.
    InvalidNumber {
        /// Index of the field (0 = first field after the address).
        field_index: usize,
    },
    /// A field's value is out of range for its meaning.
    OutOfRange {
        /// Index of the field.
        field_index: usize,
    },
    /// A hemisphere or direction indicator is missing or invalid.
    InvalidHemisphere {
        /// Index of the indicator field.
        field_index: usize,
    },
    /// A field is not valid UTF-8.
    InvalidUtf8 {
        /// Index of the field.
        field_index: usize,
    },
    /// A time or date field is malformed.
    InvalidUtcTime {
        /// Index of the field.
        field_index: usize,
    },
}

} // verus!
