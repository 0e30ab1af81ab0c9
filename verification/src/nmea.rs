//! NMEA 0183 sentence support: field primitives, shared field types, the
//! decode options and the typed-message parser wrapper.

pub mod error;
pub mod util;
pub mod number;
pub mod sentences;
pub mod message;
pub mod utc_time;
pub mod status;
pub mod codes;
pub mod psxn;
pub mod options;
pub mod parser;
