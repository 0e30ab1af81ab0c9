//! Typed decoders for individual NMEA 0183 sentence types. Each decoder
//! takes a framed sentence and decodes its fields; it does not check the
//! sentence type, which is the caller's to route on.

pub mod fields;
pub mod gga;
pub mod rmc;
pub mod gll;
pub mod vtg;
pub mod hdt;
pub mod hdg;
pub mod tll;
pub mod ttm;
pub mod prdid;
pub mod psxn;
pub mod field_laws;
