//! Sans-I/O parsers for maritime and airborne telemetry: NMEA 0183 framing
//! and sentences, AIS (AIVDM/AIVDO) messages with multi-sentence reassembly,
//! and the MISB ST 0601 KLV local set.

pub mod ais;
pub mod envelope;
pub mod text;
pub mod klv;
pub mod nmea;
