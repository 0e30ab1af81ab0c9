//! MISB ST 0601 (UAS Datalink Local Set) KLV encoder and decoder.
//!
//! Wire format: the 16-byte UAS LS universal label, a BER length, then
//! tag/BER-length/value items with big-endian values, framed by Tag 2
//! (precision timestamp, first) and Tag 1 (16-bit BCC checksum, last).

pub mod ber;
pub mod checksum;
pub mod error;
pub mod st0601;
pub mod round_trip;
pub mod tags;
pub mod registry_laws;
