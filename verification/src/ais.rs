//! AIS (AIVDM/AIVDO) decoding: ASCII armor, bit reader, typed messages,
//! multi-sentence reassembly.

pub mod armor;
pub mod error;
pub mod bit_reader;
pub mod aivdm;
pub mod reassembly;
pub mod reassembly_laws;
pub mod fields;
pub mod shared_types;
pub mod position_report_a;
pub mod position_report_b;
pub mod extended_position_report_b;
pub mod static_voyage_a;
pub mod static_data_b;
pub mod message;
pub mod parser;
pub mod parser_laws;
pub mod layout_laws;
