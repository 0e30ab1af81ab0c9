# marlin

Sans-I/O parsing of NMEA 0183 sentences and AIS (AIVDM/AIVDO) messages,
and an encoder/decoder for MISB ST 0601 (KLV), with the parsing logic
verified by Verus: bytes go in through `feed`, values come out through
`next_sentence` / `next_message`.

## Layout

- `src/envelope.rs`, `src/envelope/framing.rs`: sentence framing
  (start delimiter, address, fields, `*hh` checksum, TAG block), the
  `SentenceSource` trait with its one-shot and streaming sources, and the
  laws that relate framing, parsing and the two sources.
- `src/ais/`: ASCII armor, the bit reader, the typed message decoders,
  multi-sentence reassembly, the fragment parser, and their laws.
- `src/nmea/`: typed decoders for GGA, GLL, HDT, HDG, RMC, VTG, TLL, TTM,
  PSXN and PRDID, the dispatcher and the parser over a sentence source.
  Numeric fields are validated and handed out as decimal text.
- `src/klv/`: BER lengths, the BCC checksum, the ST 0601 local set with
  its encoder, decoder and timestamp peek, and the round-trip laws.
- `app/`: what stays outside verification: floating-point views of the
  decoded values (degrees, knots, scaled KLV units), the coordinate range
  and PSXN sine-encoded angle resolution, and error types with
  `std::error::Error` for callers.
- `tests/`: tests of the library on concrete inputs.
