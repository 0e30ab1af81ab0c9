//! Typed-message parser wrapper over a sentence source.

use vstd::prelude::*;
use crate::envelope::{EnvelopeError, OneShot, RawSentence, SentenceSource, SentenceView, Streaming};
use crate::nmea::error::DecodeError;
use crate::nmea::options::DecodeOptions;

verus! {

/// Either layer's failure: framing or field decoding.
#[derive(Debug, Clone, Copy, PartialEq, Eq, Structural)]
#[non_exhaustive]
pub enum Nmea0183Error {
    /// Framing failure from the sentence source.
    Envelope(EnvelopeError),
    /// Field decoding failure.
    Decode(DecodeError),
}

/// A parser item as plain values.
pub open spec fn item_view(r: Option<Result<RawSentence, Nmea0183Error>>) -> Option<Result<SentenceView, Nmea0183Error>> {
    match r {
        Some(Ok(raw)) => Some(Ok(raw@)),
        Some(Err(e)) => Some(Err(e)),
        None => None,
    }
}

/// A source item as the parser reports it: framing errors are wrapped.
pub open spec fn lift_item(x: Option<Result<SentenceView, EnvelopeError>>) -> Option<Result<SentenceView, Nmea0183Error>> {
    match x {
        Some(Ok(v)) => Some(Ok(v)),
        Some(Err(e)) => Some(Err(Nmea0183Error::Envelope(e))),
        None => None,
    }
}

/// A sentence source together with the options its sentences are decoded with.
pub struct Nmea0183Parser<P> {
    inner: P,
    options: DecodeOptions,
}

impl<P> Nmea0183Parser<P> {
    /// The wrapped source.
    pub closed spec fn source(&self) -> P {
        self.inner
    }

    /// The decode options.
    pub closed spec fn opts(&self) -> DecodeOptions {
        self.options
    }

    /// Wrap a source with the default options.
    pub fn new(inner: P) -> (p: Self)
        ensures
            p.source() == inner,
            p.opts().prdid_dialect == crate::nmea::options::PrdidDialect::Unknown,
            p.opts().psxn_layout.slots@ == crate::nmea::psxn::default_layout_slots(),
            !p.opts().psxn_layout.raw_radians,
    {
        Nmea0183Parser { inner, options: DecodeOptions::default() }
    }

    /// Wrap a source with the given options.
    pub fn with_options(inner: P, options: DecodeOptions) -> (p: Self)
        ensures
            p.source() == inner,
            p.opts() == options,
    {
        Nmea0183Parser { inner, options }
    }

    /// The decode options.
    pub fn options(&self) -> (o: &DecodeOptions)
        ensures
            *o == self.opts(),
    {
        &self.options
    }

    /// Replace the decode options.
    pub fn set_options(&mut self, options: DecodeOptions)
        ensures
            final(self).opts() == options,
            final(self).source() == old(self).source(),
    {
        self.options = options;
    }

    /// The wrapped source.
    pub fn inner(&self) -> (r: &P)
        ensures
            *r == self.source(),
    {
        &self.inner
    }

    /// The wrapped source, mutably.
    pub fn inner_mut(&mut self) -> (r: &mut P)
        ensures
            *r == old(self).source(),
            final(self).source() == *final(r),
            final(self).opts() == old(self).opts(),
    {
        &mut self.inner
    }

    /// Unwrap the source.
    pub fn into_inner(self) -> (p: P)
        ensures
            p == self.source(),
    {
        self.inner
    }
}

impl<P: Default> Default for Nmea0183Parser<P> {
    /// A default source with the default options.
    fn default() -> (p: Self)
        ensures
            p.opts().prdid_dialect == crate::nmea::options::PrdidDialect::Unknown,
            p.opts().psxn_layout.slots@ == crate::nmea::psxn::default_layout_slots(),
            !p.opts().psxn_layout.raw_radians,
    {
        Nmea0183Parser::new(P::default())
    }
}

impl<P: SentenceSource> Nmea0183Parser<P> {
    /// `after` is this parser after one `next_sentence` call that returned `r`.
    pub open spec fn stepped(self, after: Self, r: Option<Result<RawSentence, Nmea0183Error>>) -> bool {
        &&& after.opts() == self.opts()
        &&& after.source().state() == P::step(self.source().state()).0
        &&& item_view(r) == lift_item(P::step(self.source().state()).1)
    }

    /// Hand the source more bytes.
    pub fn feed(&mut self, bytes: &[u8])
        ensures
            final(self).opts() == old(self).opts(),
            final(self).source().state() == P::fed(old(self).source().state(), bytes@),
    {
        self.inner.feed(bytes);
    }

    /// The next framed sentence, a framing failure as
    /// `Nmea0183Error::Envelope`, or `None` when no complete sentence is
    /// buffered. Decoding it is [`crate::nmea::message::decode_with`]'s.
    pub fn next_sentence(&mut self) -> (r: Option<Result<RawSentence, Nmea0183Error>>)
        ensures
            old(self).stepped(*final(self), r),
    {
        match self.inner.next_sentence() {
            None => None,
            Some(Ok(raw)) => Some(Ok(raw)),
            Some(Err(e)) => Some(Err(Nmea0183Error::Envelope(e))),
        }
    }
}

/// A parser over either source, chosen at run time.
pub enum Parser {
    /// Datagram-at-a-time input.
    OneShot(Nmea0183Parser<OneShot>),
    /// Byte-stream input.
    Streaming(Nmea0183Parser<Streaming>),
}

impl Parser {
    /// The options of whichever parser this is.
    pub open spec fn opts(&self) -> DecodeOptions {
        match self {
            Parser::OneShot(p) => p.opts(),
            Parser::Streaming(p) => p.opts(),
        }
    }

    /// A datagram parser with the default options.
    pub fn one_shot() -> (p: Self)
        ensures
            p matches Parser::OneShot(q) && q.source().state() == (Seq::<u8>::empty(), false),
            p.opts().prdid_dialect == crate::nmea::options::PrdidDialect::Unknown,
            p.opts().psxn_layout.slots@ == crate::nmea::psxn::default_layout_slots(),
            !p.opts().psxn_layout.raw_radians,
    {
        Parser::OneShot(Nmea0183Parser::new(OneShot::new()))
    }

    /// A datagram parser with the given options.
    pub fn one_shot_with_options(options: DecodeOptions) -> (p: Self)
        ensures
            p matches Parser::OneShot(q) && q.source().state() == (Seq::<u8>::empty(), false),
            p.opts() == options,
    {
        Parser::OneShot(Nmea0183Parser::with_options(OneShot::new(), options))
    }

    /// A byte-stream parser with the default capacity and options.
    pub fn streaming() -> (p: Self)
        ensures
            p matches Parser::Streaming(q) && q.source().state() == (
                Seq::<u8>::empty(),
                crate::envelope::DEFAULT_MAX_SIZE as nat,
            ),
            p.opts().prdid_dialect == crate::nmea::options::PrdidDialect::Unknown,
            p.opts().psxn_layout.slots@ == crate::nmea::psxn::default_layout_slots(),
            !p.opts().psxn_layout.raw_radians,
    {
        Parser::Streaming(Nmea0183Parser::new(Streaming::new()))
    }

    /// A byte-stream parser with capacity `max_size` and the default options.
    pub fn streaming_with_capacity(max_size: usize) -> (p: Self)
        ensures
            p matches Parser::Streaming(q) && q.source().state() == (Seq::<u8>::empty(), max_size as nat),
            p.opts().prdid_dialect == crate::nmea::options::PrdidDialect::Unknown,
            p.opts().psxn_layout.slots@ == crate::nmea::psxn::default_layout_slots(),
            !p.opts().psxn_layout.raw_radians,
    {
        Parser::Streaming(Nmea0183Parser::new(Streaming::with_capacity(max_size)))
    }

    /// A byte-stream parser with the given options.
    pub fn streaming_with_options(options: DecodeOptions) -> (p: Self)
        ensures
            p matches Parser::Streaming(q) && q.source().state() == (
                Seq::<u8>::empty(),
                crate::envelope::DEFAULT_MAX_SIZE as nat,
            ),
            p.opts() == options,
    {
        Parser::Streaming(Nmea0183Parser::with_options(Streaming::new(), options))
    }

    /// The decode options.
    pub fn options(&self) -> (o: &DecodeOptions)
        ensures
            *o == self.opts(),
    {
        match self {
            Parser::OneShot(p) => p.options(),
            Parser::Streaming(p) => p.options(),
        }
    }

    /// Replace the decode options.
    pub fn set_options(&mut self, options: DecodeOptions)
        ensures
            final(self).opts() == options,
            match (*old(self), *final(self)) {
                (Parser::OneShot(a), Parser::OneShot(b)) => b.source() == a.source(),
                (Parser::Streaming(a), Parser::Streaming(b)) => b.source() == a.source(),
                _ => false,
            },
    {
        match self {
            Parser::OneShot(p) => p.set_options(options),
            Parser::Streaming(p) => p.set_options(options),
        }
    }

    /// `after` is this parser, of the same kind, after feeding `bytes`.
    pub open spec fn fed(self, after: Self, bytes: Seq<u8>) -> bool {
        match (self, after) {
            (Parser::OneShot(a), Parser::OneShot(b)) => b.opts() == a.opts() && b.source().state()
                == OneShot::fed(a.source().state(), bytes),
            (Parser::Streaming(a), Parser::Streaming(b)) => b.opts() == a.opts() && b.source().state()
                == Streaming::fed(a.source().state(), bytes),
            _ => false,
        }
    }

    /// `after` is this parser, of the same kind, after one `next_sentence`
    /// call that returned `r`.
    pub open spec fn stepped(self, after: Self, r: Option<Result<RawSentence, Nmea0183Error>>) -> bool {
        match (self, after) {
            (Parser::OneShot(a), Parser::OneShot(b)) => a.stepped(b, r),
            (Parser::Streaming(a), Parser::Streaming(b)) => a.stepped(b, r),
            _ => false,
        }
    }

    /// Hand the parser more bytes.
    pub fn feed(&mut self, bytes: &[u8])
        ensures
            old(self).fed(*final(self), bytes@),
    {
        match self {
            Parser::OneShot(p) => p.feed(bytes),
            Parser::Streaming(p) => p.feed(bytes),
        }
    }

    /// The next framed sentence of whichever parser this is.
    pub fn next_sentence(&mut self) -> (r: Option<Result<RawSentence, Nmea0183Error>>)
        ensures
            old(self).stepped(*final(self), r),
    {
        match self {
            Parser::OneShot(p) => p.next_sentence(),
            Parser::Streaming(p) => p.next_sentence(),
        }
    }
}

} // verus!
