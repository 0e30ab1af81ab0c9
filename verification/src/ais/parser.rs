//! AIS parser: framed sentences in, typed messages out, with reassembly.

use vstd::prelude::*;
use crate::ais::aivdm::{parse_aivdm_wrapper, wrapper_spec};
use crate::ais::error::AisError;
use crate::ais::message::{decode_payload, payload_message_matches, AisMessage};
use crate::ais::reassembly::{feed_spec, reassembler_wf, tick_spec, AisReassembler, PayloadView, ReassemblerView};
use crate::envelope::{OneShot, SentenceSource, Streaming};

verus! {

/// What one `next_message` call comes to, before the payload is decoded.
pub enum NextOutcome {
    /// The source had no complete sentence.
    Exhausted,
    /// A deferred reassembly error, or a sentence rejected by framing,
    /// the wrapper or reassembly.
    Failed(AisError),
    /// A payload completed and is decoded.
    Complete(PayloadView),
}

/// The source state, reassembler state and outcome left by one
/// `next_message` call from source state `s` and reassembler state `re`,
/// fragments stamped `now` when given: deferred errors first, then
/// sentences are taken from the source until one fails or completes a
/// payload, or the source has none.
pub open spec fn next_spec<P: SentenceSource>(s: P::State, re: ReassemblerView, now: Option<u64>) -> (
    P::State,
    ReassemblerView,
    NextOutcome,
)
    decreases P::backlog(s),
{
    if re.pending.len() > 0 {
        (s, ReassemblerView { pending: re.pending.drop_first(), ..re }, NextOutcome::Failed(re.pending[0]))
    } else {
        let s2 = P::step(s).0;
        match P::step(s).1 {
            None => (s2, re, NextOutcome::Exhausted),
            Some(Err(e)) => (s2, re, NextOutcome::Failed(AisError::Envelope(e))),
            Some(Ok(raw)) => match wrapper_spec(raw) {
                Err(e) => (s2, re, NextOutcome::Failed(e)),
                Ok(h) => {
                    let re2 = feed_spec(re, h, now).0;
                    match feed_spec(re, h, now).1 {
                        Err(e) => (s2, re2, NextOutcome::Failed(e)),
                        Ok(Some(p)) => (s2, re2, NextOutcome::Complete(p)),
                        Ok(None) => {
                            proof {
                                P::lemma_step_consumes(s);
                            }
                            next_spec::<P>(s2, re2, now)
                        },
                    }
                },
            },
        }
    }
}

/// `r` is what the outcome `out` returns.
pub open spec fn returns_outcome(r: Option<Result<AisMessage, AisError>>, out: NextOutcome) -> bool {
    match out {
        NextOutcome::Exhausted => r is None,
        NextOutcome::Failed(e) => r == Some(Err::<AisMessage, AisError>(e)),
        NextOutcome::Complete(p) => match r {
            Some(res) => payload_message_matches(res, p.payload, p.fill_bits, p.is_own_ship),
            None => false,
        },
    }
}

/// Typed `feed` / `next_message` over a sentence source: each framed
/// sentence is unwrapped, reassembled, armor-decoded and decoded.
pub struct AisFragmentParser<P> {
    inner: P,
    reassembler: AisReassembler,
}

impl<P> AisFragmentParser<P> {
    /// The parser's reassembler satisfies its invariant.
    pub closed spec fn wf(&self) -> bool {
        self.reassembler.wf()
    }

    /// What the invariant gives: the reassembler's state satisfies
    /// `reassembler_wf`, so at most `max_partials` partials are in flight.
    pub proof fn lemma_wf(&self)
        requires
            self.wf(),
        ensures
            reassembler_wf(self.reassembly()),
            self.reassembly().partials.len() <= self.reassembly().max_partials,
    {
        self.reassembler.lemma_wf();
    }

    /// The wrapped sentence source.
    pub closed spec fn source(&self) -> P {
        self.inner
    }

    /// The reassembler's state.
    pub closed spec fn reassembly(&self) -> ReassemblerView {
        self.reassembler@
    }

    /// Wrap a source with a default reassembler.
    pub fn new(inner: P) -> (p: Self)
        ensures
            p.wf(),
            p.source() == inner,
            p.reassembly().partials.len() == 0,
            p.reassembly().pending.len() == 0,
            p.reassembly().timeout_ms is None,
            p.reassembly().max_partials == crate::ais::reassembly::DEFAULT_MAX_PARTIALS,
    {
        AisFragmentParser { inner, reassembler: AisReassembler::new() }
    }

    /// Wrap a source with a caller-configured reassembler.
    pub fn with_reassembler(inner: P, reassembler: AisReassembler) -> (p: Self)
        requires
            reassembler.wf(),
        ensures
            p.wf(),
            p.source() == inner,
            p.reassembly() == reassembler@,
    {
        AisFragmentParser { inner, reassembler }
    }

    /// The wrapped source.
    pub fn inner(&self) -> (r: &P)
        ensures
            *r == self.source(),
    {
        &self.inner
    }

    /// The wrapped source, mutably.
    pub fn inner_mut(&mut self) -> (r: &mut P)
        ensures
            *r == old(self).source(),
            final(self).source() == *final(r),
            final(self).reassembly() == old(self).reassembly(),
            final(self).wf() == old(self).wf(),
    {
        &mut self.inner
    }

    /// The reassembler.
    pub fn reassembler(&self) -> (r: &AisReassembler)
        ensures
            r@ == self.reassembly(),
    {
        &self.reassembler
    }

    /// Unwrap the source.
    pub fn into_inner(self) -> (p: P)
        ensures
            p == self.source(),
    {
        self.inner
    }
}

impl<P: Default> Default for AisFragmentParser<P> {
    /// A default source behind a default reassembler.
    fn default() -> (p: Self)
        ensures
            p.wf(),
            p.reassembly().partials.len() == 0,
            p.reassembly().pending.len() == 0,
            p.reassembly().timeout_ms is None,
            p.reassembly().max_partials == crate::ais::reassembly::DEFAULT_MAX_PARTIALS,
    {
        AisFragmentParser::new(P::default())
    }
}

impl<P: SentenceSource> AisFragmentParser<P> {
    /// `after` is this parser after one `next_message` call (after a
    /// `tick(t)`, fragments stamped `t`, when `now` is `Some(t)`) that
    /// returned `r`.
    pub open spec fn advanced(self, after: Self, r: Option<Result<AisMessage, AisError>>, now: Option<u64>) -> bool {
        let re = match now {
            Some(t) => tick_spec(self.reassembly(), t),
            None => self.reassembly(),
        };
        let (s, re2, out) = next_spec::<P>(self.source().state(), re, now);
        &&& after.wf()
        &&& after.source().state() == s
        &&& after.reassembly() == re2
        &&& returns_outcome(r, out)
    }

    /// Hand the source more bytes.
    pub fn feed(&mut self, bytes: &[u8])
        requires
            old(self).wf(),
        ensures
            final(self).wf(),
            final(self).reassembly() == old(self).reassembly(),
            final(self).source().state() == P::fed(old(self).source().state(), bytes@),
    {
        self.inner.feed(bytes);
    }

    /// The next message, error, or `None` when the source has no complete
    /// sentence. Deferred reassembly errors come first, oldest first;
    /// buffered fragments are consumed until a message completes.
    pub fn next_message(&mut self) -> (r: Option<Result<AisMessage, AisError>>)
        requires
            old(self).wf(),
        ensures
            old(self).advanced(*final(self), r, None),
    {
        self.next_from_source(None)
    }

    /// As `next_message`, after a `tick(now_ms)` of the reassembler, with
    /// fragments stamped `now_ms`.
    pub fn next_message_at(&mut self, now_ms: u64) -> (r: Option<Result<AisMessage, AisError>>)
        requires
            old(self).wf(),
        ensures
            old(self).advanced(*final(self), r, Some(now_ms)),
    {
        self.reassembler.tick(now_ms);
        self.next_from_source(Some(now_ms))
    }

    fn next_from_source(&mut self, now: Option<u64>) -> (r: Option<Result<AisMessage, AisError>>)
        requires
            old(self).wf(),
        ensures
            final(self).wf(),
            ({
                let (s, re, out) = next_spec::<P>(old(self).source().state(), old(self).reassembly(), now);
                &&& final(self).source().state() == s
                &&& final(self).reassembly() == re
                &&& returns_outcome(r, out)
            }),
    {
        loop
            invariant
                self.wf(),
                next_spec::<P>(self.inner.state(), self.reassembler@, now) == next_spec::<P>(
                    old(self).inner.state(),
                    old(self).reassembler@,
                    now,
                ),
            decreases P::backlog(self.inner.state()),
        {
            match self.reassembler.take_pending_error() {
                Some(err) => return Some(Err(err)),
                None => {},
            }
            let ghost s0 = self.inner.state();
            let raw = match self.inner.next_sentence() {
                Some(Ok(r)) => r,
                Some(Err(e)) => return Some(Err(AisError::Envelope(e))),
                None => return None,
            };
            proof {
                P::lemma_step_consumes(s0);
            }
            let header = match parse_aivdm_wrapper(&raw) {
                Ok(h) => h,
                Err(e) => return Some(Err(e)),
            };
            let fed = match now {
                Some(t) => self.reassembler.feed_fragment_at(&header, t),
                None => self.reassembler.feed_fragment(&header),
            };
            match fed {
                Ok(Some(assembled)) => return Some(
                    decode_payload(assembled.payload.as_slice(), assembled.fill_bits, assembled.is_own_ship),
                ),
                Ok(None) => {},
                Err(e) => return Some(Err(e)),
            }
        }
    }
}

/// An AIS parser over either source, chosen at run time.
pub enum Parser {
    /// Datagram-at-a-time input.
    OneShot(AisFragmentParser<OneShot>),
    /// Byte-stream input.
    Streaming(AisFragmentParser<Streaming>),
}

impl Parser {
    /// The parser's invariant.
    pub closed spec fn wf(&self) -> bool {
        match self {
            Parser::OneShot(p) => p.wf(),
            Parser::Streaming(p) => p.wf(),
        }
    }

    /// A parser over datagram input.
    pub fn one_shot() -> (p: Self)
        ensures
            p.wf(),
            p matches Parser::OneShot(q) && q.source().state() == (Seq::<u8>::empty(), false)
                && q.reassembly().partials.len() == 0 && q.reassembly().pending.len() == 0,
    {
        Parser::OneShot(AisFragmentParser::new(OneShot::new()))
    }

    /// A parser over byte-stream input with the default capacity.
    pub fn streaming() -> (p: Self)
        ensures
            p.wf(),
            p matches Parser::Streaming(q) && q.source().state() == (
                Seq::<u8>::empty(),
                crate::envelope::DEFAULT_MAX_SIZE as nat,
            ) && q.reassembly().partials.len() == 0 && q.reassembly().pending.len() == 0,
    {
        Parser::Streaming(AisFragmentParser::new(Streaming::new()))
    }

    /// A parser over byte-stream input with capacity `max_size`.
    pub fn streaming_with_capacity(max_size: usize) -> (p: Self)
        ensures
            p.wf(),
            p matches Parser::Streaming(q) && q.source().state() == (Seq::<u8>::empty(), max_size as nat)
                && q.reassembly().partials.len() == 0 && q.reassembly().pending.len() == 0,
    {
        Parser::Streaming(AisFragmentParser::new(Streaming::with_capacity(max_size)))
    }

    /// `after` is this parser, of the same kind, after feeding `bytes`.
    pub open spec fn fed(self, after: Self, bytes: Seq<u8>) -> bool {
        match (self, after) {
            (Parser::OneShot(a), Parser::OneShot(b)) => b.wf() && b.reassembly() == a.reassembly()
                && b.source().state() == OneShot::fed(a.source().state(), bytes),
            (Parser::Streaming(a), Parser::Streaming(b)) => b.wf() && b.reassembly() == a.reassembly()
                && b.source().state() == Streaming::fed(a.source().state(), bytes),
            _ => false,
        }
    }

    /// `after` is this parser, of the same kind, after one `next_message`
    /// call (stamped `now` when given) that returned `r`.
    pub open spec fn advanced(self, after: Self, r: Option<Result<AisMessage, AisError>>, now: Option<u64>) -> bool {
        match (self, after) {
            (Parser::OneShot(a), Parser::OneShot(b)) => a.advanced(b, r, now),
            (Parser::Streaming(a), Parser::Streaming(b)) => a.advanced(b, r, now),
            _ => false,
        }
    }

    /// Hand the parser more bytes.
    pub fn feed(&mut self, bytes: &[u8])
        requires
            old(self).wf(),
        ensures
            old(self).fed(*final(self), bytes@),
    {
        match self {
            Parser::OneShot(p) => p.feed(bytes),
            Parser::Streaming(p) => p.feed(bytes),
        }
    }

    /// The next message, error, or `None`.
    pub fn next_message(&mut self) -> (r: Option<Result<AisMessage, AisError>>)
        requires
            old(self).wf(),
        ensures
            old(self).advanced(*final(self), r, None),
    {
        match self {
            Parser::OneShot(p) => p.next_message(),
            Parser::Streaming(p) => p.next_message(),
        }
    }

    /// The next message after expiring partials older than the timeout at `now_ms`.
    pub fn next_message_at(&mut self, now_ms: u64) -> (r: Option<Result<AisMessage, AisError>>)
        requires
            old(self).wf(),
        ensures
            old(self).advanced(*final(self), r, Some(now_ms)),
    {
        match self {
            Parser::OneShot(p) => p.next_message_at(now_ms),
            Parser::Streaming(p) => p.next_message_at(now_ms),
        }
    }
}

} // verus!
