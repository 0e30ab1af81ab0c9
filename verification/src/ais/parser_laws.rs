//! Laws of the AIS parser, stated over the sources' and the reassembler's
//! rules.

use vstd::prelude::*;
use crate::ais::aivdm::{wrapper_spec, HeaderView};
use crate::ais::parser::{next_spec, NextOutcome};
use crate::ais::reassembly::{reassembler_wf, same_key, PayloadView, ReassemblerView};
use crate::ais::reassembly_laws::{
    feed_run, in_order_fragments, joined, lemma_carries_after, lemma_in_order_fragments_concatenate,
    lemma_run_step, run_result,
};
use crate::envelope::{SentenceSource, SentenceView};

verus! {

/// The state of a source after `k` calls of `next_sentence` from `s`.
pub open spec fn steps<P: SentenceSource>(s: P::State, k: nat) -> P::State
    decreases k,
{
    if k == 0 {
        s
    } else {
        P::step(steps::<P>(s, (k - 1) as nat)).0
    }
}

/// The same stamp `now` for each of `n` fragments.
pub open spec fn same_stamps(n: nat, now: Option<u64>) -> Seq<Option<u64>> {
    Seq::new(n, |i: int| now)
}

/// The source yields, one per call from state `s`, sentences whose
/// wrappers are the headers `hs`.
pub open spec fn yields_fragments<P: SentenceSource>(s: P::State, raws: Seq<SentenceView>, hs: Seq<HeaderView>) -> bool {
    &&& raws.len() == hs.len()
    &&& forall|i: nat|
        i < hs.len() ==> {
            &&& P::step(#[trigger] steps::<P>(s, i)).1 == Some(Ok::<SentenceView, crate::envelope::EnvelopeError>(raws[i as int]))
            &&& wrapper_spec(raws[i as int]) == Ok::<HeaderView, crate::ais::error::AisError>(hs[i as int])
        }
}

/// Multi-fragment messages reassemble across consecutive sentences: when a
/// source yields, one per call, the fragments 1..=n of one message in
/// order, one `next_message` call of a parser with no deferred error and a
/// free slot, holding no partial on the message's key (channel and
/// sequential id), takes all n of them and returns the message whose
/// payload is theirs concatenated, with the last fragment's fill bits and
/// the first one's `is_own_ship`.
pub proof fn lemma_parser_reassembles_fragments<P: SentenceSource>(
    s: P::State,
    re: ReassemblerView,
    now: Option<u64>,
    raws: Seq<SentenceView>,
    hs: Seq<HeaderView>,
    channel: Option<u8>,
    id: u8,
)
    requires
        reassembler_wf(re),
        re.pending.len() == 0,
        re.partials.len() < re.max_partials,
        forall|j: int| 0 <= j < re.partials.len() ==> !same_key(#[trigger] re.partials[j], channel, id),
        in_order_fragments(hs, channel, id),
        yields_fragments::<P>(s, raws, hs),
    ensures
        next_spec::<P>(s, re, now) == (
            steps::<P>(s, hs.len()),
            feed_run(re, hs, same_stamps(hs.len(), now)),
            NextOutcome::Complete(
                PayloadView {
                    payload: joined(hs, hs.len()),
                    fill_bits: hs[hs.len() - 1].fill_bits,
                    is_own_ship: hs[0].is_own_ship,
                },
            ),
        ),
{
    let nows = same_stamps(hs.len(), now);
    lemma_in_order_fragments_concatenate(re, hs, nows, channel, id);
    assert(hs.take(0) == Seq::<HeaderView>::empty());
    lemma_tail_of_run::<P>(s, re, now, raws, hs, channel, id, 0);
}

/// From any point `k` of the run on, the rest of the run ends in the
/// completed message.
proof fn lemma_tail_of_run<P: SentenceSource>(
    s: P::State,
    re: ReassemblerView,
    now: Option<u64>,
    raws: Seq<SentenceView>,
    hs: Seq<HeaderView>,
    channel: Option<u8>,
    id: u8,
    k: nat,
)
    requires
        reassembler_wf(re),
        re.pending.len() == 0,
        re.partials.len() < re.max_partials,
        forall|j: int| 0 <= j < re.partials.len() ==> !same_key(#[trigger] re.partials[j], channel, id),
        in_order_fragments(hs, channel, id),
        yields_fragments::<P>(s, raws, hs),
        k < hs.len(),
        forall|i: int|
            0 <= i < hs.len() - 1 ==> run_result(re, hs, same_stamps(hs.len(), now), i) == Ok::<
                Option<PayloadView>,
                crate::ais::error::AisError,
            >(None),
        run_result(re, hs, same_stamps(hs.len(), now), hs.len() - 1) == Ok::<
            Option<PayloadView>,
            crate::ais::error::AisError,
        >(
            Some(
                PayloadView {
                    payload: joined(hs, hs.len()),
                    fill_bits: hs[hs.len() - 1].fill_bits,
                    is_own_ship: hs[0].is_own_ship,
                },
            ),
        ),
    ensures
        next_spec::<P>(steps::<P>(s, k), feed_run(re, hs.take(k as int), same_stamps(hs.len(), now)), now) == (
            steps::<P>(s, hs.len()),
            feed_run(re, hs, same_stamps(hs.len(), now)),
            NextOutcome::Complete(
                PayloadView {
                    payload: joined(hs, hs.len()),
                    fill_bits: hs[hs.len() - 1].fill_bits,
                    is_own_ship: hs[0].is_own_ship,
                },
            ),
        ),
    decreases hs.len() - k,
{
    let nows = same_stamps(hs.len(), now);
    let st = steps::<P>(s, k);
    let r0 = feed_run(re, hs.take(k as int), nows);
    if k == 0 {
        assert(hs.take(0) == Seq::<HeaderView>::empty());
        assert(r0 == re);
    } else {
        lemma_carries_after(re, hs, nows, channel, id, k);
    }
    assert(r0.pending.len() == 0);
    assert(P::step(st).1 == Some(Ok::<SentenceView, crate::envelope::EnvelopeError>(raws[k as int])));
    assert(wrapper_spec(raws[k as int]) == Ok::<HeaderView, crate::ais::error::AisError>(hs[k as int]));
    assert(nows[k as int] == now);
    lemma_run_step(re, hs, nows, k as int);
    assert(steps::<P>(s, k + 1) == P::step(st).0);
    let fed = crate::ais::reassembly::feed_spec(r0, hs[k as int], now);
    assert(run_result(re, hs, nows, k as int) == fed.1);
    assert(feed_run(re, hs.take((k + 1) as int), nows) == fed.0);
    if k + 1 == hs.len() {
        assert(hs.take((k + 1) as int) == hs);
    } else {
        assert(fed.1 == Ok::<Option<PayloadView>, crate::ais::error::AisError>(None));
        lemma_tail_of_run::<P>(s, re, now, raws, hs, channel, id, k + 1);
    }
}

} // verus!
