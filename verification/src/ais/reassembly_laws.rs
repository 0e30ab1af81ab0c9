//! Laws of multi-sentence reassembly, stated over the reassembly rules.

use vstd::prelude::*;
use crate::ais::aivdm::HeaderView;
use crate::ais::error::AisError;
use crate::ais::reassembly::{
    append_spec, feed_spec, index_of_id, index_of_key, open_spec, payload_of, reassembler_wf, same_key,
    tick_spec, PartialView, PayloadView, ReassemblerView,
};

verus! {

/// The state after feeding `hs` in order, the `i`-th stamped with `nows[i]`.
pub open spec fn feed_run(r: ReassemblerView, hs: Seq<HeaderView>, nows: Seq<Option<u64>>) -> ReassemblerView
    decreases hs.len(),
{
    if hs.len() == 0 {
        r
    } else {
        feed_spec(feed_run(r, hs.drop_last(), nows), hs.last(), nows[hs.len() - 1]).0
    }
}

/// What the `i`-th call of a run returns.
pub open spec fn run_result(r: ReassemblerView, hs: Seq<HeaderView>, nows: Seq<Option<u64>>, i: int) -> Result<
    Option<PayloadView>,
    AisError,
> {
    feed_spec(feed_run(r, hs.take(i), nows), hs[i], nows[i]).1
}

/// The payloads of the first `k` fragments, concatenated.
pub open spec fn joined(hs: Seq<HeaderView>, k: nat) -> Seq<u8>
    decreases k,
{
    if k == 0 {
        Seq::empty()
    } else {
        joined(hs, (k - 1) as nat) + hs[k - 1].payload
    }
}

/// `hs` are the fragments 1..=n of one message on `channel` with sequential
/// id `id`, in order.
pub open spec fn in_order_fragments(hs: Seq<HeaderView>, channel: Option<u8>, id: u8) -> bool {
    &&& 2 <= hs.len() <= 255
    &&& forall|i: int|
        0 <= i < hs.len() ==> {
            &&& (#[trigger] hs[i]).fragment_count == hs.len()
            &&& hs[i].fragment_number == i + 1
            &&& hs[i].sequential_id == Some(id)
            &&& hs[i].channel == channel
        }
}

/// A fragment that is a whole message is returned at once and leaves the
/// reassembler untouched.
pub proof fn lemma_single_fragment_is_immediate(r: ReassemblerView, h: HeaderView, now: Option<u64>)
    requires
        h.fragment_count == 1,
        h.fragment_number == 1,
    ensures
        feed_spec(r, h, now) == (r, Ok::<Option<PayloadView>, AisError>(Some(payload_of(h)))),
{
}

/// A fragment out of sequence for the partial open on its key is refused
/// and the partial is discarded.
pub proof fn lemma_out_of_order_discards(r: ReassemblerView, h: HeaderView, now: Option<u64>, i: int)
    requires
        2 <= h.fragment_number <= h.fragment_count,
        h.sequential_id matches Some(id) && index_of_key(r.partials, h.channel, id, 0) == Some(i),
        r.partials[i].next_expected != h.fragment_number,
    ensures
        feed_spec(r, h, now) == (
            ReassemblerView { partials: r.partials.remove(i), ..r },
            Err::<Option<PayloadView>, AisError>(AisError::ReassemblyOutOfOrder),
        ),
{
}

/// Opening a partial when every slot is taken evicts the oldest and queues
/// exactly one `ReassemblyTimeout`; the number in flight stays at the bound.
pub proof fn lemma_full_slots_evict_oldest(r: ReassemblerView, h: HeaderView, id: u8, now: Option<u64>)
    requires
        reassembler_wf(r),
        r.partials.len() == r.max_partials,
        forall|j: int| 0 <= j < r.partials.len() ==> !same_key(#[trigger] r.partials[j], h.channel, id),
    ensures
        open_spec(r, h, id, now).partials.len() == r.max_partials,
        open_spec(r, h, id, now).partials.drop_last() == r.partials.drop_first(),
        open_spec(r, h, id, now).pending == r.pending.push(AisError::ReassemblyTimeout),
{
    let pred = |p: PartialView| !same_key(p, h.channel, id);
    lemma_filter_keeps_all(r.partials, pred);
}

/// A later fragment with no partial on its key, while a partial with its
/// sequential id is open on another channel, is refused as a channel
/// mismatch and that partial is discarded.
pub proof fn lemma_channel_mismatch_discards(r: ReassemblerView, h: HeaderView, now: Option<u64>, i: int)
    requires
        2 <= h.fragment_number <= h.fragment_count,
        h.sequential_id matches Some(id) && index_of_key(r.partials, h.channel, id, 0) is None && index_of_id(
            r.partials,
            id,
            0,
        ) == Some(i),
    ensures
        feed_spec(r, h, now) == (
            ReassemblerView { partials: r.partials.remove(i), ..r },
            Err::<Option<PayloadView>, AisError>(AisError::ReassemblyChannelMismatch),
        ),
{
}

proof fn lemma_filter_keeps_all(s: Seq<PartialView>, pred: spec_fn(PartialView) -> bool)
    requires
        forall|j: int| 0 <= j < s.len() ==> pred(#[trigger] s[j]),
    ensures
        s.filter(pred) == s,
    decreases s.len(),
{
    reveal(Seq::filter);
    if s.len() > 0 {
        lemma_filter_keeps_all(s.drop_last(), pred);
        assert(s.drop_last().push(s.last()) == s);
    }
}

/// A tick never evicts a partial fed without a time, evicts only partials
/// older than the timeout, and queues one `ReassemblyTimeout` per eviction.
pub proof fn lemma_tick_evicts_only_stale(r: ReassemblerView, now: u64)
    requires
        r.timeout_ms is Some,
    ensures
        tick_spec(r, now).partials.len() + (tick_spec(r, now).pending.len() - r.pending.len()) == r.partials.len(),
        forall|j: int|
            0 <= j < r.partials.len() && (#[trigger] r.partials[j]).last_touched_ms is None
                ==> tick_spec(r, now).partials.contains(r.partials[j]),
        forall|p: PartialView| #[trigger] tick_spec(r, now).partials.contains(p) ==> r.partials.contains(p) && (
        p.last_touched_ms matches Some(s) ==> (if now >= s { now - s } else { 0 }) <= r.timeout_ms->Some_0),
{
    let t = r.timeout_ms->Some_0;
    let pred = |p: PartialView| crate::ais::reassembly::survives(p, now, t);
    r.partials.lemma_filter_len(pred);
    assert forall|j: int|
        0 <= j < r.partials.len() && (#[trigger] r.partials[j]).last_touched_ms is None implies tick_spec(
        r,
        now,
    ).partials.contains(r.partials[j]) by {
        r.partials.lemma_filter_contains(pred, j);
    }
    assert forall|p: PartialView| #[trigger] tick_spec(r, now).partials.contains(p) implies r.partials.contains(p) && (
    p.last_touched_ms matches Some(s) ==> (if now >= s { now - s } else { 0 }) <= t) by {
        r.partials.lemma_filter_contains_rev(pred, p);
        let k = choose|k: int| 0 <= k < r.partials.filter(pred).len() && r.partials.filter(pred)[k] == p;
        r.partials.lemma_filter_pred(pred, k);
    }
}

proof fn lemma_key_index_unique(ps: Seq<PartialView>, channel: Option<u8>, id: u8, i: int, from: int)
    requires
        0 <= from <= i < ps.len(),
        same_key(ps[i], channel, id),
        forall|j: int| 0 <= j < ps.len() && j != i ==> !same_key(#[trigger] ps[j], channel, id),
    ensures
        index_of_key(ps, channel, id, from) == Some(i),
    decreases i - from,
{
    if from < i {
        lemma_key_index_unique(ps, channel, id, i, from + 1);
    }
}

/// After the first `k` fragments, the message's partial is the only one on
/// its key and holds their payloads.
pub(crate) open spec fn carries(s: ReassemblerView, hs: Seq<HeaderView>, id: u8, k: nat) -> bool {
    exists|i: int|
        0 <= i < s.partials.len() && {
            let p = #[trigger] s.partials[i];
            &&& p.channel == hs[0].channel
            &&& p.sequential_id == id
            &&& p.fragment_count == hs.len()
            &&& p.next_expected == k + 1
            &&& p.is_own_ship == hs[0].is_own_ship
            &&& p.payload == joined(hs, k)
            &&& forall|j: int| 0 <= j < s.partials.len() && j != i ==> !same_key(#[trigger] s.partials[j], hs[0].channel, id)
        }
}

pub(crate) proof fn lemma_run_step(r: ReassemblerView, hs: Seq<HeaderView>, nows: Seq<Option<u64>>, k: int)
    requires
        0 <= k < hs.len(),
    ensures
        feed_run(r, hs.take(k + 1), nows) == feed_spec(feed_run(r, hs.take(k), nows), hs[k], nows[k]).0,
{
    assert(hs.take(k + 1).drop_last() == hs.take(k));
    assert(hs.take(k + 1).last() == hs[k]);
}

pub(crate) proof fn lemma_carries_after(
    r: ReassemblerView,
    hs: Seq<HeaderView>,
    nows: Seq<Option<u64>>,
    channel: Option<u8>,
    id: u8,
    k: nat,
)
    requires
        reassembler_wf(r),
        in_order_fragments(hs, channel, id),
        forall|j: int| 0 <= j < r.partials.len() ==> !same_key(#[trigger] r.partials[j], channel, id),
        1 <= k < hs.len(),
    ensures
        carries(feed_run(r, hs.take(k as int), nows), hs, id, k),
        forall|i: int| 0 <= i < k ==> run_result(r, hs, nows, i) == Ok::<Option<PayloadView>, AisError>(None),
        r.partials.len() < r.max_partials ==> feed_run(r, hs.take(k as int), nows).pending == r.pending,
    decreases k,
{
    lemma_run_step(r, hs, nows, (k - 1) as int);
    let h = hs[k - 1];
    if k == 1 {
        assert(hs.take(0) == Seq::<HeaderView>::empty());
        assert(feed_run(r, hs.take(0), nows) == r);
        let pred = |p: PartialView| !same_key(p, h.channel, id);
        let kept = r.partials.filter(pred);
        let s = open_spec(r, h, id, nows[0]);
        assert(feed_spec(r, h, nows[0]) == (s, Ok::<Option<PayloadView>, AisError>(None)));
        assert forall|j: int| 0 <= j < kept.len() implies !same_key(#[trigger] kept[j], h.channel, id) by {
            assert(kept.contains(kept[j]));
            r.partials.lemma_filter_contains_rev(pred, kept[j]);
        }
        r.partials.lemma_filter_len(pred);
        let last = s.partials.len() - 1;
        assert(h.channel == hs[0].channel);
        assert forall|j: int| 0 <= j < s.partials.len() && j != last implies !same_key(
            #[trigger] s.partials[j],
            hs[0].channel,
            id,
        ) by {
            if kept.len() >= r.max_partials {
                assert(s.partials[j] == kept[j + 1]);
            } else {
                assert(s.partials[j] == kept[j]);
            }
        }
        assert(joined(hs, 1) == hs[0].payload) by {
            assert(joined(hs, 0) == Seq::<u8>::empty());
            assert(Seq::<u8>::empty() + hs[0].payload == hs[0].payload);
        }
        assert(carries(s, hs, id, 1) ) by {
            assert(s.partials[last].sequential_id == id);
        }
        assert forall|i: int| 0 <= i < 1 implies run_result(r, hs, nows, i) == Ok::<Option<PayloadView>, AisError>(
            None,
        ) by {}
    } else {
        lemma_carries_after(r, hs, nows, channel, id, (k - 1) as nat);
        let s0 = feed_run(r, hs.take(k - 1), nows);
        let i = choose|i: int|
            0 <= i < s0.partials.len() && {
                let p = #[trigger] s0.partials[i];
                &&& p.channel == hs[0].channel
                &&& p.sequential_id == id
                &&& p.fragment_count == hs.len()
                &&& p.next_expected == (k - 1) + 1
                &&& p.is_own_ship == hs[0].is_own_ship
                &&& p.payload == joined(hs, (k - 1) as nat)
                &&& forall|j: int|
                    0 <= j < s0.partials.len() && j != i ==> !same_key(#[trigger] s0.partials[j], hs[0].channel, id)
            };
        lemma_key_index_unique(s0.partials, channel, id, i, 0);
        assert(hs[0].channel == channel && h.channel == channel);
        let p = s0.partials[i];
        let grown = PartialView {
            payload: p.payload + h.payload,
            next_expected: if p.next_expected < 255 { (p.next_expected + 1) as u8 } else { 255 },
            last_fill_bits: h.fill_bits,
            last_touched_ms: if nows[k - 1] is Some { nows[k - 1] } else { p.last_touched_ms },
            ..p
        };
        let s1 = ReassemblerView { partials: s0.partials.update(i, grown), ..s0 };
        assert(append_spec(s0, h, id, nows[k - 1]) == (s1, Ok::<Option<PayloadView>, AisError>(None)));
        assert(joined(hs, k) == joined(hs, (k - 1) as nat) + h.payload);
        assert(carries(s1, hs, id, k)) by {
            assert(s1.partials[i] == grown);
            assert forall|j: int| 0 <= j < s1.partials.len() && j != i implies !same_key(
                #[trigger] s1.partials[j],
                hs[0].channel,
                id,
            ) by {
                assert(s1.partials[j] == s0.partials[j]);
            }
        }
        assert forall|q: int| 0 <= q < k implies run_result(r, hs, nows, q) == Ok::<Option<PayloadView>, AisError>(
            None,
        ) by {
            if q == k - 1 {
                assert(run_result(r, hs, nows, q) == append_spec(s0, h, id, nows[k - 1]).1);
            }
        }
    }
}

/// Fragments 1..=n of one message fed in order, into a reassembler holding
/// no partial on its key `(channel, sequential_id)`, are buffered until the
/// last, which
/// returns their payloads concatenated in order with the last fragment's
/// fill bits and the first fragment's `is_own_ship`.
pub proof fn lemma_in_order_fragments_concatenate(
    r: ReassemblerView,
    hs: Seq<HeaderView>,
    nows: Seq<Option<u64>>,
    channel: Option<u8>,
    id: u8,
)
    requires
        reassembler_wf(r),
        in_order_fragments(hs, channel, id),
        forall|j: int| 0 <= j < r.partials.len() ==> !same_key(#[trigger] r.partials[j], channel, id),
    ensures
        forall|i: int| 0 <= i < hs.len() - 1 ==> run_result(r, hs, nows, i) == Ok::<Option<PayloadView>, AisError>(None),
        run_result(r, hs, nows, hs.len() - 1) == Ok::<Option<PayloadView>, AisError>(
            Some(
                PayloadView {
                    payload: joined(hs, hs.len()),
                    fill_bits: hs[hs.len() - 1].fill_bits,
                    is_own_ship: hs[0].is_own_ship,
                },
            ),
        ),
{
    let n = hs.len();
    lemma_carries_after(r, hs, nows, channel, id, (n - 1) as nat);
    let s0 = feed_run(r, hs.take(n - 1), nows);
    let h = hs[n - 1];
    let i = choose|i: int|
        0 <= i < s0.partials.len() && {
            let p = #[trigger] s0.partials[i];
            &&& p.channel == hs[0].channel
            &&& p.sequential_id == id
            &&& p.fragment_count == hs.len()
            &&& p.next_expected == (n - 1) + 1
            &&& p.is_own_ship == hs[0].is_own_ship
            &&& p.payload == joined(hs, (n - 1) as nat)
            &&& forall|j: int| 0 <= j < s0.partials.len() && j != i ==> !same_key(#[trigger] s0.partials[j], hs[0].channel, id)
        };
    lemma_key_index_unique(s0.partials, channel, id, i, 0);
    assert(hs[0].channel == channel && h.channel == channel);
    assert(joined(hs, n) == joined(hs, (n - 1) as nat) + h.payload);
    assert(run_result(r, hs, nows, n - 1) == append_spec(s0, h, id, nows[n - 1]).1);
}

} // verus!
