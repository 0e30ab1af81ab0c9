//! Multi-sentence AIS reassembly.
//!
//! Fragments are keyed by `(channel, sequential_id)`, must arrive in order
//! 1, 2, 3, ..., and are concatenated into one armored payload. The number of
//! concurrent partials is bounded: opening one more than the bound evicts the
//! oldest and queues `ReassemblyTimeout`. With a timeout configured, `tick`
//! evicts partials whose last stamp is older than the timeout.

use vstd::prelude::*;
use std::collections::VecDeque;
use crate::ais::aivdm::{AivdmHeader, HeaderView};
use crate::ais::error::AisError;

verus! {

/// A complete armored payload: the concatenated fragments, the last
/// fragment's fill bits, and `is_own_ship` from the first fragment.
#[derive(Debug, Clone, PartialEq, Eq)]
pub struct ReassembledPayload {
    /// Concatenated armored payload bytes.
    pub payload: Vec<u8>,
    /// Fill bits to strip from the end of the decoded bit stream.
    pub fill_bits: u8,
    /// `is_own_ship` propagated from the first fragment.
    pub is_own_ship: bool,
}

pub struct PayloadView {
    pub payload: Seq<u8>,
    pub fill_bits: u8,
    pub is_own_ship: bool,
}

impl View for ReassembledPayload {
    type V = PayloadView;

    open spec fn view(&self) -> PayloadView {
        PayloadView { payload: self.payload@, fill_bits: self.fill_bits, is_own_ship: self.is_own_ship }
    }
}

/// Default maximum number of concurrent multi-sentence assemblies.
pub const DEFAULT_MAX_PARTIALS: usize = 16;

struct PartialMessage {
    channel: Option<u8>,
    sequential_id: u8,
    fragment_count: u8,
    next_expected: u8,
    is_own_ship: bool,
    payload: Vec<u8>,
    last_fill_bits: u8,
    last_touched_ms: Option<u64>,
}

/// An in-flight partial as plain values.
pub struct PartialView {
    pub channel: Option<u8>,
    pub sequential_id: u8,
    pub fragment_count: u8,
    /// 1-based number of the next fragment expected.
    pub next_expected: u8,
    pub is_own_ship: bool,
    pub payload: Seq<u8>,
    pub last_fill_bits: u8,
    /// Monotonic stamp of the last fragment, when fed with a time.
    pub last_touched_ms: Option<u64>,
}

impl View for PartialMessage {
    type V = PartialView;

    closed spec fn view(&self) -> PartialView {
        PartialView {
            channel: self.channel,
            sequential_id: self.sequential_id,
            fragment_count: self.fragment_count,
            next_expected: self.next_expected,
            is_own_ship: self.is_own_ship,
            payload: self.payload@,
            last_fill_bits: self.last_fill_bits,
            last_touched_ms: self.last_touched_ms,
        }
    }
}

/// The reassembler's state as plain values: the partials oldest first, the
/// slot bound, the timeout, and the queue of deferred errors.
pub struct ReassemblerView {
    pub partials: Seq<PartialView>,
    pub max_partials: nat,
    pub timeout_ms: Option<u64>,
    pub pending: Seq<AisError>,
}

/// Multi-sentence reassembler. Feed it headers in arrival order; it buffers
/// multi-fragment messages and returns a complete payload when one is ready.
pub struct AisReassembler {
    partials: Vec<PartialMessage>,
    max_partials: usize,
    timeout_ms: Option<u64>,
    pending_errors: VecDeque<AisError>,
}

impl View for AisReassembler {
    type V = ReassemblerView;

    closed spec fn view(&self) -> ReassemblerView {
        ReassemblerView {
            partials: self.partials@.map_values(|p: PartialMessage| p@),
            max_partials: self.max_partials as nat,
            timeout_ms: self.timeout_ms,
            pending: self.pending_errors@,
        }
    }
}

// ---------------------------------------------------------------------------
// The reassembly rules over plain values
// ---------------------------------------------------------------------------

pub open spec fn same_key(p: PartialView, channel: Option<u8>, id: u8) -> bool {
    p.channel == channel && p.sequential_id == id
}

/// The state a reassembler keeps between calls.
pub open spec fn reassembler_wf(r: ReassemblerView) -> bool {
    &&& r.max_partials >= 1
    &&& r.partials.len() <= r.max_partials
    &&& forall|i: int|
        0 <= i < r.partials.len() ==> 2 <= (#[trigger] r.partials[i]).next_expected <= r.partials[i].fragment_count
    &&& forall|i: int, j: int|
        0 <= i < j < r.partials.len() ==> !same_key(
            #[trigger] r.partials[i],
            (#[trigger] r.partials[j]).channel,
            r.partials[j].sequential_id,
        )
}

pub open spec fn payload_of(h: HeaderView) -> PayloadView {
    PayloadView { payload: h.payload, fill_bits: h.fill_bits, is_own_ship: h.is_own_ship }
}

/// Start (or restart) the partial of `h`'s key: drop any partial on the same
/// key, evict the oldest when the slots are full, then append the new one.
pub open spec fn open_spec(r: ReassemblerView, h: HeaderView, id: u8, now: Option<u64>) -> ReassemblerView {
    let kept = r.partials.filter(|p: PartialView| !same_key(p, h.channel, id));
    let fresh = PartialView {
        channel: h.channel,
        sequential_id: id,
        fragment_count: h.fragment_count,
        next_expected: 2,
        is_own_ship: h.is_own_ship,
        payload: h.payload,
        last_fill_bits: h.fill_bits,
        last_touched_ms: now,
    };
    if kept.len() >= r.max_partials {
        ReassemblerView {
            partials: kept.drop_first().push(fresh),
            pending: r.pending.push(AisError::ReassemblyTimeout),
            ..r
        }
    } else {
        ReassemblerView { partials: kept.push(fresh), ..r }
    }
}

/// The index of the first partial with sequential id `id`, searching from `i`.
pub open spec fn index_of_id(ps: Seq<PartialView>, id: u8, i: int) -> Option<int>
    decreases ps.len() - i,
{
    if i < 0 || i >= ps.len() {
        None
    } else if ps[i].sequential_id == id {
        Some(i)
    } else {
        index_of_id(ps, id, i + 1)
    }
}

/// The index of the first partial on key `(channel, id)`, searching from `i`.
pub open spec fn index_of_key(ps: Seq<PartialView>, channel: Option<u8>, id: u8, i: int) -> Option<int>
    decreases ps.len() - i,
{
    if i < 0 || i >= ps.len() {
        None
    } else if same_key(ps[i], channel, id) {
        Some(i)
    } else {
        index_of_key(ps, channel, id, i + 1)
    }
}

/// Append a fragment numbered 2 or later to the partial on its key
/// `(channel, sequential_id)`. With no partial on that key, a partial with
/// the same sequential id on another channel is discarded as a channel
/// mismatch; with none at all, the fragment is out of order.
pub open spec fn append_spec(r: ReassemblerView, h: HeaderView, id: u8, now: Option<u64>) -> (
    ReassemblerView,
    Result<Option<PayloadView>, AisError>,
) {
    match index_of_key(r.partials, h.channel, id, 0) {
        None => match index_of_id(r.partials, id, 0) {
            None => (r, Err(AisError::ReassemblyOutOfOrder)),
            Some(i) => (
                ReassemblerView { partials: r.partials.remove(i), ..r },
                Err(AisError::ReassemblyChannelMismatch),
            ),
        },
        Some(i) => {
            let p = r.partials[i];
            let removed = ReassemblerView { partials: r.partials.remove(i), ..r };
            if p.fragment_count != h.fragment_count || p.next_expected != h.fragment_number {
                (removed, Err(AisError::ReassemblyOutOfOrder))
            } else {
                let grown = PartialView {
                    payload: p.payload + h.payload,
                    next_expected: if p.next_expected < 255 { (p.next_expected + 1) as u8 } else { 255 },
                    last_fill_bits: h.fill_bits,
                    last_touched_ms: if now is Some { now } else { p.last_touched_ms },
                    ..p
                };
                if h.fragment_number == p.fragment_count {
                    (
                        removed,
                        Ok(
                            Some(
                                PayloadView {
                                    payload: grown.payload,
                                    fill_bits: grown.last_fill_bits,
                                    is_own_ship: grown.is_own_ship,
                                },
                            ),
                        ),
                    )
                } else {
                    (ReassemblerView { partials: r.partials.update(i, grown), ..r }, Ok(None))
                }
            }
        },
    }
}

/// The effect of feeding one header (stamped with `now` when given).
pub open spec fn feed_spec(r: ReassemblerView, h: HeaderView, now: Option<u64>) -> (
    ReassemblerView,
    Result<Option<PayloadView>, AisError>,
) {
    if h.fragment_count == 0 || h.fragment_number == 0 || h.fragment_number > h.fragment_count {
        (r, Err(AisError::MalformedWrapper))
    } else if h.fragment_count == 1 {
        (r, Ok(Some(payload_of(h))))
    } else {
        match h.sequential_id {
            None => (r, Err(AisError::MalformedWrapper)),
            Some(id) => if h.fragment_number == 1 {
                (open_spec(r, h, id, now), Ok(None))
            } else {
                append_spec(r, h, id, now)
            },
        }
    }
}

/// A partial survives a tick at `now` with timeout `t` unless its stamp is
/// more than `t` milliseconds old.
pub open spec fn survives(p: PartialView, now: u64, t: u64) -> bool {
    match p.last_touched_ms {
        Some(stamp) => (if now >= stamp { now - stamp } else { 0 }) <= t,
        None => true,
    }
}

/// The effect of `tick(now)`.
pub open spec fn tick_spec(r: ReassemblerView, now: u64) -> ReassemblerView {
    match r.timeout_ms {
        None => r,
        Some(t) => {
            let kept = r.partials.filter(|p: PartialView| survives(p, now, t));
            ReassemblerView {
                partials: kept,
                pending: r.pending + Seq::new(
                    (r.partials.len() - kept.len()) as nat,
                    |i: int| AisError::ReassemblyTimeout,
                ),
                ..r
            }
        },
    }
}

pub open spec fn result_view(res: Result<Option<ReassembledPayload>, AisError>) -> Result<
    Option<PayloadView>,
    AisError,
> {
    match res {
        Ok(Some(p)) => Ok(Some(p@)),
        Ok(None) => Ok(None),
        Err(e) => Err(e),
    }
}

// ---------------------------------------------------------------------------
// Executable reassembler
// ---------------------------------------------------------------------------

/// Which partials a pass keeps.
enum RetainRule {
    /// Keep partials not on this `(channel, sequential_id)` key.
    OtherKey(Option<u8>, u8),
    /// Keep partials that survive a tick at `now` with this timeout.
    Alive(u64, u64),
}

spec fn rule_keeps(rule: RetainRule, p: PartialView) -> bool {
    match rule {
        RetainRule::OtherKey(channel, id) => !same_key(p, channel, id),
        RetainRule::Alive(now, t) => survives(p, now, t),
    }
}

spec fn views(ps: Seq<PartialMessage>) -> Seq<PartialView> {
    ps.map_values(|p: PartialMessage| p@)
}

/// The partials of a reassembler satisfy the per-partial invariant and
/// have distinct keys.
spec fn partials_wf(ps: Seq<PartialView>) -> bool {
    &&& forall|i: int| 0 <= i < ps.len() ==> 2 <= (#[trigger] ps[i]).next_expected <= ps[i].fragment_count
    &&& forall|i: int, j: int|
        0 <= i < j < ps.len() ==> !same_key(#[trigger] ps[i], (#[trigger] ps[j]).channel, ps[j].sequential_id)
}

proof fn lemma_filter_step(s: Seq<PartialView>, pred: spec_fn(PartialView) -> bool, i: int)
    requires
        0 <= i < s.len(),
    ensures
        s.subrange(0, i + 1).filter(pred) == if pred(s[i]) {
            s.subrange(0, i).filter(pred).push(s[i])
        } else {
            s.subrange(0, i).filter(pred)
        },
{
    reveal(Seq::filter);
    assert(s.subrange(0, i + 1).drop_last() == s.subrange(0, i));
}

proof fn lemma_filter_wf(s: Seq<PartialView>, pred: spec_fn(PartialView) -> bool)
    requires
        partials_wf(s),
    ensures
        partials_wf(s.filter(pred)),
        s.filter(pred).len() <= s.len(),
    decreases s.len(),
{
    reveal(Seq::filter);
    s.lemma_filter_len(pred);
    if s.len() > 0 {
        let rest = s.drop_last();
        assert(partials_wf(rest)) by {
            assert forall|i: int, j: int| 0 <= i < j < rest.len() implies !same_key(
                #[trigger] rest[i],
                (#[trigger] rest[j]).channel,
                rest[j].sequential_id,
            ) by {
                assert(rest[i] == s[i] && rest[j] == s[j]);
            }
        }
        lemma_filter_wf(rest, pred);
        let f = rest.filter(pred);
        if pred(s.last()) {
            let g = f.push(s.last());
            assert forall|i: int, j: int| 0 <= i < j < g.len() implies !same_key(
                #[trigger] g[i],
                (#[trigger] g[j]).channel,
                g[j].sequential_id,
            ) by {
                if j == g.len() - 1 {
                    assert(f.contains(g[i]));
                    rest.lemma_filter_contains_rev(pred, g[i]);
                    let k = choose|k: int| 0 <= k < rest.len() && rest[k] == g[i];
                    assert(s[k] == g[i]);
                    assert(!same_key(s[k], s[s.len() - 1].channel, s[s.len() - 1].sequential_id));
                } else {
                    assert(g[i] == f[i] && g[j] == f[j]);
                }
            }
            assert forall|i: int| 0 <= i < g.len() implies 2 <= (#[trigger] g[i]).next_expected <= g[i].fragment_count by {
                if i < f.len() {
                    assert(g[i] == f[i]);
                }
            }
        }
    }
}

/// Keep, in order, the partials the rule keeps.
fn retain_where(partials: &mut Vec<PartialMessage>, rule: RetainRule)
    ensures
        views(final(partials)@) == views(old(partials)@).filter(|p: PartialView| rule_keeps(rule, p)),
{
    let ghost pred = |p: PartialView| rule_keeps(rule, p);
    let ghost orig = views(partials@);
    let n = partials.len();
    let mut i: usize = 0;
    let mut j: usize = 0;
    while j < partials.len()
        invariant
            pred == (|p: PartialView| rule_keeps(rule, p)),
            orig.len() == n,
            0 <= i <= orig.len(),
            0 <= j <= partials@.len(),
            views(partials@).subrange(0, j as int) == orig.subrange(0, i as int).filter(pred),
            views(partials@).subrange(j as int, partials@.len() as int) == orig.subrange(i as int, orig.len() as int),
            partials@.len() - j == orig.len() - i,
        decreases partials@.len() - j,
    {
        let keep = match &rule {
            RetainRule::OtherKey(channel, id) => !(crate::ais::reassembly::opt_eq(partials[j].channel, *channel)
                && partials[j].sequential_id == *id),
            RetainRule::Alive(now, t) => match partials[j].last_touched_ms {
                Some(stamp) => now.saturating_sub(stamp) <= *t,
                None => true,
            },
        };
        let ghost prev = views(partials@);
        proof {
            lemma_filter_step(orig, pred, i as int);
            assert(prev.subrange(j as int, prev.len() as int)[0] == prev[j as int]);
            assert(orig[i as int] == prev[j as int]);
            assert(prev[j as int] == partials@[j as int]@);
            assert(keep == rule_keeps(rule, prev[j as int]));
        }
        if keep {
            j = j + 1;
            proof {
                assert(views(partials@).subrange(0, j as int) == prev.subrange(0, j - 1).push(prev[j - 1]));
                assert(pred(orig[i as int]));
                assert(views(partials@).subrange(0, j as int) == orig.subrange(0, i + 1).filter(pred));
                assert forall|k: int| 0 <= k < partials@.len() - j implies views(partials@).subrange(
                    j as int,
                    partials@.len() as int,
                )[k] == orig.subrange(i + 1, orig.len() as int)[k] by {
                    assert(prev.subrange(j - 1, prev.len() as int)[k + 1] == prev[j + k]);
                }
                assert(views(partials@).subrange(j as int, partials@.len() as int) =~= orig.subrange(
                    i + 1,
                    orig.len() as int,
                ));
            }
        } else {
            let _ = partials.remove(j);
            proof {
                assert(views(partials@) =~= prev.remove(j as int));
                assert(views(partials@).subrange(0, j as int) =~= prev.subrange(0, j as int));
                assert(!pred(orig[i as int]));
                assert(views(partials@).subrange(0, j as int) == orig.subrange(0, i + 1).filter(pred));
                assert forall|k: int| 0 <= k < partials@.len() - j implies views(partials@).subrange(
                    j as int,
                    partials@.len() as int,
                )[k] == orig.subrange(i + 1, orig.len() as int)[k] by {
                    assert(views(partials@)[j + k] == prev[j + k + 1]);
                    assert(prev.subrange(j as int, prev.len() as int)[k + 1] == prev[j + k + 1]);
                }
                assert(views(partials@).subrange(j as int, partials@.len() as int) =~= orig.subrange(
                    i + 1,
                    orig.len() as int,
                ));
            }
        }
        i = i + 1;
    }
    proof {
        assert(orig.subrange(0, orig.len() as int) == orig);
        assert(views(partials@).subrange(0, j as int) == views(partials@));
    }
}

fn opt_eq(a: Option<u8>, b: Option<u8>) -> (r: bool)
    ensures
        r == (a == b),
{
    match (a, b) {
        (Some(x), Some(y)) => x == y,
        (None, None) => true,
        _ => false,
    }
}

impl AisReassembler {
    /// The reassembler's state satisfies its invariant.
    pub closed spec fn wf(&self) -> bool {
        reassembler_wf(self@)
    }

    /// What the invariant gives: at least one slot, at most `max_partials`
    /// partials in flight, no two partials on one key, and each partial
    /// expecting a fragment numbered from 2 up to its count.
    pub proof fn lemma_wf(&self)
        requires
            self.wf(),
        ensures
            reassembler_wf(self@),
            self@.partials.len() <= self@.max_partials,
    {
    }

    /// Construct a reassembler with `DEFAULT_MAX_PARTIALS` slots.
    pub fn new() -> (r: Self)
        ensures
            r.wf(),
            r@.partials.len() == 0,
            r@.max_partials == DEFAULT_MAX_PARTIALS,
            r@.timeout_ms is None,
            r@.pending.len() == 0,
    {
        Self::with_max_partials(DEFAULT_MAX_PARTIALS)
    }

    /// Construct a reassembler with at most `max_partials` concurrent
    /// partials; 0 is treated as 1.
    pub fn with_max_partials(max_partials: usize) -> (r: Self)
        ensures
            r.wf(),
            r@.partials.len() == 0,
            r@.max_partials == if max_partials == 0 { 1 } else { max_partials as nat },
            r@.timeout_ms is None,
            r@.pending.len() == 0,
    {
        let r = AisReassembler {
            partials: Vec::new(),
            max_partials: if max_partials == 0 { 1 } else { max_partials },
            timeout_ms: None,
            pending_errors: VecDeque::new(),
        };
        proof {
            assert(r@.partials =~= Seq::<PartialView>::empty());
        }
        r
    }

    /// Construct a reassembler with bounded slots and a clock-based timeout
    /// applied by `tick`.
    pub fn with_timeout_ms(max_partials: usize, timeout_ms: u64) -> (r: Self)
        ensures
            r.wf(),
            r@.partials.len() == 0,
            r@.max_partials == if max_partials == 0 { 1 } else { max_partials as nat },
            r@.timeout_ms == Some(timeout_ms),
            r@.pending.len() == 0,
    {
        let r = AisReassembler {
            partials: Vec::new(),
            max_partials: if max_partials == 0 { 1 } else { max_partials },
            timeout_ms: Some(timeout_ms),
            pending_errors: VecDeque::new(),
        };
        proof {
            assert(r@.partials =~= Seq::<PartialView>::empty());
        }
        r
    }

    /// Maximum number of in-flight partials held before the oldest is evicted.
    pub fn max_partials(&self) -> (n: usize)
        ensures
            n == self@.max_partials,
    {
        self.max_partials
    }

    /// The time-based eviction threshold in milliseconds; `None` when disabled.
    pub fn timeout_ms(&self) -> (t: Option<u64>)
        ensures
            t == self@.timeout_ms,
    {
        self.timeout_ms
    }

    /// Replace the time-based eviction threshold. Stamped partials keep
    /// their stamps.
    pub fn set_timeout_ms(&mut self, timeout_ms: Option<u64>)
        requires
            old(self).wf(),
        ensures
            final(self).wf(),
            final(self)@ == (ReassemblerView { timeout_ms, ..old(self)@ }),
    {
        self.timeout_ms = timeout_ms;
    }

    /// Number of partials currently held.
    pub fn in_flight(&self) -> (n: usize)
        ensures
            n == self@.partials.len(),
    {
        self.partials.len()
    }

    /// Pop the oldest deferred error.
    pub fn take_pending_error(&mut self) -> (e: Option<AisError>)
        requires
            old(self).wf(),
        ensures
            final(self).wf(),
            old(self)@.pending.len() == 0 ==> e is None && final(self)@ == old(self)@,
            old(self)@.pending.len() > 0 ==> e == Some(old(self)@.pending[0]) && final(self)@ == (
            ReassemblerView { pending: old(self)@.pending.drop_first(), ..old(self)@ }),
    {
        let e = self.pending_errors.pop_front();
        proof {
            if old(self)@.pending.len() > 0 {
                assert(self@.pending =~= old(self)@.pending.drop_first());
            }
        }
        e
    }

    /// Evict every stamped partial older than the timeout, queueing one
    /// `ReassemblyTimeout` per eviction. No-op without a timeout; partials
    /// fed without a time are never evicted here.
    pub fn tick(&mut self, now_ms: u64)
        requires
            old(self).wf(),
        ensures
            final(self).wf(),
            final(self)@.partials.len() <= final(self)@.max_partials,
            final(self)@ == tick_spec(old(self)@, now_ms),
    {
        let timeout = match self.timeout_ms {
            Some(t) => t,
            None => return,
        };
        let ghost pred = |p: PartialView| survives(p, now_ms, timeout);
        let ghost orig = self@;
        let before = self.partials.len();
        retain_where(&mut self.partials, RetainRule::Alive(now_ms, timeout));
        proof {
            assert(self@.partials == orig.partials.filter(pred)) by {
                assert((|p: PartialView| rule_keeps(RetainRule::Alive(now_ms, timeout), p)) =~= pred);
            }
            lemma_filter_wf(orig.partials, pred);
        }
        let evicted = before - self.partials.len();
        let mut k: usize = 0;
        while k < evicted
            invariant
                0 <= k <= evicted,
                self.max_partials == orig.max_partials,
                self.timeout_ms == orig.timeout_ms,
                self@.partials == orig.partials.filter(pred),
                evicted == orig.partials.len() - self@.partials.len(),
                self.pending_errors@ == orig.pending + Seq::new(k as nat, |i: int| AisError::ReassemblyTimeout),
            decreases evicted - k,
        {
            self.pending_errors.push_back(AisError::ReassemblyTimeout);
            k = k + 1;
            proof {
                assert(self.pending_errors@ =~= orig.pending + Seq::new(k as nat, |i: int| AisError::ReassemblyTimeout));
            }
        }
    }

    /// Start (or restart) the partial for a first fragment.
    fn open_partial(&mut self, header: &AivdmHeader, id: u8, now_ms: Option<u64>)
        requires
            old(self).wf(),
            header.fragment_count >= 2,
        ensures
            final(self).wf(),
            final(self)@ == open_spec(old(self)@, header@, id, now_ms),
    {
        let ghost orig = self@;
        let ghost pred = |p: PartialView| !same_key(p, header.channel, id);
        retain_where(&mut self.partials, RetainRule::OtherKey(header.channel, id));
        proof {
            assert(self@.partials == orig.partials.filter(pred)) by {
                assert((|p: PartialView| rule_keeps(RetainRule::OtherKey(header.channel, id), p)) =~= pred);
            }
            lemma_filter_wf(orig.partials, pred);
        }
        let ghost kept = self@.partials;
        if self.partials.len() >= self.max_partials {
            let _ = self.partials.remove(0);
            self.pending_errors.push_back(AisError::ReassemblyTimeout);
            proof {
                assert(self@.partials =~= kept.drop_first());
            }
        }
        let ghost before_push = self@.partials;
        self.partials.push(
            PartialMessage {
                channel: header.channel,
                sequential_id: id,
                fragment_count: header.fragment_count,
                next_expected: 2,
                is_own_ship: header.is_own_ship,
                payload: vstd::slice::slice_to_vec(header.payload),
                last_fill_bits: header.fill_bits,
                last_touched_ms: now_ms,
            },
        );
        proof {
            let ps = self@.partials;
            assert(ps =~= before_push.push(ps[ps.len() - 1]));
            assert forall|i: int| 0 <= i < before_push.len() implies !same_key(
                #[trigger] before_push[i],
                header.channel,
                id,
            ) by {
                let k = if kept.len() >= orig.max_partials { i + 1 } else { i };
                assert(before_push[i] == kept[k]);
                orig.partials.lemma_filter_pred(pred, k);
            }
            assert forall|i: int, j: int| 0 <= i < j < ps.len() implies !same_key(
                #[trigger] ps[i],
                (#[trigger] ps[j]).channel,
                ps[j].sequential_id,
            ) by {
                if j < ps.len() - 1 {
                    let d = if kept.len() >= orig.max_partials { 1int } else { 0int };
                    assert(ps[i] == kept[i + d] && ps[j] == kept[j + d]);
                } else {
                    assert(ps[i] == before_push[i]);
                }
            }
            assert forall|i: int| 0 <= i < ps.len() implies 2 <= (#[trigger] ps[i]).next_expected <= ps[i].fragment_count by {
                if i < ps.len() - 1 {
                    let d = if kept.len() >= orig.max_partials { 1int } else { 0int };
                    assert(ps[i] == kept[i + d]);
                }
            }
        }
    }

    /// Append a fragment numbered 2 or later to the partial on its key
    /// `(channel, sequential_id)`.
    fn append_to_partial(&mut self, header: &AivdmHeader, id: u8, now_ms: Option<u64>) -> (res: Result<
        Option<ReassembledPayload>,
        AisError,
    >)
        requires
            old(self).wf(),
            header.fragment_number >= 2,
            header.fragment_number <= header.fragment_count,
        ensures
            final(self).wf(),
            (final(self)@, result_view(res)) == append_spec(old(self)@, header@, id, now_ms),
    {
        let ghost orig = self@;
        let mut idx: usize = 0;
        while idx < self.partials.len()
            invariant
                self@ == orig,
                0 <= idx <= orig.partials.len(),
                index_of_key(orig.partials, header.channel, id, 0) == index_of_key(
                    orig.partials,
                    header.channel,
                    id,
                    idx as int,
                ),
            ensures
                idx < orig.partials.len() ==> same_key(orig.partials[idx as int], header.channel, id),
            decreases orig.partials.len() - idx,
        {
            if self.partials[idx].sequential_id == id && opt_eq(self.partials[idx].channel, header.channel) {
                break;
            }
            idx = idx + 1;
        }
        if idx >= self.partials.len() {
            let mut other: usize = 0;
            while other < self.partials.len()
                invariant
                    self@ == orig,
                    0 <= other <= orig.partials.len(),
                    index_of_id(orig.partials, id, 0) == index_of_id(orig.partials, id, other as int),
                ensures
                    other < orig.partials.len() ==> orig.partials[other as int].sequential_id == id,
                decreases orig.partials.len() - other,
            {
                if self.partials[other].sequential_id == id {
                    break;
                }
                other = other + 1;
            }
            if other >= self.partials.len() {
                return Err(AisError::ReassemblyOutOfOrder);
            }
            proof {
                assert(index_of_id(orig.partials, id, 0) == Some(other as int));
            }
            let _ = self.partials.remove(other);
            proof {
                assert(self@.partials =~= orig.partials.remove(other as int));
                lemma_remove_wf(orig, other as int);
            }
            return Err(AisError::ReassemblyChannelMismatch);
        }
        proof {
            assert(index_of_key(orig.partials, header.channel, id, 0) == Some(idx as int));
        }
        if self.partials[idx].fragment_count != header.fragment_count || self.partials[idx].next_expected
            != header.fragment_number {
            let _ = self.partials.remove(idx);
            proof {
                assert(self@.partials =~= orig.partials.remove(idx as int));
                lemma_remove_wf(orig, idx as int);
            }
            return Err(AisError::ReassemblyOutOfOrder);
        }
        let mut partial = self.partials.remove(idx);
        proof {
            assert(self@.partials =~= orig.partials.remove(idx as int));
            lemma_remove_wf(orig, idx as int);
        }
        crate::text::extend_bytes(&mut partial.payload, header.payload);
        partial.next_expected = partial.next_expected.saturating_add(1);
        partial.last_fill_bits = header.fill_bits;
        if now_ms.is_some() {
            partial.last_touched_ms = now_ms;
        }
        if header.fragment_number == partial.fragment_count {
            return Ok(
                Some(
                    ReassembledPayload {
                        payload: partial.payload,
                        fill_bits: partial.last_fill_bits,
                        is_own_ship: partial.is_own_ship,
                    },
                ),
            );
        }
        let ghost grown = partial@;
        self.partials.insert(idx, partial);
        proof {
            assert(self@.partials =~= orig.partials.update(idx as int, grown));
            let ps = self@.partials;
            assert forall|i: int, j: int| 0 <= i < j < ps.len() implies !same_key(
                #[trigger] ps[i],
                (#[trigger] ps[j]).channel,
                ps[j].sequential_id,
            ) by {
                assert(same_key(ps[i], ps[j].channel, ps[j].sequential_id) == same_key(
                    orig.partials[i],
                    orig.partials[j].channel,
                    orig.partials[j].sequential_id,
                ));
            }
            assert forall|i: int| 0 <= i < ps.len() implies 2 <= (#[trigger] ps[i]).next_expected
                <= ps[i].fragment_count by {
                if i != idx {
                    assert(ps[i] == orig.partials[i]);
                }
            }
        }
        Ok(None)
    }

    fn feed_fragment_impl(&mut self, header: &AivdmHeader, now_ms: Option<u64>) -> (res: Result<
        Option<ReassembledPayload>,
        AisError,
    >)
        requires
            old(self).wf(),
        ensures
            final(self).wf(),
            (final(self)@, result_view(res)) == feed_spec(old(self)@, header@, now_ms),
    {
        if header.fragment_count == 0 || header.fragment_number == 0 || header.fragment_number
            > header.fragment_count {
            return Err(AisError::MalformedWrapper);
        }
        if header.fragment_count == 1 {
            return Ok(
                Some(
                    ReassembledPayload {
                        payload: vstd::slice::slice_to_vec(header.payload),
                        fill_bits: header.fill_bits,
                        is_own_ship: header.is_own_ship,
                    },
                ),
            );
        }
        let id = match header.sequential_id {
            Some(id) => id,
            None => return Err(AisError::MalformedWrapper),
        };
        if header.fragment_number == 1 {
            self.open_partial(header, id, now_ms);
            return Ok(None);
        }
        self.append_to_partial(header, id, now_ms)
    }

    /// Feed an AIVDM/AIVDO header. Returns `Ok(Some(..))` when a complete
    /// armored payload is ready, `Ok(None)` when the fragment was buffered.
    /// Partials opened or appended this way carry no timestamp, so `tick`
    /// does not evict them.
    pub fn feed_fragment(&mut self, header: &AivdmHeader) -> (res: Result<Option<ReassembledPayload>, AisError>)
        requires
            old(self).wf(),
        ensures
            final(self).wf(),
            final(self)@.partials.len() <= final(self)@.max_partials,
            (final(self)@, result_view(res)) == feed_spec(old(self)@, header@, None),
    {
        self.feed_fragment_impl(header, None)
    }

    /// Feed a fragment stamped with the caller's monotonic time `now_ms`,
    /// used by `tick` to evict stale partials.
    pub fn feed_fragment_at(&mut self, header: &AivdmHeader, now_ms: u64) -> (res: Result<
        Option<ReassembledPayload>,
        AisError,
    >)
        requires
            old(self).wf(),
        ensures
            final(self).wf(),
            final(self)@.partials.len() <= final(self)@.max_partials,
            (final(self)@, result_view(res)) == feed_spec(old(self)@, header@, Some(now_ms)),
    {
        self.feed_fragment_impl(header, Some(now_ms))
    }
}

proof fn lemma_remove_wf(r: ReassemblerView, i: int)
    requires
        reassembler_wf(r),
        0 <= i < r.partials.len(),
    ensures
        reassembler_wf(ReassemblerView { partials: r.partials.remove(i), ..r }),
{
    let ps = r.partials.remove(i);
    assert forall|a: int| 0 <= a < ps.len() implies ps[a] == r.partials[if a < i { a } else { a + 1 }] by {}
    assert forall|a: int, b: int| 0 <= a < b < ps.len() implies !same_key(
        #[trigger] ps[a],
        (#[trigger] ps[b]).channel,
        ps[b].sequential_id,
    ) by {
        let ia = if a < i { a } else { a + 1 };
        let ib = if b < i { b } else { b + 1 };
        assert(ps[a] == r.partials[ia] && ps[b] == r.partials[ib]);
    }
    assert forall|a: int| 0 <= a < ps.len() implies 2 <= (#[trigger] ps[a]).next_expected <= ps[a].fragment_count by {
        let ia = if a < i { a } else { a + 1 };
        assert(ps[a] == r.partials[ia]);
    }
}

} // verus!
