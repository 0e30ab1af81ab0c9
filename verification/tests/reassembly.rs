//! Multi-sentence reassembly.

use marlin::ais::aivdm::AivdmHeader;
use marlin::ais::error::AisError;
use marlin::ais::reassembly::AisReassembler;

fn header(
    frag_count: u8,
    frag_num: u8,
    seq_id: Option<u8>,
    channel: Option<u8>,
    payload: &[u8],
    fill_bits: u8,
) -> AivdmHeader<'_> {
    AivdmHeader {
        is_own_ship: false,
        fragment_count: frag_count,
        fragment_number: frag_num,
        sequential_id: seq_id,
        channel,
        payload,
        fill_bits,
    }
}

// Single-fragment fast path

#[test]
fn single_fragment_returns_immediately() {
    let mut r = AisReassembler::new();
    let h = header(1, 1, None, Some(b'A'), b"HELLO", 2);
    let out = r.feed_fragment(&h).unwrap().unwrap();
    assert_eq!(out.payload, b"HELLO");
    assert_eq!(out.fill_bits, 2);
    assert_eq!(r.in_flight(), 0);
}

#[test]
fn single_fragment_propagates_is_own_ship() {
    let mut r = AisReassembler::new();
    let mut h = header(1, 1, None, Some(b'A'), b"X", 0);
    h.is_own_ship = true;
    let out = r.feed_fragment(&h).unwrap().unwrap();
    assert!(out.is_own_ship);
}

// Two-fragment in-order happy path

#[test]
fn two_fragments_in_order_complete() {
    let mut r = AisReassembler::new();
    assert!(r
        .feed_fragment(&header(2, 1, Some(3), Some(b'A'), b"AAA", 0))
        .unwrap()
        .is_none());
    assert_eq!(r.in_flight(), 1);
    let out = r
        .feed_fragment(&header(2, 2, Some(3), Some(b'A'), b"BBB", 2))
        .unwrap()
        .unwrap();
    assert_eq!(out.payload, b"AAABBB");
    assert_eq!(out.fill_bits, 2);
    assert_eq!(r.in_flight(), 0);
}

#[test]
fn three_fragments_in_order_complete() {
    let mut r = AisReassembler::new();
    for (n, frag) in [(1u8, &b"AA"[..]), (2, &b"BB"[..])] {
        let h = header(3, n, Some(5), Some(b'A'), frag, 0);
        assert!(r.feed_fragment(&h).unwrap().is_none());
    }
    let out = r
        .feed_fragment(&header(3, 3, Some(5), Some(b'A'), b"CC", 4))
        .unwrap()
        .unwrap();
    assert_eq!(out.payload, b"AABBCC");
    assert_eq!(out.fill_bits, 4);
}

// Out-of-order handling

#[test]
fn out_of_order_yields_error_and_discards_partial() {
    let mut r = AisReassembler::new();
    assert!(r
        .feed_fragment(&header(3, 1, Some(1), Some(b'A'), b"AAA", 0))
        .unwrap()
        .is_none());
    // Skip fragment 2, jump to 3.
    match r.feed_fragment(&header(3, 3, Some(1), Some(b'A'), b"CCC", 0)) {
        Err(AisError::ReassemblyOutOfOrder) => {}
        other => panic!("expected ReassemblyOutOfOrder, got {other:?}"),
    }
    assert_eq!(r.in_flight(), 0);
}

#[test]
fn fragment_without_prior_first_is_out_of_order() {
    let mut r = AisReassembler::new();
    match r.feed_fragment(&header(2, 2, Some(9), Some(b'A'), b"X", 0)) {
        Err(AisError::ReassemblyOutOfOrder) => {}
        other => panic!("expected ReassemblyOutOfOrder, got {other:?}"),
    }
}

#[test]
fn inconsistent_fragment_count_is_out_of_order() {
    let mut r = AisReassembler::new();
    r.feed_fragment(&header(2, 1, Some(1), Some(b'A'), b"A", 0))
        .unwrap();
    match r.feed_fragment(&header(3, 2, Some(1), Some(b'A'), b"B", 0)) {
        Err(AisError::ReassemblyOutOfOrder) => {}
        other => panic!("expected ReassemblyOutOfOrder, got {other:?}"),
    }
    assert_eq!(r.in_flight(), 0);
}

// Channel mismatch

#[test]
fn channel_mismatch_between_fragments_yields_dedicated_error() {
    let mut r = AisReassembler::new();
    r.feed_fragment(&header(2, 1, Some(4), Some(b'A'), b"A", 0))
        .unwrap();
    match r.feed_fragment(&header(2, 2, Some(4), Some(b'B'), b"B", 0)) {
        Err(AisError::ReassemblyChannelMismatch) => {}
        other => panic!("expected ReassemblyChannelMismatch, got {other:?}"),
    }
    assert_eq!(r.in_flight(), 0);
}

// Interleaving on different sequential IDs

#[test]
fn interleaved_messages_on_different_seq_ids_both_complete() {
    let mut r = AisReassembler::new();
    // Two multi-fragment messages in flight, fragments arriving
    // interleaved: (1,seq=3), (1,seq=5), (2,seq=3), (2,seq=5).
    assert!(r
        .feed_fragment(&header(2, 1, Some(3), Some(b'A'), b"A3a", 0))
        .unwrap()
        .is_none());
    assert!(r
        .feed_fragment(&header(2, 1, Some(5), Some(b'A'), b"A5a", 0))
        .unwrap()
        .is_none());
    assert_eq!(r.in_flight(), 2);
    let m3 = r
        .feed_fragment(&header(2, 2, Some(3), Some(b'A'), b"A3b", 0))
        .unwrap()
        .unwrap();
    assert_eq!(m3.payload, b"A3aA3b");
    let m5 = r
        .feed_fragment(&header(2, 2, Some(5), Some(b'A'), b"A5b", 0))
        .unwrap()
        .unwrap();
    assert_eq!(m5.payload, b"A5aA5b");
    assert_eq!(r.in_flight(), 0);
}

// Same sequential id on different channels: treated as separate
// partials (both complete independently).

#[test]
fn interleaved_messages_on_different_channels_both_complete() {
    let mut r = AisReassembler::new();
    // First fragment on A.
    r.feed_fragment(&header(2, 1, Some(7), Some(b'A'), b"Aa", 0))
        .unwrap();
    // First fragment on B with same seq_id — legitimately independent.
    r.feed_fragment(&header(2, 1, Some(7), Some(b'B'), b"Ba", 0))
        .unwrap();
    assert_eq!(r.in_flight(), 2);
    let from_a = r
        .feed_fragment(&header(2, 2, Some(7), Some(b'A'), b"Ab", 0))
        .unwrap()
        .unwrap();
    let from_b = r
        .feed_fragment(&header(2, 2, Some(7), Some(b'B'), b"Bb", 0))
        .unwrap()
        .unwrap();
    assert_eq!(from_a.payload, b"AaAb");
    assert_eq!(from_b.payload, b"BaBb");
}

// Missing sequential_id on multi-fragment → MalformedWrapper

#[test]
fn multi_fragment_without_seq_id_is_malformed() {
    let mut r = AisReassembler::new();
    match r.feed_fragment(&header(2, 1, None, Some(b'A'), b"X", 0)) {
        Err(AisError::MalformedWrapper) => {}
        other => panic!("expected MalformedWrapper, got {other:?}"),
    }
}

// Malformed fragment numbering

#[test]
fn zero_fragment_count_is_malformed() {
    let mut r = AisReassembler::new();
    match r.feed_fragment(&header(0, 1, None, Some(b'A'), b"X", 0)) {
        Err(AisError::MalformedWrapper) => {}
        other => panic!("expected MalformedWrapper, got {other:?}"),
    }
}

#[test]
fn zero_fragment_number_is_malformed() {
    let mut r = AisReassembler::new();
    match r.feed_fragment(&header(2, 0, Some(1), Some(b'A'), b"X", 0)) {
        Err(AisError::MalformedWrapper) => {}
        other => panic!("expected MalformedWrapper, got {other:?}"),
    }
}

#[test]
fn fragment_number_beyond_count_is_malformed() {
    let mut r = AisReassembler::new();
    match r.feed_fragment(&header(2, 3, Some(1), Some(b'A'), b"X", 0)) {
        Err(AisError::MalformedWrapper) => {}
        other => panic!("expected MalformedWrapper, got {other:?}"),
    }
}

// Eviction surfaces ReassemblyTimeout on the next error poll

#[test]
fn bounded_slots_evict_oldest_and_queue_timeout() {
    let mut r = AisReassembler::with_max_partials(2);
    // Fill the two slots with first-fragments on different seq_ids.
    r.feed_fragment(&header(2, 1, Some(1), Some(b'A'), b"a", 0))
        .unwrap();
    r.feed_fragment(&header(2, 1, Some(2), Some(b'A'), b"b", 0))
        .unwrap();
    assert_eq!(r.in_flight(), 2);
    assert!(r.take_pending_error().is_none());

    // A third first-fragment triggers eviction of the oldest.
    r.feed_fragment(&header(2, 1, Some(3), Some(b'A'), b"c", 0))
        .unwrap();
    assert_eq!(r.in_flight(), 2);

    // The eviction was reported.
    match r.take_pending_error() {
        Some(AisError::ReassemblyTimeout) => {}
        other => panic!("expected ReassemblyTimeout, got {other:?}"),
    }
    // Only one timeout is queued.
    assert!(r.take_pending_error().is_none());
}

// Restarted-in-flight: fragment 1 for the same key replaces
// any prior partial silently (real AIS behavior when an interrupted
// multi-sentence message is followed by a fresh one).

#[test]
fn duplicate_fragment_one_restarts_partial() {
    let mut r = AisReassembler::new();
    r.feed_fragment(&header(2, 1, Some(1), Some(b'A'), b"old", 0))
        .unwrap();
    r.feed_fragment(&header(2, 1, Some(1), Some(b'A'), b"new", 0))
        .unwrap();
    let out = r
        .feed_fragment(&header(2, 2, Some(1), Some(b'A'), b"tail", 0))
        .unwrap()
        .unwrap();
    assert_eq!(out.payload, b"newtail");
}

// with_max_partials(0) clamps to 1 — still functional

#[test]
fn zero_max_partials_clamps_to_one() {
    let mut r = AisReassembler::with_max_partials(0);
    assert_eq!(r.max_partials(), 1);
    r.feed_fragment(&header(2, 1, Some(1), Some(b'A'), b"a", 0))
        .unwrap();
    assert_eq!(r.in_flight(), 1);
}

// Clock-based timeout: feed_fragment_at + tick

#[test]
fn tick_expires_partial_past_timeout() {
    let mut r = AisReassembler::with_timeout_ms(16, 60_000);
    r.feed_fragment_at(&header(2, 1, Some(1), Some(b'A'), b"a", 0), 1_000)
        .unwrap();
    assert_eq!(r.in_flight(), 1);

    // 60.001 s later — still within timeout window.
    r.tick(1_000 + 60_000);
    assert_eq!(r.in_flight(), 1);
    assert!(r.take_pending_error().is_none());

    // One ms past timeout — expire.
    r.tick(1_000 + 60_001);
    assert_eq!(r.in_flight(), 0);
    match r.take_pending_error() {
        Some(AisError::ReassemblyTimeout) => {}
        other => panic!("expected ReassemblyTimeout, got {other:?}"),
    }
}

#[test]
fn tick_expiring_multiple_partials_queues_multiple_timeouts() {
    let mut r = AisReassembler::with_timeout_ms(16, 1_000);
    r.feed_fragment_at(&header(2, 1, Some(1), Some(b'A'), b"a", 0), 100)
        .unwrap();
    r.feed_fragment_at(&header(2, 1, Some(2), Some(b'A'), b"b", 0), 200)
        .unwrap();
    r.feed_fragment_at(&header(2, 1, Some(3), Some(b'A'), b"c", 0), 300)
        .unwrap();
    assert_eq!(r.in_flight(), 3);

    // At t = 1500, all three are past their timeout (age > 1000).
    r.tick(1_500);
    assert_eq!(r.in_flight(), 0);
    // One ReassemblyTimeout per expired partial — the queue
    // preserves the count rather than collapsing to one signal.
    assert!(matches!(
        r.take_pending_error(),
        Some(AisError::ReassemblyTimeout)
    ));
    assert!(matches!(
        r.take_pending_error(),
        Some(AisError::ReassemblyTimeout)
    ));
    assert!(matches!(
        r.take_pending_error(),
        Some(AisError::ReassemblyTimeout)
    ));
    assert!(r.take_pending_error().is_none());
}

#[test]
fn tick_without_timeout_set_is_noop() {
    let mut r = AisReassembler::new(); // no timeout
    r.feed_fragment_at(&header(2, 1, Some(1), Some(b'A'), b"a", 0), 0)
        .unwrap();
    r.tick(u64::MAX); // the end of time — should still not expire.
    assert_eq!(r.in_flight(), 1);
    assert!(r.take_pending_error().is_none());
}

#[test]
fn unstamped_partials_are_immune_to_tick() {
    let mut r = AisReassembler::with_timeout_ms(16, 100);
    // No _at — no stamp.
    r.feed_fragment(&header(2, 1, Some(1), Some(b'A'), b"a", 0))
        .unwrap();
    r.tick(1_000_000);
    assert_eq!(r.in_flight(), 1);
    assert!(r.take_pending_error().is_none());
}

#[test]
fn feed_fragment_at_refreshes_partial_timestamp_on_append() {
    // A multi-fragment message that arrives slowly: fragment 1 at
    // t=0, fragment 2 at t=500 (inside the 1000ms timeout). The
    // append must refresh the stamp so a later tick(t=1200)
    // computes age against 500, not 0.
    let mut r = AisReassembler::with_timeout_ms(16, 1_000);
    r.feed_fragment_at(&header(3, 1, Some(1), Some(b'A'), b"a", 0), 0)
        .unwrap();
    r.feed_fragment_at(&header(3, 2, Some(1), Some(b'A'), b"b", 0), 500)
        .unwrap();

    // At t=1200 age-from-last-touch is 700 < 1000 — still alive.
    r.tick(1_200);
    assert_eq!(r.in_flight(), 1);
    assert!(r.take_pending_error().is_none());

    // Fragment 3 completes the message.
    let out = r
        .feed_fragment_at(&header(3, 3, Some(1), Some(b'A'), b"c", 2), 1_300)
        .unwrap()
        .unwrap();
    assert_eq!(out.payload, b"abc");
}

#[test]
fn set_timeout_ms_toggles_eviction_policy() {
    let mut r = AisReassembler::new();
    assert_eq!(r.timeout_ms(), None);
    r.set_timeout_ms(Some(100));
    assert_eq!(r.timeout_ms(), Some(100));
    r.set_timeout_ms(None);
    assert_eq!(r.timeout_ms(), None);
}

// Slot eviction still queues per-eviction timeouts (now via VecDeque).

#[test]
fn slot_eviction_queues_one_timeout_per_eviction() {
    let mut r = AisReassembler::with_max_partials(1);
    // Three first-fragments on different seq_ids → two evictions.
    r.feed_fragment(&header(2, 1, Some(1), Some(b'A'), b"a", 0))
        .unwrap();
    r.feed_fragment(&header(2, 1, Some(2), Some(b'A'), b"b", 0))
        .unwrap();
    r.feed_fragment(&header(2, 1, Some(3), Some(b'A'), b"c", 0))
        .unwrap();
    // Two evictions; two distinct timeout signals queued.
    assert!(matches!(
        r.take_pending_error(),
        Some(AisError::ReassemblyTimeout)
    ));
    assert!(matches!(
        r.take_pending_error(),
        Some(AisError::ReassemblyTimeout)
    ));
    assert!(r.take_pending_error().is_none());
}

#[test]
fn interleaved_messages_complete_in_either_order() {
    let mut r = AisReassembler::new();
    assert_eq!(r.feed_fragment(&header(2, 1, Some(7), Some(b'A'), b"Aa", 0)), Ok(None));
    assert_eq!(r.feed_fragment(&header(2, 1, Some(7), Some(b'B'), b"Ba", 0)), Ok(None));
    let from_b = r.feed_fragment(&header(2, 2, Some(7), Some(b'B'), b"Bb", 0)).unwrap().unwrap();
    assert_eq!(from_b.payload, b"BaBb");
    let from_a = r.feed_fragment(&header(2, 2, Some(7), Some(b'A'), b"Ab", 0)).unwrap().unwrap();
    assert_eq!(from_a.payload, b"AaAb");
    assert_eq!(r.in_flight(), 0);
}
