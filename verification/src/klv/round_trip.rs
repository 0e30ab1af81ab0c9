//! Decoding what the encoder writes gives the set back.

use vstd::prelude::*;
use crate::klv::error::Error;
use crate::klv::ber::{
    be_bytes, be_value, ber_decode_spec, ber_length_bytes, field_value, lemma_be_bytes, lemma_be_value_bound,
    lemma_ber_round_trip, lemma_span_values, read_bytes_spec, span, unsigned_repr,
};
use crate::klv::checksum::bcc_spec;
use crate::klv::st0601::{
    apply_item, body_items, decode_items, decode_spec, empty_model, encoding, flatten,
    frame_spec, framed_without_checksum, initial_state, item_at, item_bytes,
    lemma_flatten_append, model_wf, timestamp_spec, scan_timestamp, scaled_fits, scaled_items, scaled_signed, scaled_slot,
    scaled_tag, scaled_update, scaled_value_bytes, scaled_width, uas_key, with_scaled,
    with_unknown, DecodeState, St0601Model,
};

verus! {

/// An unknown entry that a decode routes back to `unknown`: not Tag 1 or 2,
/// not Tag 65 with one byte, not a scaled tag with its width.
pub open spec fn opaque_entry(tag: u8, value: Seq<u8>) -> bool {
    &&& tag != 1
    &&& tag != 2
    &&& !(tag == 65 && value.len() == 1)
    &&& match scaled_slot(tag) {
        Some(k) => value.len() != scaled_width(k),
        None => true,
    }
}

/// A set that an encode/decode cycle reproduces: its scaled values fit their
/// fields and every unknown entry is opaque.
pub open spec fn canonical(m: St0601Model) -> bool {
    &&& model_wf(m)
    &&& forall|i: int| 0 <= i < m.unknown.len() ==> opaque_entry(#[trigger] m.unknown[i].0, m.unknown[i].1)
}

/// An item whose effect on a decode does not depend on where it sits and
/// never fails.
pub open spec fn body_entry(tag: u8, value: Seq<u8>) -> bool {
    tag != 1 && (tag == 2 ==> value.len() == 8)
}

/// The decode state after applying body items in order.
pub open spec fn fold_body(st: DecodeState, items: Seq<(u8, Seq<u8>)>) -> DecodeState
    decreases items.len(),
{
    if items.len() == 0 {
        st
    } else {
        match apply_item(st, items[0].0, items[0].1, 0) {
            Ok(next) => fold_body(next, items.drop_first()),
            Err(_) => st,
        }
    }
}

proof fn lemma_scaled_table(k: int)
    requires
        0 <= k < 20,
    ensures
        scaled_slot(scaled_tag(k)) == Some(k),
        scaled_tag(k) != 1 && scaled_tag(k) != 2 && scaled_tag(k) != 65,
        scaled_width(k) == 1 || scaled_width(k) == 2 || scaled_width(k) == 4,
        scaled_width(k) == 1 ==> !scaled_signed(k),
{
    if k == 0 {
    } else if k == 1 {
    } else if k == 2 {
    } else if k == 3 {
    } else if k == 4 {
    } else if k == 5 {
    } else if k == 6 {
    } else if k == 7 {
    } else if k == 8 {
    } else if k == 9 {
    } else if k == 10 {
    } else if k == 11 {
    } else if k == 12 {
    } else if k == 13 {
    } else if k == 14 {
    } else if k == 15 {
    } else if k == 16 {
    } else if k == 17 {
    } else if k == 18 {
    } else {
        assert(k == 19);
    }
}

proof fn lemma_field_round_trip(v: int, k: int)
    requires
        0 <= k < 20,
        scaled_fits(v, k),
    ensures
        field_value(scaled_value_bytes(v, k), scaled_signed(k)) == v,
        scaled_value_bytes(v, k).len() == scaled_width(k),
{
    lemma_scaled_table(k);
    lemma_span_values();
    let w = scaled_width(k);
    let u = unsigned_repr(v, w);
    assert(u < span(w));
    lemma_be_bytes(u, w);
}

/// The item at `offset` is the one whose bytes sit there.
proof fn lemma_item_at(input: Seq<u8>, offset: int, tag: u8, value: Seq<u8>)
    requires
        0 <= offset,
        offset + item_bytes(tag, value).len() <= input.len() <= usize::MAX,
        input.subrange(offset, offset + item_bytes(tag, value).len()) == item_bytes(tag, value),
    ensures
        item_at(input, offset) == Ok::<(u8, int, Seq<u8>), Error>(
            (tag, offset + 1 + ber_length_bytes(value.len()).len(), value),
        ),
{
    let ib = item_bytes(tag, value);
    let b = ber_length_bytes(value.len());
    assert(input[offset] == ib[0]);
    assert(input.subrange(offset + 1, offset + 1 + b.len()) == b) by {
        assert forall|j: int| 0 <= j < b.len() implies input.subrange(offset + 1, offset + 1 + b.len())[j]
            == b[j] by {
            assert(input[offset + 1 + j] == ib[1 + j]);
        }
    }
    lemma_ber_round_trip(input, offset + 1, value.len());
    let vs = offset + 1 + b.len();
    assert(input.subrange(vs, vs + value.len()) == value) by {
        assert forall|j: int| 0 <= j < value.len() implies input.subrange(vs, vs + value.len())[j]
            == value[j] by {
            assert(input[vs + j] == ib[1 + b.len() + j]);
        }
    }
    assert(read_bytes_spec(input, vs, value.len() as int) == Ok::<Seq<u8>, Error>(value));
}

/// Walking laid-out body items applies them in order.
proof fn lemma_decode_body(
    input: Seq<u8>,
    offset: int,
    end: int,
    st: DecodeState,
    items: Seq<(u8, Seq<u8>)>,
)
    requires
        0 <= offset,
        offset + flatten(items).len() <= end <= input.len() <= usize::MAX,
        input.subrange(offset, offset + flatten(items).len()) == flatten(items),
        forall|i: int| 0 <= i < items.len() ==> body_entry(#[trigger] items[i].0, items[i].1),
        st.checksum is None,
    ensures
        fold_body(st, items).checksum is None,
        decode_items(input, offset, end, st) == decode_items(
            input,
            offset + flatten(items).len(),
            end,
            fold_body(st, items),
        ),
    decreases items.len(),
{
    if items.len() > 0 {
        let (tag, value) = items[0];
        let rest = items.drop_first();
        let ib = item_bytes(tag, value);
        let f = flatten(items);
        assert(f == ib + flatten(rest));
        assert(input.subrange(offset, offset + ib.len()) == ib) by {
            assert forall|j: int| 0 <= j < ib.len() implies input.subrange(offset, offset + ib.len())[j]
                == ib[j] by {
                assert(input[offset + j] == f[j]);
            }
        }
        lemma_item_at(input, offset, tag, value);
        assert(body_entry(items[0].0, items[0].1));
        let vs = offset + 1 + ber_length_bytes(value.len()).len();
        assert(apply_item(st, tag, value, vs) == apply_item(st, tag, value, 0));
        let next = apply_item(st, tag, value, 0)->Ok_0;
        assert(input.subrange(offset + ib.len(), offset + ib.len() + flatten(rest).len()) == flatten(rest)) by {
            assert forall|j: int| 0 <= j < flatten(rest).len() implies input.subrange(
                offset + ib.len(),
                offset + ib.len() + flatten(rest).len(),
            )[j] == flatten(rest)[j] by {
                assert(input[offset + ib.len() + j] == f[ib.len() + j]);
            }
        }
        assert forall|i: int| 0 <= i < rest.len() implies body_entry(#[trigger] rest[i].0, rest[i].1) by {
            assert(rest[i] == items[i + 1]);
        }
        lemma_decode_body(input, offset + ib.len(), end, next, rest);
        if offset + ib.len() >= end {
            assert(offset + ib.len() == end);
        }
    }
}

proof fn lemma_fold_append(st: DecodeState, a: Seq<(u8, Seq<u8>)>, b: Seq<(u8, Seq<u8>)>)
    requires
        forall|i: int| 0 <= i < a.len() ==> body_entry(#[trigger] a[i].0, a[i].1),
    ensures
        fold_body(st, a + b) == fold_body(fold_body(st, a), b),
    decreases a.len(),
{
    if a.len() == 0 {
        assert(a + b == b);
    } else {
        assert((a + b).drop_first() == a.drop_first() + b);
        assert((a + b)[0] == a[0]);
        assert(body_entry(a[0].0, a[0].1));
        let next = apply_item(st, a[0].0, a[0].1, 0)->Ok_0;
        assert forall|i: int| 0 <= i < a.drop_first().len() implies body_entry(
            #[trigger] a.drop_first()[i].0,
            a.drop_first()[i].1,
        ) by {
            assert(a.drop_first()[i] == a[i + 1]);
        }
        lemma_fold_append(next, a.drop_first(), b);
    }
}

proof fn lemma_scaled_items_body(sc: Seq<Option<int>>, k: nat)
    requires
        k <= 20,
    ensures
        forall|i: int| 0 <= i < scaled_items(sc, k).len() ==> body_entry(
            #[trigger] scaled_items(sc, k)[i].0,
            scaled_items(sc, k)[i].1,
        ),
    decreases 20 - k,
{
    if k < 20 {
        lemma_scaled_items_body(sc, k + 1);
        lemma_scaled_table(k as int);
        let rest = scaled_items(sc, k + 1);
        match sc[k as int] {
            Some(v) => {
                let it = (scaled_tag(k as int), scaled_value_bytes(v, k as int));
                assert forall|i: int| 0 <= i < scaled_items(sc, k).len() implies body_entry(
                    #[trigger] scaled_items(sc, k)[i].0,
                    scaled_items(sc, k)[i].1,
                ) by {
                    if i > 0 {
                        assert(scaled_items(sc, k)[i] == rest[i - 1]);
                    }
                }
            },
            None => {},
        }
    }
}

/// Applying the scaled items from slot `k` copies slots `k..20` of `m`.
proof fn lemma_fold_scaled(st: DecodeState, m: St0601Model, k: nat)
    requires
        k <= 20,
        model_wf(m),
        st.model.scaled.len() == 20,
        forall|j: int| k <= j < 20 ==> #[trigger] st.model.scaled[j] is None,
    ensures
        fold_body(st, scaled_items(m.scaled, k)) == (DecodeState {
            model: St0601Model {
                scaled: st.model.scaled.subrange(0, k as int) + m.scaled.subrange(k as int, 20),
                ..st.model
            },
            ..st
        }),
    decreases 20 - k,
{
    if k >= 20 {
        assert(st.model.scaled.subrange(0, 20) + m.scaled.subrange(20, 20) =~= st.model.scaled);
        assert(fold_body(st, Seq::<(u8, Seq<u8>)>::empty()) == st);
    } else {
        lemma_scaled_table(k as int);
        let rest = scaled_items(m.scaled, k + 1);
        match m.scaled[k as int] {
            Some(v) => {
                assert(scaled_fits(v, k as int));
                lemma_field_round_trip(v, k as int);
                let it = (scaled_tag(k as int), scaled_value_bytes(v, k as int));
                let items = seq![it] + rest;
                assert(items[0] == it);
                assert(items.drop_first() == rest);
                let nm = with_scaled(st.model, k as int, v);
                assert(scaled_update(st.model, it.0, it.1) == Some(nm));
                let next = DecodeState { model: nm, ..st };
                assert(apply_item(st, it.0, it.1, 0) == Ok::<DecodeState, Error>(next));
                lemma_fold_scaled(next, m, k + 1);
                assert(nm.scaled.subrange(0, k + 1 as int) + m.scaled.subrange(k + 1 as int, 20) =~= st.model.scaled.subrange(
                    0,
                    k as int,
                ) + m.scaled.subrange(k as int, 20));
            },
            None => {
                lemma_fold_scaled(st, m, k + 1);
                assert(st.model.scaled.subrange(0, k + 1 as int) + m.scaled.subrange(k + 1 as int, 20) =~= st.model.scaled.subrange(
                    0,
                    k as int,
                ) + m.scaled.subrange(k as int, 20));
            },
        }
    }
}

/// Applying opaque unknown entries appends them to `unknown`.
proof fn lemma_fold_unknown(st: DecodeState, u: Seq<(u8, Seq<u8>)>)
    requires
        forall|i: int| 0 <= i < u.len() ==> opaque_entry(#[trigger] u[i].0, u[i].1),
    ensures
        fold_body(st, u) == (DecodeState {
            model: St0601Model { unknown: st.model.unknown + u, ..st.model },
            ..st
        }),
    decreases u.len(),
{
    if u.len() == 0 {
        assert(st.model.unknown + u =~= st.model.unknown);
    } else {
        let (tag, value) = u[0];
        assert(opaque_entry(u[0].0, u[0].1));
        let next = DecodeState { model: with_unknown(st.model, tag, value), ..st };
        assert(apply_item(st, tag, value, 0) == Ok::<DecodeState, Error>(next));
        assert forall|i: int| 0 <= i < u.drop_first().len() implies opaque_entry(
            #[trigger] u.drop_first()[i].0,
            u.drop_first()[i].1,
        ) by {
            assert(u.drop_first()[i] == u[i + 1]);
        }
        lemma_fold_unknown(next, u.drop_first());
        assert(st.model.unknown.push((tag, value)) + u.drop_first() =~= st.model.unknown + u);
    }
}

proof fn lemma_fold_body_items(m: St0601Model)
    requires
        canonical(m),
    ensures
        fold_body(initial_state(), body_items(m)) == (DecodeState { model: m, checksum: None, timestamp_seen: true }),
        forall|i: int| 0 <= i < body_items(m).len() ==> body_entry(#[trigger] body_items(m)[i].0, body_items(m)[i].1),
{
    let ts_item = seq![(2u8, be_bytes(m.timestamp_us as nat, 8))];
    let ver_item = match m.version {
        Some(v) => seq![(65u8, seq![v])],
        None => Seq::<(u8, Seq<u8>)>::empty(),
    };
    let sc = scaled_items(m.scaled, 0);
    lemma_be_bytes(m.timestamp_us as nat, 8);
    lemma_span_values();
    lemma_scaled_items_body(m.scaled, 0);
    assert forall|i: int| 0 <= i < ts_item.len() implies body_entry(#[trigger] ts_item[i].0, ts_item[i].1) by {}
    assert forall|i: int| 0 <= i < ver_item.len() implies body_entry(#[trigger] ver_item[i].0, ver_item[i].1) by {}
    let a = ts_item + ver_item;
    assert forall|i: int| 0 <= i < a.len() implies body_entry(#[trigger] a[i].0, a[i].1) by {
        if i >= ts_item.len() {
            assert(a[i] == ver_item[i - ts_item.len()]);
        }
    }
    let b = a + sc;
    assert forall|i: int| 0 <= i < b.len() implies body_entry(#[trigger] b[i].0, b[i].1) by {
        if i >= a.len() {
            assert(b[i] == sc[i - a.len()]);
        }
    }
    let c = b + m.unknown;
    assert forall|i: int| 0 <= i < c.len() implies body_entry(#[trigger] c[i].0, c[i].1) by {
        if i >= b.len() {
            assert(c[i] == m.unknown[i - b.len()]);
            assert(opaque_entry(m.unknown[i - b.len()].0, m.unknown[i - b.len()].1));
        }
    }
    assert(body_items(m) == c);
    lemma_fold_append(initial_state(), ts_item, ver_item);
    lemma_fold_append(initial_state(), a, sc);
    lemma_fold_append(initial_state(), b, m.unknown);
    let s0 = initial_state();
    let s1 = fold_body(s0, ts_item);
    assert(ts_item.drop_first() =~= Seq::<(u8, Seq<u8>)>::empty());
    let n1 = DecodeState {
        model: St0601Model { timestamp_us: m.timestamp_us, ..empty_model() },
        checksum: None,
        timestamp_seen: true,
    };
    assert(ts_item[0] == (2u8, be_bytes(m.timestamp_us as nat, 8)));
    assert(apply_item(s0, 2u8, be_bytes(m.timestamp_us as nat, 8), 0) == Ok::<DecodeState, Error>(n1));
    assert(fold_body(n1, Seq::<(u8, Seq<u8>)>::empty()) == n1);
    assert(s1 == n1);
    let s2 = fold_body(s1, ver_item);
    let n2 = DecodeState {
        model: St0601Model { timestamp_us: m.timestamp_us, version: m.version, ..empty_model() },
        checksum: None,
        timestamp_seen: true,
    };
    match m.version {
        Some(v) => {
            assert(ver_item.drop_first() =~= Seq::<(u8, Seq<u8>)>::empty());
            assert(ver_item[0] == (65u8, seq![v]));
            assert(apply_item(n1, 65u8, seq![v], 0) == Ok::<DecodeState, Error>(n2));
            assert(fold_body(n2, Seq::<(u8, Seq<u8>)>::empty()) == n2);
        },
        None => {
            assert(fold_body(n1, ver_item) == n1);
        },
    }
    assert(s2 == n2);
    lemma_fold_scaled(s2, m, 0);
    let s3 = fold_body(s2, sc);
    assert(s3.model.scaled =~= m.scaled);
    lemma_fold_unknown(s3, m.unknown);
    let s4 = fold_body(s3, m.unknown);
    assert(s4.model.unknown =~= m.unknown);
}

/// What an encode writes for `m`, with `tail` in place of its two checksum bytes.
pub open spec fn with_checksum_bytes(m: St0601Model, tail: Seq<u8>) -> Seq<u8> {
    framed_without_checksum(m) + tail
}

proof fn lemma_frame_with_tail(m: St0601Model, tail: Seq<u8>)
    requires
        tail.len() == 2,
        framed_without_checksum(m).len() + 2 <= usize::MAX,
    ensures
        ({
            let items = flatten(body_items(m));
            let x = with_checksum_bytes(m, tail);
            let off: int = 16 + ber_length_bytes(items.len() + 4).len() as int;
            &&& x.len() == off + items.len() + 4
            &&& frame_spec(x) == Ok::<(int, int), Error>((off, off + items.len() + 4))
            &&& x.subrange(off, off + items.len()) == items
            &&& x.subrange(off + items.len(), off + items.len() + 4) == item_bytes(1u8, tail)
            &&& x.subrange(0, off + items.len() + 2) == framed_without_checksum(m)
        }),
{
    let items = flatten(body_items(m));
    let blen = ber_length_bytes(items.len() + 4);
    let framed = framed_without_checksum(m);
    let x = with_checksum_bytes(m, tail);
    let off: int = 16 + blen.len() as int;
    let end: int = off + items.len() + 4;
    assert(x.len() == end);
    assert(x.subrange(0, 16) == uas_key());
    assert(x.subrange(16, 16 + blen.len() as int) == blen);
    lemma_ber_round_trip(x, 16, (items.len() + 4) as nat);
    assert(read_bytes_spec(x, 0, 16) == Ok::<Seq<u8>, Error>(uas_key()));
    assert(x.subrange(off, off + items.len()) == items);
    lemma_span_values();
    assert(item_bytes(1u8, tail) =~= seq![1u8, 2u8] + tail);
    assert(x.subrange(off + items.len(), end) == item_bytes(1u8, tail));
    assert(x.subrange(0, off + items.len() + 2) == framed);
}

proof fn lemma_encoding_frame(m: St0601Model)
    requires
        encoding(m).len() <= usize::MAX,
    ensures
        ({
            let items = flatten(body_items(m));
            let off: int = 16 + ber_length_bytes(items.len() + 4).len() as int;
            &&& encoding(m).len() == off + items.len() + 4
            &&& frame_spec(encoding(m)) == Ok::<(int, int), Error>((off, off + items.len() + 4))
            &&& encoding(m).subrange(off, off + items.len()) == items
            &&& encoding(m).subrange(off + items.len(), off + items.len() + 4) == item_bytes(
                1u8,
                be_bytes(bcc_spec(framed_without_checksum(m)) as nat, 2),
            )
            &&& encoding(m).subrange(0, off + items.len() + 2) == framed_without_checksum(m)
        }),
{
    let c = bcc_spec(framed_without_checksum(m));
    lemma_be_bytes(c as nat, 2);
    let cb = be_bytes(c as nat, 2);
    assert(encoding(m) == with_checksum_bytes(m, cb));
    lemma_frame_with_tail(m, cb);
}

/// The law of the codec: decoding the bytes an encode writes for a canonical
/// set gives that set back.
pub proof fn lemma_decode_encode(m: St0601Model)
    requires
        canonical(m),
        encoding(m).len() <= usize::MAX,
    ensures
        decode_spec(encoding(m)) == Ok::<St0601Model, Error>(m),
{
    let items = flatten(body_items(m));
    let framed = framed_without_checksum(m);
    let c = bcc_spec(framed);
    let cb = be_bytes(c as nat, 2);
    let enc = encoding(m);
    lemma_encoding_frame(m);
    lemma_be_bytes(c as nat, 2);
    lemma_span_values();
    let off: int = 16 + ber_length_bytes(items.len() + 4).len() as int;
    let end: int = off + items.len() + 4;
    lemma_fold_body_items(m);
    lemma_decode_body(enc, off, end, initial_state(), body_items(m));
    let st = DecodeState { model: m, checksum: None, timestamp_seen: true };
    let co: int = off + items.len();
    lemma_item_at(enc, co, 1u8, cb);
    assert(be_value(cb) == c);
    let fin = DecodeState { model: m, checksum: Some((c, (co + 2) as usize)), timestamp_seen: true };
    assert(apply_item(st, 1u8, cb, co + 2) == Ok::<DecodeState, Error>(fin));
    assert(decode_items(enc, co, end, st) == Ok::<DecodeState, Error>(fin));
}

/// The timestamp peek reads back what an encode writes: the encoder puts
/// Tag 2 first, so the peek finds the set's timestamp without decoding
/// the rest of the packet.
pub proof fn lemma_timestamp_of_encoding(m: St0601Model)
    requires
        encoding(m).len() <= usize::MAX,
    ensures
        timestamp_spec(encoding(m)) == Ok::<Option<u64>, Error>(Some(m.timestamp_us)),
{
    let c = bcc_spec(framed_without_checksum(m));
    lemma_be_bytes(c as nat, 2);
    let cb = be_bytes(c as nat, 2);
    assert(encoding(m) == with_checksum_bytes(m, cb));
    lemma_timestamp_ignores_checksum(m, cb);
}

/// The timestamp peek does not read the checksum: whatever two bytes stand
/// in place of an encode's checksum, the peek finds the set's timestamp.
pub proof fn lemma_timestamp_ignores_checksum(m: St0601Model, tail: Seq<u8>)
    requires
        tail.len() == 2,
        framed_without_checksum(m).len() + 2 <= usize::MAX,
    ensures
        timestamp_spec(with_checksum_bytes(m, tail)) == Ok::<Option<u64>, Error>(Some(m.timestamp_us)),
{
    let items = flatten(body_items(m));
    let x = with_checksum_bytes(m, tail);
    lemma_frame_with_tail(m, tail);
    let off: int = 16 + ber_length_bytes(items.len() + 4).len() as int;
    let end: int = off + items.len() + 4;
    let tsb = be_bytes(m.timestamp_us as nat, 8);
    let first = seq![(2u8, tsb)];
    let rest = body_items(m).drop_first();
    assert(body_items(m) =~= first + rest);
    lemma_flatten_append(first, rest);
    assert(flatten(first) =~= item_bytes(2u8, tsb) + flatten(first.drop_first()));
    assert(flatten(first.drop_first()) =~= Seq::<u8>::empty());
    let ib = item_bytes(2u8, tsb);
    assert(items =~= ib + flatten(rest));
    assert(x.subrange(off, off + ib.len()) =~= ib) by {
        assert forall|j: int| 0 <= j < ib.len() implies x.subrange(off, off + ib.len())[j] == ib[j] by {
            assert(x.subrange(off, off + items.len())[j] == items[j]);
        }
    }
    lemma_item_at(x, off, 2u8, tsb);
    lemma_be_bytes(m.timestamp_us as nat, 8);
    lemma_span_values();
    assert(be_value(tsb) == m.timestamp_us);
    assert(scan_timestamp(x, off, end) == Ok::<Option<u64>, Error>(Some(m.timestamp_us)));
}

/// A wrong checksum is caught: when the two bytes in place of an encode's
/// checksum of a canonical set do not read as the checksum of everything
/// before them, decoding refuses the packet with `BadChecksum`, reporting
/// both values. Flipping any bit of the checksum is such a change.
pub proof fn lemma_wrong_checksum_refused(m: St0601Model, tail: Seq<u8>)
    requires
        canonical(m),
        tail.len() == 2,
        framed_without_checksum(m).len() + 2 <= usize::MAX,
        be_value(tail) != bcc_spec(framed_without_checksum(m)),
    ensures
        decode_spec(with_checksum_bytes(m, tail)) == Err::<St0601Model, Error>(
            Error::BadChecksum { computed: bcc_spec(framed_without_checksum(m)), embedded: be_value(tail) as u16 },
        ),
{
    let items = flatten(body_items(m));
    let x = with_checksum_bytes(m, tail);
    lemma_frame_with_tail(m, tail);
    lemma_span_values();
    let off: int = 16 + ber_length_bytes(items.len() + 4).len() as int;
    let end: int = off + items.len() + 4;
    lemma_fold_body_items(m);
    lemma_decode_body(x, off, end, initial_state(), body_items(m));
    let st = DecodeState { model: m, checksum: None, timestamp_seen: true };
    let co: int = off + items.len();
    lemma_item_at(x, co, 1u8, tail);
    assert(be_value(tail) < 0x1_0000) by {
        lemma_be_value_bound(tail);
    }
    let fin = DecodeState { model: m, checksum: Some((be_value(tail) as u16, (co + 2) as usize)), timestamp_seen: true };
    assert(apply_item(st, 1u8, tail, co + 2) == Ok::<DecodeState, Error>(fin));
    assert(decode_items(x, co, end, st) == Ok::<DecodeState, Error>(fin));
}

/// The layout of what an encode appends: the key, the BER length of the
/// items plus the 4-byte checksum item, the items (Tag 2 and its 8-byte
/// timestamp first), then Tag 1 with its 2-byte value, which reads as the
/// checksum of every byte the encode wrote before it.
pub proof fn lemma_encoding_layout(m: St0601Model)
    ensures
        ({
            let items = flatten(body_items(m));
            let e = encoding(m);
            &&& e == uas_key() + ber_length_bytes(items.len() + 4) + items + seq![1u8, 2u8] + e.subrange(
                e.len() - 2,
                e.len() as int,
            )
            &&& items.len() >= 10
            &&& items.subrange(0, 10) == seq![2u8, 8u8] + be_bytes(m.timestamp_us as nat, 8)
            &&& be_value(e.subrange(e.len() - 2, e.len() as int)) == bcc_spec(e.subrange(0, e.len() - 2))
        }),
{
    let items = flatten(body_items(m));
    let framed = framed_without_checksum(m);
    let c = bcc_spec(framed);
    lemma_be_bytes(c as nat, 2);
    lemma_span_values();
    let cb = be_bytes(c as nat, 2);
    let e = encoding(m);
    assert(e.subrange(e.len() - 2, e.len() as int) =~= cb);
    assert(e.subrange(0, e.len() - 2) =~= framed);
    let tsb = be_bytes(m.timestamp_us as nat, 8);
    lemma_be_bytes(m.timestamp_us as nat, 8);
    let first = seq![(2u8, tsb)];
    let rest = body_items(m).drop_first();
    assert(body_items(m) =~= first + rest);
    lemma_flatten_append(first, rest);
    assert(flatten(first.drop_first()) =~= Seq::<u8>::empty());
    let ib = item_bytes(2u8, tsb);
    assert(flatten(first) =~= ib);
    assert(ber_length_bytes(8) =~= seq![8u8]);
    assert(ib =~= seq![2u8, 8u8] + tsb);
    assert(items =~= ib + flatten(rest));
    assert(items.subrange(0, 10) =~= ib);
}

proof fn lemma_walk_ends_at_checksum(input: Seq<u8>, offset: int, end: int, st: DecodeState)
    requires
        st.checksum is None,
        0 <= offset,
        input.len() <= usize::MAX,
    ensures
        decode_items(input, offset, end, st) matches Ok(fin) ==> (fin.checksum matches Some((c, vs)) ==> {
            &&& end <= vs + 2 <= input.len()
            &&& c == be_value(input.subrange(vs as int, vs + 2))
        }),
    decreases end - offset,
{
    if offset < end {
        if let Ok((tag, vs, v)) = item_at(input, offset) {
            assert(vs > offset + 1);
            if let Ok(next) = apply_item(st, tag, v, vs) {
                if tag == 1 {
                    lemma_be_value_bound(v);
                    lemma_span_values();
                    assert(v == input.subrange(vs, vs + 2));
                } else {
                    assert(next.checksum is None);
                    if offset < vs + v.len() < end {
                        lemma_walk_ends_at_checksum(input, vs + v.len(), end, next);
                    }
                }
            }
        }
    }
}

/// What a successful decode has checked: the set carried a Tag 2
/// timestamp, and a Tag 1 item ends the local set (no item follows it)
/// whose two value bytes read as the checksum of every byte before them.
pub proof fn lemma_decoded_set_is_checked(input: Seq<u8>)
    requires
        input.len() <= usize::MAX,
    ensures
        decode_spec(input) is Ok ==> ({
            let (off, end) = frame_spec(input)->Ok_0;
            let fin = decode_items(input, off, end, initial_state())->Ok_0;
            &&& fin.timestamp_seen
            &&& fin.checksum matches Some((c, vs)) && end <= vs + 2 <= input.len() && c == be_value(
                input.subrange(vs as int, vs + 2),
            ) && c == bcc_spec(input.subrange(0, vs as int))
        }),
{
    if let Ok((off, end)) = frame_spec(input) {
        lemma_walk_ends_at_checksum(input, off, end, initial_state());
    }
}

} // verus!
