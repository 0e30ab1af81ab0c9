//! What a talker sends is what `parse` reads: a sentence framed with the
//! XOR checksum of its body parses into the body's address and fields.

use vstd::prelude::*;
use crate::envelope::{
    address_spec, body_stop, find_class, hex_value, in_class, is_eol, lemma_find_class_range, lemma_find_from, parse_spec, split_on,
    streaming_step, trim_eol_end, xor_all, ByteClass, OneShot, SentenceSource, Streaming,
};

verus! {

/// The upper-case hexadecimal digit of a nibble.
pub open spec fn hex_digit(n: u8) -> u8 {
    if n < 10 {
        (0x30 + n) as u8
    } else {
        (0x37 + n) as u8
    }
}

/// A sentence as a talker frames it: the start delimiter, the body, `*`
/// and the two upper-case hex digits of the body's XOR.
pub open spec fn framed(start: u8, body: Seq<u8>) -> Seq<u8> {
    let c = xor_all(body);
    seq![start] + body + seq![0x2Au8, hex_digit(c / 16), hex_digit(c % 16)]
}

proof fn lemma_hex_digit(n: u8)
    requires
        n < 16,
    ensures
        hex_value(hex_digit(n)) == Some(n),
{
}

/// A sentence framed with the checksum of its body (which holds no `*`)
/// parses: the address and fields are the body split at its commas, and
/// the checksum is accepted.
pub proof fn lemma_framed_sentence_parses(start: u8, body: Seq<u8>)
    requires
        start == 0x24 || start == 0x21,
        forall|i: int| 0 <= i < body.len() ==> body[i] != 0x2A,
    ensures
        parse_spec(framed(start, body)) == address_spec(start, split_on(body, 0x2C), None, framed(start, body)),
{
    let c = xor_all(body);
    let b = framed(start, body);
    let star: int = body.len() as int + 1;
    assert(b.len() == body.len() + 4);
    assert(b[0] == start);
    assert forall|k: int| 1 <= k < star implies b[k] != 0x2A by {
        assert(b[k] == body[k - 1]);
    }
    assert(b[star] == 0x2A);
    lemma_find_from(b, 0x2A, 1, star);
    lemma_hex_digit(c / 16);
    lemma_hex_digit(c % 16);
    assert(b[star + 1] == hex_digit(c / 16));
    assert(b[star + 2] == hex_digit(c % 16));
    assert(((c / 16) * 16 + c % 16) as u8 == c);
    assert(b.subrange(1, star) =~= body);
    assert(b.subrange(0, star + 3) =~= b);
}

proof fn lemma_find_class_at(s: Seq<u8>, k: ByteClass, from: int, i: int)
    requires
        0 <= from <= i < s.len(),
        in_class(s[i], k),
        forall|j: int| from <= j < i ==> !in_class(#[trigger] s[j], k),
    ensures
        find_class(s, k, from) == Some(i),
    decreases i - from,
{
    if from < i {
        lemma_find_class_at(s, k, from + 1, i);
    }
}

/// One framed sentence (whose body holds no `*` and no line end) is framed
/// the same by both sources: a streaming source whose buffer starts with it
/// cuts exactly it, whatever follows, yields what `parse` gives and keeps
/// what follows; a one-shot source fed it as a datagram, whatever it held
/// before, yields the same item.
pub proof fn lemma_sources_agree_on_one_sentence(
    start: u8,
    body: Seq<u8>,
    rest: Seq<u8>,
    max_size: nat,
    before: (Seq<u8>, bool),
)
    requires
        start == 0x24 || start == 0x21,
        forall|i: int| 0 <= i < body.len() ==> body[i] != 0x2A && !is_eol(#[trigger] body[i]),
    ensures
        Streaming::step((framed(start, body) + rest, max_size)) == (
            (rest, max_size),
            Some(parse_spec(framed(start, body))),
        ),
        OneShot::step(OneShot::fed(before, framed(start, body))) == (
            (framed(start, body), false),
            Some(parse_spec(framed(start, body))),
        ),
{
    let c = xor_all(body);
    let f = framed(start, body);
    let b = f + rest;
    let star: int = body.len() as int + 1;
    assert(f.len() == body.len() + 4);
    assert(b[0] == start);
    lemma_find_class_at(b, ByteClass::Start, 0, 0);
    assert(b.subrange(0, b.len() as int) =~= b);
    assert forall|j: int| 1 <= j < star implies !in_class(#[trigger] b[j], ByteClass::BodyStop) by {
        assert(b[j] == body[j - 1]);
    }
    assert(b[star] == 0x2A);
    lemma_find_class_at(b, ByteClass::BodyStop, 1, star);
    assert(body_stop(b) == Some(star));
    assert(b.subrange(0, star + 3) =~= f);
    assert(b.subrange(star + 3, b.len() as int) =~= rest);
    let last = f[f.len() - 1];
    assert(last == hex_digit(c % 16));
    assert(!is_eol(last));
    assert(f.drop_last().push(last) == f);
}

proof fn lemma_find_class_prefix(a: Seq<u8>, b: Seq<u8>, k: ByteClass, from: int)
    requires
        0 <= from,
        find_class(a, k, from) is Some,
    ensures
        find_class(a + b, k, from) == find_class(a, k, from),
    decreases a.len() - from,
{
    if from < a.len() && !in_class(a[from], k) {
        lemma_find_class_prefix(a, b, k, from + 1);
    }
}

proof fn lemma_find_class_shift(a: Seq<u8>, b: Seq<u8>, k: ByteClass, from: int)
    requires
        0 <= from <= a.len(),
        find_class(a, k, from) is None,
    ensures
        find_class(a + b, k, from) == match find_class(b, k, 0) {
            Some(j) => Some(a.len() + j),
            None => None::<int>,
        },
    decreases a.len() - from,
{
    if from < a.len() {
        lemma_find_class_shift(a, b, k, from + 1);
    } else {
        lemma_find_class_skip(a, b, k, 0);
    }
}

proof fn lemma_find_class_skip(a: Seq<u8>, b: Seq<u8>, k: ByteClass, j: int)
    requires
        0 <= j <= b.len(),
    ensures
        find_class(a + b, k, a.len() + j) == match find_class(b, k, j) {
            Some(i) => Some(a.len() + i),
            None => None::<int>,
        },
    decreases b.len() - j,
{
    if j < b.len() {
        assert((a + b)[a.len() + j] == b[j]);
        if !in_class(b[j], k) {
            lemma_find_class_skip(a, b, k, j + 1);
        }
    }
}

/// A streaming step that yields nothing loses nothing: once more bytes
/// arrive, stepping what it kept gives exactly what stepping the whole
/// input would have. So however a byte stream is cut into feeds, the
/// sentences cut from it are the same.
pub proof fn lemma_idle_step_loses_nothing(buf: Seq<u8>, more: Seq<u8>, max_size: nat)
    requires
        streaming_step(buf, max_size).1 is None,
    ensures
        streaming_step(streaming_step(buf, max_size).0 + more, max_size) == streaming_step(buf + more, max_size),
{
    let kept = streaming_step(buf, max_size).0;
    lemma_find_class_range(buf, ByteClass::Start, 0);
    match find_class(buf, ByteClass::Start, 0) {
        None => {
            assert(kept + more =~= more);
            lemma_find_class_shift(buf, more, ByteClass::Start, 0);
            lemma_find_class_range(more, ByteClass::Start, 0);
            if let Some(j) = find_class(more, ByteClass::Start, 0) {
                let whole = buf + more;
                assert(whole.subrange(buf.len() + j, whole.len() as int) =~= more.subrange(j, more.len() as int));
            }
        },
        Some(st) => {
            let b = buf.subrange(st, buf.len() as int);
            assert(kept == b);
            assert(b[0] == buf[st]);
            lemma_find_class_at(b + more, ByteClass::Start, 0, 0);
            lemma_find_class_prefix(buf, more, ByteClass::Start, 0);
            let whole = buf + more;
            assert(whole.subrange(st, whole.len() as int) =~= b + more);
            assert((b + more).subrange(0, (b + more).len() as int) =~= b + more);
        },
    }
}

} // verus!
