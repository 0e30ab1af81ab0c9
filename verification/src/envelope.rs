//! NMEA 0183 sentence framing: start delimiter, address, comma-separated
//! fields, `*hh` XOR checksum and an optional leading TAG block
//! (`\...\`).
//!
//! Grammar of one sentence, as `parse` accepts it:
//!
//! ```text
//! [ '\' tag-bytes '\' ] ( '$' | '!' ) address { ',' field } '*' hex hex [ trailing bytes ]
//! ```
//!
//! The checksum is the XOR of every byte between the start delimiter and
//! `*`. A proprietary address (first byte `P`) has no talker; any other
//! address is a two-byte talker followed by the sentence type.

use vstd::prelude::*;

pub mod framing;

verus! {

/// Errors from sentence framing.
#[derive(Debug, Clone, Copy, PartialEq, Eq, Structural)]
#[non_exhaustive]
pub enum EnvelopeError {
    /// No `$` or `!` where the sentence must start.
    MissingStartDelimiter,
    /// No `*` before the end of the sentence.
    MissingChecksumDelimiter,
    /// The two bytes after `*` are not hexadecimal digits.
    InvalidChecksumDigits,
    /// The transmitted checksum differs from the XOR of the body.
    ChecksumMismatch {
        /// The checksum the sentence carries.
        expected: u8,
        /// The checksum computed over the body.
        computed: u8,
    },
    /// The sentence type holds a byte outside ASCII.
    InvalidUtf8InSentenceType,
    /// A non-proprietary address shorter than talker plus type.
    TalkerTooShort,
    /// A TAG block without its closing `\`.
    MalformedTagBlock,
    /// The input ends inside the checksum.
    Truncated,
    /// A streaming buffer filled up without a complete line.
    BufferOverflow,
}

/// One framed sentence, its parts copied out of the input.
#[derive(Debug, Clone, PartialEq, Eq)]
pub struct RawSentence {
    /// `b'$'` or `b'!'`.
    pub start_delimiter: u8,
    /// Two-byte talker identifier; `None` for proprietary (`P...`) sentences.
    pub talker: Option<[u8; 2]>,
    /// The sentence type (ASCII), e.g. `GGA`, or the whole address for
    /// proprietary sentences.
    pub sentence_type: Vec<u8>,
    /// The comma-separated fields after the address, in order.
    pub fields: Vec<Vec<u8>>,
    /// Contents of a leading TAG block, without its delimiters.
    pub tag_block: Option<Vec<u8>>,
    /// The sentence from its start delimiter through the checksum digits.
    pub raw: Vec<u8>,
}

/// A framed sentence as plain values.
pub struct SentenceView {
    pub start_delimiter: u8,
    pub talker: Option<Seq<u8>>,
    pub sentence_type: Seq<u8>,
    pub fields: Seq<Seq<u8>>,
    pub tag_block: Option<Seq<u8>>,
    pub raw: Seq<u8>,
}

pub open spec fn fields_view(f: Seq<Vec<u8>>) -> Seq<Seq<u8>> {
    f.map_values(|v: Vec<u8>| v@)
}

impl View for RawSentence {
    type V = SentenceView;

    open spec fn view(&self) -> SentenceView {
        SentenceView {
            start_delimiter: self.start_delimiter,
            talker: match self.talker {
                Some(t) => Some(t@),
                None => None,
            },
            sentence_type: self.sentence_type@,
            fields: fields_view(self.fields@),
            tag_block: match self.tag_block {
                Some(t) => Some(t@),
                None => None,
            },
            raw: self.raw@,
        }
    }
}

/// The value of a hexadecimal digit (either case).
pub open spec fn hex_value(c: u8) -> Option<u8> {
    if 0x30 <= c <= 0x39 {
        Some((c - 0x30) as u8)
    } else if 0x41 <= c <= 0x46 {
        Some((c - 0x37) as u8)
    } else if 0x61 <= c <= 0x66 {
        Some((c - 0x57) as u8)
    } else {
        None
    }
}

/// XOR of all bytes of `s`.
pub open spec fn xor_all(s: Seq<u8>) -> u8
    decreases s.len(),
{
    if s.len() == 0 {
        0
    } else {
        xor_all(s.drop_last()) ^ s.last()
    }
}

/// The first index at or after `from` where `s` holds `c`.
pub open spec fn find_byte(s: Seq<u8>, c: u8, from: int) -> Option<int>
    decreases s.len() - from,
{
    if from < 0 || from >= s.len() {
        None
    } else if s[from] == c {
        Some(from)
    } else {
        find_byte(s, c, from + 1)
    }
}

/// `s` split at every `sep` byte (always at least one piece).
pub open spec fn split_on(s: Seq<u8>, sep: u8) -> Seq<Seq<u8>>
    decreases s.len(),
{
    match find_byte(s, sep, 0) {
        None => seq![s],
        Some(i) => if 0 <= i < s.len() {
            seq![s.subrange(0, i)] + split_on(s.subrange(i + 1, s.len() as int), sep)
        } else {
            seq![s]
        },
    }
}

pub open spec fn all_ascii(s: Seq<u8>) -> bool {
    forall|i: int| 0 <= i < s.len() ==> #[trigger] s[i] < 0x80
}

/// The sentence framed by the address and fields `parts` (address first).
pub open spec fn address_spec(start: u8, parts: Seq<Seq<u8>>, tag: Option<Seq<u8>>, raw: Seq<u8>) -> Result<
    SentenceView,
    EnvelopeError,
> {
    let addr = parts[0];
    let (talker, ty) = if addr.len() > 0 && addr[0] == 0x50 {
        (None, addr)
    } else {
        (Some(addr.subrange(0, 2)), addr.subrange(2, addr.len() as int))
    };
    if !(addr.len() > 0 && addr[0] == 0x50) && addr.len() < 3 {
        Err(EnvelopeError::TalkerTooShort)
    } else if !all_ascii(ty) {
        Err(EnvelopeError::InvalidUtf8InSentenceType)
    } else {
        Ok(
            SentenceView {
                start_delimiter: start,
                talker,
                sentence_type: ty,
                fields: parts.drop_first(),
                tag_block: tag,
                raw,
            },
        )
    }
}

/// What `parse` returns for `b`.
pub open spec fn parse_spec(b: Seq<u8>) -> Result<SentenceView, EnvelopeError> {
    let tag_end: Option<int> = if b.len() > 0 && b[0] == 0x5C { find_byte(b, 0x5C, 1) } else { Some(-1) };
    match tag_end {
        None => Err(EnvelopeError::MalformedTagBlock),
        Some(te) => {
            let s = te + 1;
            let tag = if te >= 0 { Some(b.subrange(1, te)) } else { None };
            if s >= b.len() || (b[s] != 0x24 && b[s] != 0x21) {
                Err(EnvelopeError::MissingStartDelimiter)
            } else {
                match find_byte(b, 0x2A, s + 1) {
                    None => Err(EnvelopeError::MissingChecksumDelimiter),
                    Some(star) => if star + 3 > b.len() {
                        Err(EnvelopeError::Truncated)
                    } else if hex_value(b[star + 1]) is None || hex_value(b[star + 2]) is None {
                        Err(EnvelopeError::InvalidChecksumDigits)
                    } else {
                        let expected = (hex_value(b[star + 1])->Some_0 * 16 + hex_value(b[star + 2])->Some_0) as u8;
                        let body = b.subrange(s + 1, star);
                        if xor_all(body) != expected {
                            Err(EnvelopeError::ChecksumMismatch { expected, computed: xor_all(body) })
                        } else {
                            address_spec(b[s], split_on(body, 0x2C), tag, b.subrange(s, star + 3))
                        }
                    },
                }
            }
        },
    }
}

pub open spec fn result_view(r: Result<RawSentence, EnvelopeError>) -> Result<SentenceView, EnvelopeError> {
    match r {
        Ok(s) => Ok(s@),
        Err(e) => Err(e),
    }
}

fn hex_digit(c: u8) -> (v: Option<u8>)
    ensures
        v == hex_value(c),
{
    if 0x30 <= c && c <= 0x39 {
        Some(c - 0x30)
    } else if 0x41 <= c && c <= 0x46 {
        Some(c - 0x37)
    } else if 0x61 <= c && c <= 0x66 {
        Some(c - 0x57)
    } else {
        None
    }
}

pub(crate) fn find(b: &[u8], c: u8, from: usize) -> (r: Option<usize>)
    ensures
        match find_byte(b@, c, from as int) {
            Some(i) => r == Some(i as usize),
            None => r is None,
        },
        r matches Some(i) ==> from <= i < b@.len() && b@[i as int] == c,
        find_byte(b@, c, from as int) matches Some(i) ==> from <= i < b@.len(),
{
    proof {
        lemma_find_range(b@, c, from as int);
    }
    let mut i = from;
    while i < b.len()
        invariant
            from <= i,
            find_byte(b@, c, from as int) == find_byte(b@, c, i as int),
        decreases b@.len() - i,
    {
        if b[i] == c {
            return Some(i);
        }
        i = i + 1;
    }
    None
}

fn xor_bytes(b: &[u8], start: usize, end: usize) -> (x: u8)
    requires
        start <= end <= b@.len(),
    ensures
        x == xor_all(b@.subrange(start as int, end as int)),
{
    let mut acc: u8 = 0;
    let mut i = start;
    while i < end
        invariant
            start <= i <= end <= b@.len(),
            acc == xor_all(b@.subrange(start as int, i as int)),
        decreases end - i,
    {
        proof {
            assert(b@.subrange(start as int, i + 1).drop_last() == b@.subrange(start as int, i as int));
        }
        acc = acc ^ b[i];
        i = i + 1;
    }
    acc
}

fn copy_range(b: &[u8], start: usize, end: usize) -> (v: Vec<u8>)
    requires
        start <= end <= b@.len(),
    ensures
        v@ == b@.subrange(start as int, end as int),
{
    vstd::slice::slice_to_vec(vstd::slice::slice_subrange(b, start, end))
}

/// Split `b[start..end]` at every comma.
fn split_commas(b: &[u8], start: usize, end: usize) -> (parts: Vec<Vec<u8>>)
    requires
        start <= end <= b@.len(),
    ensures
        fields_view(parts@) == split_on(b@.subrange(start as int, end as int), 0x2C),
{
    let ghost whole = b@.subrange(start as int, end as int);
    let mut parts: Vec<Vec<u8>> = Vec::new();
    let mut piece = start;
    let mut i = start;
    while i < end
        invariant
            start <= piece <= i <= end <= b@.len(),
            whole == b@.subrange(start as int, end as int),
            forall|k: int| piece <= k < i ==> b@[k] != 0x2C,
            fields_view(parts@) + split_on(b@.subrange(piece as int, end as int), 0x2C) == split_on(whole, 0x2C),
        decreases end - i,
    {
        if b[i] == 0x2C {
            let ghost rest = b@.subrange(piece as int, end as int);
            proof {
                lemma_find_first(rest, 0x2C, (i - piece) as int);
                assert(rest.subrange(0, i - piece) =~= b@.subrange(piece as int, i as int));
                assert(rest.subrange(i - piece + 1, rest.len() as int) =~= b@.subrange(i + 1, end as int));
            }
            parts.push(copy_range(b, piece, i));
            proof {
                assert(fields_view(parts@) =~= fields_view(parts@.drop_last()).push(b@.subrange(piece as int, i as int)));
                assert(fields_view(parts@) + split_on(b@.subrange(i + 1, end as int), 0x2C) =~= split_on(whole, 0x2C));
            }
            piece = i + 1;
        }
        i = i + 1;
    }
    let ghost rest = b@.subrange(piece as int, end as int);
    proof {
        lemma_find_none(rest, 0x2C);
    }
    parts.push(copy_range(b, piece, end));
    proof {
        assert(fields_view(parts@) =~= fields_view(parts@.drop_last()).push(rest));
    }
    parts
}

proof fn lemma_find_range(s: Seq<u8>, c: u8, from: int)
    ensures
        find_byte(s, c, from) matches Some(i) ==> from <= i < s.len() && s[i] == c,
    decreases s.len() - from,
{
    if 0 <= from < s.len() && s[from] != c {
        lemma_find_range(s, c, from + 1);
    }
}

proof fn lemma_find_first(s: Seq<u8>, c: u8, i: int)
    requires
        0 <= i < s.len(),
        s[i] == c,
        forall|k: int| 0 <= k < i ==> s[k] != c,
    ensures
        find_byte(s, c, 0) == Some(i),
{
    lemma_find_from(s, c, 0, i);
}

proof fn lemma_find_from(s: Seq<u8>, c: u8, from: int, i: int)
    requires
        0 <= from <= i < s.len(),
        s[i] == c,
        forall|k: int| from <= k < i ==> s[k] != c,
    ensures
        find_byte(s, c, from) == Some(i),
    decreases i - from,
{
    if from < i {
        lemma_find_from(s, c, from + 1, i);
    }
}

proof fn lemma_find_none(s: Seq<u8>, c: u8)
    requires
        forall|k: int| 0 <= k < s.len() ==> s[k] != c,
    ensures
        find_byte(s, c, 0) is None,
{
    lemma_find_none_from(s, c, 0);
}

proof fn lemma_find_none_from(s: Seq<u8>, c: u8, from: int)
    requires
        0 <= from,
        forall|k: int| from <= k < s.len() ==> s[k] != c,
    ensures
        find_byte(s, c, from) is None,
    decreases s.len() - from,
{
    if from < s.len() {
        lemma_find_none_from(s, c, from + 1);
    }
}

fn all_ascii_exec(b: &[u8], start: usize, end: usize) -> (r: bool)
    requires
        start <= end <= b@.len(),
    ensures
        r == all_ascii(b@.subrange(start as int, end as int)),
{
    let mut i = start;
    while i < end
        invariant
            start <= i <= end <= b@.len(),
            forall|k: int| start <= k < i ==> b@[k] < 0x80,
        decreases end - i,
    {
        if b[i] >= 0x80 {
            proof {
                assert(b@.subrange(start as int, end as int)[i - start] == b@[i as int]);
            }
            return false;
        }
        i = i + 1;
    }
    proof {
        let s = b@.subrange(start as int, end as int);
        assert forall|k: int| 0 <= k < s.len() implies #[trigger] s[k] < 0x80 by {
            assert(s[k] == b@[start + k]);
        }
    }
    true
}

/// Frame one complete sentence.
pub fn parse(b: &[u8]) -> (res: Result<RawSentence, EnvelopeError>)
    ensures
        result_view(res) == parse_spec(b@),
{
    let mut tag_block: Option<Vec<u8>> = None;
    let mut s: usize = 0;
    if b.len() > 0 && b[0] == 0x5C {
        match find(b, 0x5C, 1) {
            None => return Err(EnvelopeError::MalformedTagBlock),
            Some(te) => {
                tag_block = Some(copy_range(b, 1, te));
                s = te + 1;
            },
        }
    }
    let ghost te: int = s - 1;
    proof {
        let tag_end: Option<int> = if b@.len() > 0 && b@[0] == 0x5C { find_byte(b@, 0x5C, 1) } else { Some(-1) };
        assert(tag_end == Some(te));
    }
    if s >= b.len() || (b[s] != 0x24 && b[s] != 0x21) {
        return Err(EnvelopeError::MissingStartDelimiter);
    }
    let star = match find(b, 0x2A, s + 1) {
        None => return Err(EnvelopeError::MissingChecksumDelimiter),
        Some(i) => i,
    };
    if b.len() - star < 3 {
        return Err(EnvelopeError::Truncated);
    }
    let hi = match hex_digit(b[star + 1]) {
        Some(v) => v,
        None => return Err(EnvelopeError::InvalidChecksumDigits),
    };
    let lo = match hex_digit(b[star + 2]) {
        Some(v) => v,
        None => return Err(EnvelopeError::InvalidChecksumDigits),
    };
    let expected = hi * 16 + lo;
    let computed = xor_bytes(b, s + 1, star);
    if computed != expected {
        return Err(EnvelopeError::ChecksumMismatch { expected, computed });
    }
    let ghost parts_spec = split_on(b@.subrange(s + 1, star as int), 0x2C);
    let mut parts = split_commas(b, s + 1, star);
    proof {
        lemma_split_nonempty(b@.subrange(s + 1, star as int), 0x2C);
    }
    let addr = parts.remove(0);
    let proprietary = addr.len() > 0 && addr[0] == 0x50;
    if !proprietary && addr.len() < 3 {
        return Err(EnvelopeError::TalkerTooShort);
    }
    let (talker, sentence_type) = if proprietary {
        (None, addr)
    } else {
        let t: [u8; 2] = [addr[0], addr[1]];
        let ty = copy_range(addr.as_slice(), 2, addr.len());
        proof {
            assert(t@ =~= addr@.subrange(0, 2));
        }
        (Some(t), ty)
    };
    if !all_ascii_exec(sentence_type.as_slice(), 0, sentence_type.len()) {
        proof {
            assert(sentence_type@.subrange(0, sentence_type@.len() as int) =~= sentence_type@);
        }
        return Err(EnvelopeError::InvalidUtf8InSentenceType);
    }
    proof {
        assert(sentence_type@.subrange(0, sentence_type@.len() as int) =~= sentence_type@);
        assert(fields_view(parts@) =~= parts_spec.drop_first());
    }
    let raw = copy_range(b, s, star + 3);
    Ok(RawSentence { start_delimiter: b[s], talker, sentence_type, fields: parts, tag_block, raw })
}

proof fn lemma_split_nonempty(s: Seq<u8>, sep: u8)
    ensures
        split_on(s, sep).len() >= 1,
    decreases s.len(),
{
    match find_byte(s, sep, 0) {
        None => {},
        Some(i) => if 0 <= i < s.len() {
            lemma_split_nonempty(s.subrange(i + 1, s.len() as int), sep);
        },
    }
}

/// A producer of framed sentences from fed bytes.
///
/// Its behaviour is stated over a plain-value `State`: what `feed` makes
/// of the state, and the state and item one `next_sentence` call leaves.
/// Every item produced consumes some of the `backlog`.
pub trait SentenceSource {
    /// The source's state as plain values.
    type State;

    /// The current state.
    spec fn state(&self) -> Self::State;

    /// The state after feeding `bytes` to a source in state `s`.
    spec fn fed(s: Self::State, bytes: Seq<u8>) -> Self::State;

    /// The state left and the item produced by one `next_sentence` call.
    spec fn step(s: Self::State) -> (Self::State, Option<Result<SentenceView, EnvelopeError>>);

    /// How much buffered input remains.
    spec fn backlog(s: Self::State) -> nat;

    /// A step that produces an item leaves less backlog.
    proof fn lemma_step_consumes(s: Self::State)
        ensures
            Self::step(s).1 is Some ==> Self::backlog(Self::step(s).0) < Self::backlog(s),
    ;

    /// Hand the source more input bytes.
    fn feed(&mut self, bytes: &[u8])
        ensures
            final(self).state() == Self::fed(old(self).state(), bytes@),
    ;

    /// The next framed sentence, an error for a malformed one, or `None`
    /// when no complete sentence is available.
    fn next_sentence(&mut self) -> (r: Option<Result<RawSentence, EnvelopeError>>)
        ensures
            (final(self).state(), opt_result_view(r)) == Self::step(old(self).state()),
    ;
}

pub open spec fn is_eol(c: u8) -> bool {
    c == 0x0D || c == 0x0A
}

/// `s` without its trailing CR/LF bytes.
pub open spec fn trim_eol_end(s: Seq<u8>) -> Seq<u8>
    decreases s.len(),
{
    if s.len() > 0 && is_eol(s.last()) {
        trim_eol_end(s.drop_last())
    } else {
        s
    }
}

pub open spec fn opt_result_view(r: Option<Result<RawSentence, EnvelopeError>>) -> Option<
    Result<SentenceView, EnvelopeError>,
> {
    match r {
        Some(x) => Some(result_view(x)),
        None => None,
    }
}

/// Datagram-at-a-time source: each `feed` supplies one complete sentence,
/// replacing whatever was fed before; `next_sentence` frames it once.
pub struct OneShot {
    datagram: Vec<u8>,
    pending: bool,
}

impl OneShot {
    /// The datagram held and whether it is still to be framed.
    pub closed spec fn held(&self) -> (Seq<u8>, bool) {
        (self.datagram@, self.pending)
    }

    /// An empty source.
    pub fn new() -> (s: Self)
        ensures
            s.held() == (Seq::<u8>::empty(), false),
    {
        OneShot { datagram: Vec::new(), pending: false }
    }
}

impl Default for OneShot {
    fn default() -> (s: Self)
        ensures
            s.held() == (Seq::<u8>::empty(), false),
    {
        OneShot::new()
    }
}

fn trim_end_len(b: &[u8]) -> (n: usize)
    ensures
        n <= b@.len(),
        b@.subrange(0, n as int) == trim_eol_end(b@),
{
    let mut n = b.len();
    proof {
        assert(b@.subrange(0, n as int) =~= b@);
    }
    while n > 0 && (b[n - 1] == 0x0D || b[n - 1] == 0x0A)
        invariant
            n <= b@.len(),
            trim_eol_end(b@.subrange(0, n as int)) == trim_eol_end(b@),
        decreases n,
    {
        proof {
            assert(b@.subrange(0, n as int).drop_last() =~= b@.subrange(0, n - 1));
        }
        n = n - 1;
    }
    n
}

impl SentenceSource for OneShot {
    /// The datagram held and whether it is still to be framed.
    type State = (Seq<u8>, bool);

    open spec fn state(&self) -> (Seq<u8>, bool) {
        self.held()
    }

    /// Feeding replaces the datagram.
    open spec fn fed(s: (Seq<u8>, bool), bytes: Seq<u8>) -> (Seq<u8>, bool) {
        (bytes, true)
    }

    /// A pending datagram is framed once, without its trailing line end.
    open spec fn step(s: (Seq<u8>, bool)) -> ((Seq<u8>, bool), Option<Result<SentenceView, EnvelopeError>>) {
        ((s.0, false), if s.1 {
            Some(parse_spec(trim_eol_end(s.0)))
        } else {
            None
        })
    }

    open spec fn backlog(s: (Seq<u8>, bool)) -> nat {
        if s.1 {
            1
        } else {
            0
        }
    }

    proof fn lemma_step_consumes(s: (Seq<u8>, bool)) {
    }

    fn feed(&mut self, bytes: &[u8]) {
        self.datagram = vstd::slice::slice_to_vec(bytes);
        self.pending = true;
    }

    fn next_sentence(&mut self) -> (r: Option<Result<RawSentence, EnvelopeError>>) {
        if !self.pending {
            return None;
        }
        self.pending = false;
        let n = trim_end_len(self.datagram.as_slice());
        let line = vstd::slice::slice_subrange(self.datagram.as_slice(), 0, n);
        Some(parse(line))
    }
}

/// Default capacity of a streaming buffer, in bytes.
pub const DEFAULT_MAX_SIZE: usize = 65_536;

/// Byte-stream source: fed bytes accumulate and sentences are cut out of
/// them as soon as they are complete. Bytes before a start delimiter
/// (`$`, `!`, or `\` opening a TAG block) are discarded. A sentence ends
/// with the two checksum digits after its `*`; a line end met before the
/// `*` (or before a TAG block closes) ends the candidate early, and it is
/// framed as it stands, which reports what is missing. When more than
/// `max_size` bytes of an incomplete sentence accumulate, the buffer is
/// dropped and `BufferOverflow` reported.
pub struct Streaming {
    buffer: Vec<u8>,
    max_size: usize,
}

/// Classes of bytes the streaming framer looks for.
pub enum ByteClass {
    /// `$`, `!` or `\`: where a sentence (or its TAG block) starts.
    Start,
    /// `*` or a line end: where a sentence body stops.
    BodyStop,
    /// `\` or a line end: where a TAG block stops.
    TagStop,
}

pub open spec fn in_class(c: u8, k: ByteClass) -> bool {
    match k {
        ByteClass::Start => c == 0x24 || c == 0x21 || c == 0x5C,
        ByteClass::BodyStop => c == 0x2A || is_eol(c),
        ByteClass::TagStop => c == 0x5C || is_eol(c),
    }
}

/// The first index at or after `from` whose byte is in class `k`.
pub open spec fn find_class(s: Seq<u8>, k: ByteClass, from: int) -> Option<int>
    decreases s.len() - from,
{
    if from < 0 || from >= s.len() {
        None
    } else if in_class(s[from], k) {
        Some(from)
    } else {
        find_class(s, k, from + 1)
    }
}

/// Where the body of the candidate sentence `b` (which starts with a start
/// delimiter) stops: at its `*`, or at a line end before it.
pub open spec fn body_stop(b: Seq<u8>) -> Option<int> {
    if b[0] == 0x5C {
        match find_class(b, ByteClass::TagStop, 1) {
            Some(k) => if b[k] == 0x5C {
                find_class(b, ByteClass::BodyStop, k + 1)
            } else {
                Some(k)
            },
            None => None,
        }
    } else {
        find_class(b, ByteClass::BodyStop, 1)
    }
}

/// The buffer left and the item produced by one `next_sentence` call.
pub open spec fn streaming_step(buf: Seq<u8>, max_size: nat) -> (Seq<u8>, Option<Result<SentenceView, EnvelopeError>>) {
    match find_class(buf, ByteClass::Start, 0) {
        None => (Seq::empty(), None),
        Some(st) => {
            let b = buf.subrange(st, buf.len() as int);
            let incomplete = if b.len() > max_size {
                (Seq::<u8>::empty(), Some(Err(EnvelopeError::BufferOverflow)))
            } else {
                (b, None)
            };
            match body_stop(b) {
                None => incomplete,
                Some(e) => if b[e] == 0x2A {
                    if e + 3 <= b.len() {
                        (b.subrange(e + 3, b.len() as int), Some(parse_spec(b.subrange(0, e + 3))))
                    } else {
                        incomplete
                    }
                } else {
                    (b.subrange(e, b.len() as int), Some(parse_spec(b.subrange(0, e))))
                },
            }
        },
    }
}

impl Streaming {
    /// The bytes buffered and the capacity.
    pub closed spec fn held(&self) -> (Seq<u8>, nat) {
        (self.buffer@, self.max_size as nat)
    }

    /// A source with the default capacity.
    pub fn new() -> (s: Self)
        ensures
            s.held() == (Seq::<u8>::empty(), DEFAULT_MAX_SIZE as nat),
    {
        Self::with_capacity(DEFAULT_MAX_SIZE)
    }

    /// A source holding at most `max_size` bytes without a line end.
    pub fn with_capacity(max_size: usize) -> (s: Self)
        ensures
            s.held() == (Seq::<u8>::empty(), max_size as nat),
    {
        Streaming { buffer: Vec::new(), max_size }
    }
}

impl Default for Streaming {
    fn default() -> (s: Self)
        ensures
            s.held() == (Seq::<u8>::empty(), DEFAULT_MAX_SIZE as nat),
    {
        Streaming::new()
    }
}

fn byte_in_class(c: u8, k: &ByteClass) -> (r: bool)
    ensures
        r == in_class(c, *k),
{
    match k {
        ByteClass::Start => c == 0x24 || c == 0x21 || c == 0x5C,
        ByteClass::BodyStop => c == 0x2A || c == 0x0D || c == 0x0A,
        ByteClass::TagStop => c == 0x5C || c == 0x0D || c == 0x0A,
    }
}

pub(crate) proof fn lemma_find_class_range(s: Seq<u8>, k: ByteClass, from: int)
    ensures
        find_class(s, k, from) matches Some(i) ==> from <= i < s.len() && in_class(s[i], k),
    decreases s.len() - from,
{
    if 0 <= from < s.len() && !in_class(s[from], k) {
        lemma_find_class_range(s, k, from + 1);
    }
}

fn find_in_class(b: &[u8], k: ByteClass, from: usize) -> (r: Option<usize>)
    ensures
        match r {
            Some(i) => find_class(b@, k, from as int) == Some(i as int) && from <= i < b@.len()
                && in_class(b@[i as int], k),
            None => find_class(b@, k, from as int) is None,
        },
{
    proof {
        lemma_find_class_range(b@, k, from as int);
    }
    let mut i = from;
    while i < b.len()
        invariant
            from <= i,
            find_class(b@, k, from as int) == find_class(b@, k, i as int),
        decreases b@.len() - i,
    {
        if byte_in_class(b[i], &k) {
            return Some(i);
        }
        i = i + 1;
    }
    None
}

impl SentenceSource for Streaming {
    /// The bytes buffered and the capacity.
    type State = (Seq<u8>, nat);

    open spec fn state(&self) -> (Seq<u8>, nat) {
        self.held()
    }

    /// Fed bytes are appended to the buffer.
    open spec fn fed(s: (Seq<u8>, nat), bytes: Seq<u8>) -> (Seq<u8>, nat) {
        (s.0 + bytes, s.1)
    }

    open spec fn step(s: (Seq<u8>, nat)) -> ((Seq<u8>, nat), Option<Result<SentenceView, EnvelopeError>>) {
        ((streaming_step(s.0, s.1).0, s.1), streaming_step(s.0, s.1).1)
    }

    open spec fn backlog(s: (Seq<u8>, nat)) -> nat {
        s.0.len()
    }

    proof fn lemma_step_consumes(s: (Seq<u8>, nat)) {
        let buf = s.0;
        lemma_find_class_range(buf, ByteClass::Start, 0);
        if let Some(st) = find_class(buf, ByteClass::Start, 0) {
            let b = buf.subrange(st, buf.len() as int);
            if b[0] == 0x5C {
                lemma_find_class_range(b, ByteClass::TagStop, 1);
                if let Some(k) = find_class(b, ByteClass::TagStop, 1) {
                    lemma_find_class_range(b, ByteClass::BodyStop, k + 1);
                }
            } else {
                lemma_find_class_range(b, ByteClass::BodyStop, 1);
            }
        }
    }

    fn feed(&mut self, bytes: &[u8]) {
        crate::text::extend_bytes(&mut self.buffer, bytes);
    }

    fn next_sentence(&mut self) -> (r: Option<Result<RawSentence, EnvelopeError>>) {
        let start = match find_in_class(self.buffer.as_slice(), ByteClass::Start, 0) {
            Some(st) => st,
            None => {
                self.buffer = Vec::new();
                proof {
                    assert(self.buffer@ =~= Seq::<u8>::empty());
                }
                return None;
            },
        };
        let b = copy_range(self.buffer.as_slice(), start, self.buffer.len());
        let stop: Option<usize> = if b[0] == 0x5C {
            let tag_stop = find_in_class(b.as_slice(), ByteClass::TagStop, 1);
            match tag_stop {
                Some(k) => {
                    if b[k] == 0x5C {
                        find_in_class(b.as_slice(), ByteClass::BodyStop, k + 1)
                    } else {
                        Some(k)
                    }
                },
                None => None,
            }
        } else {
            find_in_class(b.as_slice(), ByteClass::BodyStop, 1)
        };
        proof {
            let bs = old(self).buffer@.subrange(start as int, old(self).buffer@.len() as int);
            assert(b@ =~= bs);
            assert(match stop {
                Some(e) => body_stop(b@) == Some(e as int),
                None => body_stop(b@) is None,
            });
        }
        let end = match stop {
            Some(e) => if b[e] != 0x2A {
                Some(e)
            } else if b.len() - e >= 3 {
                Some(e + 3)
            } else {
                None
            },
            None => None,
        };
        match end {
            Some(n) => {
                let sentence = copy_range(b.as_slice(), 0, n);
                self.buffer = copy_range(b.as_slice(), n, b.len());
                let r = parse(sentence.as_slice());
                proof {
                    let bs = old(self).buffer@.subrange(start as int, old(self).buffer@.len() as int);
                    assert(b@ =~= bs);
                    assert(sentence@ == b@.subrange(0, n as int));
                    assert(self.buffer@ == b@.subrange(n as int, b@.len() as int));
                }
                Some(r)
            },
            None => {
                if b.len() > self.max_size {
                    self.buffer = Vec::new();
                    proof {
                        assert(self.buffer@ =~= Seq::<u8>::empty());
                    }
                    Some(Err(EnvelopeError::BufferOverflow))
                } else {
                    self.buffer = b;
                    None
                }
            },
        }
    }
}

} // verus!
