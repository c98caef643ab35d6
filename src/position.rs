//! Byte positions, spans, spanned values, diagnostics and line lookup.
use vstd::prelude::*;
use vstd::utf8::{encode_scalar, encode_utf8};

verus! {

/// Number of bytes that UTF-8 uses to encode `c`.
pub open spec fn utf8_width(c: char) -> nat {
    encode_scalar(c as u32).len()
}

/// Byte offset, in UTF-8, of the character at index `i` of `s`.
pub open spec fn byte_offset(s: Seq<char>, i: int) -> nat {
    encode_utf8(s.subrange(0, i)).len()
}

/// Encoding a sequence with one more character appends that character's bytes.
pub proof fn lemma_encode_push(s: Seq<char>, c: char)
    ensures
        encode_utf8(s.push(c)) == encode_utf8(s) + encode_scalar(c as u32),
    decreases s.len(),
{
    if s.len() == 0 {
        assert(s.push(c).drop_first() =~= Seq::<char>::empty());
        assert(encode_utf8(Seq::<char>::empty()) =~= Seq::<u8>::empty());
        assert(encode_scalar(c as u32) + Seq::<u8>::empty() =~= encode_scalar(c as u32));
    } else {
        assert(s.push(c).drop_first() =~= s.drop_first().push(c));
        lemma_encode_push(s.drop_first(), c);
        assert(encode_utf8(s.push(c)) =~= encode_scalar(s[0] as u32) + (encode_utf8(
            s.drop_first(),
        ) + encode_scalar(c as u32)));
    }
}

/// The byte offset one character further on.
pub proof fn lemma_byte_offset_step(s: Seq<char>, i: int)
    requires
        0 <= i < s.len(),
    ensures
        byte_offset(s, i + 1) == byte_offset(s, i) + utf8_width(s[i]),
        byte_offset(s, i + 1) <= byte_offset(s, s.len() as int),
{
    assert(s.subrange(0, i + 1) =~= s.subrange(0, i).push(s[i]));
    lemma_encode_push(s.subrange(0, i), s[i]);
    lemma_byte_offset_monotone(s, i + 1, s.len() as int);
}

/// Byte offsets grow with the character index.
pub proof fn lemma_byte_offset_monotone(s: Seq<char>, i: int, j: int)
    requires
        0 <= i <= j <= s.len(),
    ensures
        byte_offset(s, i) <= byte_offset(s, j),
    decreases j - i,
{
    if i < j {
        assert(s.subrange(0, j) =~= s.subrange(0, j - 1).push(s[j - 1]));
        lemma_encode_push(s.subrange(0, j - 1), s[j - 1]);
        lemma_byte_offset_monotone(s, i, j - 1);
    }
}

/// Offset into the source text, counted in bytes.
#[derive(Debug, Copy, Clone, PartialEq, Eq, Structural, PartialOrd, Ord, Default)]
pub struct BytePos(pub u32);

impl BytePos {
    /// The position just past `c`, when `c` starts at `self`.
    pub fn shift(self, c: char) -> (r: BytePos)
        requires
            self.0 + utf8_width(c) <= u32::MAX,
        ensures
            r.0 == self.0 + utf8_width(c),
    {
        let w: u32 = if (c as u32) < 0x80 {
            1
        } else if (c as u32) < 0x800 {
            2
        } else if (c as u32) < 0x10000 {
            3
        } else {
            4
        };
        BytePos(self.0 + w)
    }
}

/// Half-open byte range `[start, end)` of the source text.
#[derive(Debug, Clone, Copy, PartialEq, Eq, Structural, PartialOrd)]
pub struct Span {
    pub start: BytePos,
    pub end: BytePos,
}

/// The smallest span that covers both `a` and `b`.
pub open spec fn span_union(a: Span, b: Span) -> Span {
    Span {
        start: if a.start.0 <= b.start.0 { a.start } else { b.start },
        end: if a.end.0 >= b.end.0 { a.end } else { b.end },
    }
}

/// An error message together with the source range responsible for it.
#[derive(Debug)]
pub struct Diagnostic {
    pub span: Span,
    pub message: String,
}

/// What a diagnostic says: its message as characters, and its span.
pub struct DiagnosticView {
    pub message: Seq<char>,
    pub span: Span,
}

impl View for Diagnostic {
    type V = DiagnosticView;

    open spec fn view(&self) -> DiagnosticView {
        DiagnosticView { message: self.message@, span: self.span }
    }
}

impl Diagnostic {
    pub fn new(message: &str, start: BytePos, end: BytePos) -> (r: Diagnostic)
        ensures
            r.message@ == message@,
            r.span == (Span { start, end }),
    {
        Diagnostic { message: message.to_owned(), span: Span { start, end } }
    }
}

/// A value paired with the span of source text it came from.
#[derive(Debug)]
pub struct WithSpan<T> {
    pub value: T,
    pub span: Span,
}

impl<T: View> View for WithSpan<T> {
    type V = WithSpan<T::V>;

    open spec fn view(&self) -> WithSpan<T::V> {
        WithSpan { value: self.value@, span: self.span }
    }
}

impl<T> WithSpan<T> {
    pub fn new(value: T, span: Span) -> (r: Self)
        ensures
            r.value == value,
            r.span == span,
    {
        WithSpan { value, span }
    }

    /// Wraps `value` with the empty span at offset zero.
    pub fn empty(value: T) -> (r: Self)
        ensures
            r.value == value,
            r.span == Span::spec_empty(),
    {
        WithSpan { value, span: Span::empty() }
    }

    /// Extracts the value, dropping its span.
    pub fn into_inner(self) -> (r: T)
        ensures
            r == self.value,
    {
        self.value
    }
}

impl Span {
    pub open spec fn spec_empty() -> Span {
        Span { start: BytePos(0), end: BytePos(0) }
    }

    /// The empty span at offset zero.
    pub fn empty() -> (r: Span)
        ensures
            r == Span::spec_empty(),
    {
        Span { start: BytePos(0), end: BytePos(0) }
    }

    /// From the lesser of the two starts to the greater of the two ends.
    pub fn union_span(a: Span, b: Span) -> (r: Span)
        ensures
            r == span_union(a, b),
    {
        Span {
            start: if a.start.0 <= b.start.0 { a.start } else { b.start },
            end: if a.end.0 >= b.end.0 { a.end } else { b.end },
        }
    }

    /// The span that covers two spanned values.
    pub fn union<A, B>(a: &WithSpan<A>, b: &WithSpan<B>) -> (r: Span)
        ensures
            r == span_union(a.span, b.span),
    {
        Span::union_span(a.span, b.span)
    }
}

/// Offsets at which lines start in the UTF-8 bytes `b`: zero, then one past
/// each newline.
pub open spec fn line_starts(b: Seq<u8>) -> Seq<u32>
    decreases b.len(),
{
    if b.len() == 0 {
        seq![0u32]
    } else if b.last() == 10u8 {
        line_starts(b.drop_last()).push(b.len() as u32)
    } else {
        line_starts(b.drop_last())
    }
}

/// How many of `offsets` lie at or below `pos`.
pub open spec fn count_at_or_below(offsets: Seq<u32>, pos: u32) -> nat
    decreases offsets.len(),
{
    if offsets.len() == 0 {
        0
    } else {
        count_at_or_below(offsets.drop_last(), pos) + if offsets.last() <= pos {
            1nat
        } else {
            0nat
        }
    }
}

/// Index from byte offsets to line numbers for one source text.
pub struct LineOffsets {
    offsets: Vec<u32>,
    len: u32,
}

impl LineOffsets {
    /// The start offsets of the lines, in increasing order.
    pub closed spec fn starts(&self) -> Seq<u32> {
        self.offsets@
    }

    /// Length in bytes of the indexed text.
    pub closed spec fn text_len(&self) -> nat {
        self.len as nat
    }

    pub open spec fn wf(&self) -> bool {
        &&& self.starts().len() > 0
        &&& self.starts()[0] == 0
        &&& forall|i: int, j: int|
            0 <= i < j < self.starts().len() ==> self.starts()[i] < self.starts()[j]
    }

    /// Indexes the lines of `data`.
    pub fn new(data: &str) -> (r: LineOffsets)
        requires
            encode_utf8(data@).len() <= u32::MAX,
        ensures
            r.wf(),
            r.starts() == line_starts(encode_utf8(data@)),
            r.text_len() == encode_utf8(data@).len(),
    {
        let bytes = data.as_bytes();
        let len = bytes.len();
        let mut offsets: Vec<u32> = vec![0u32];
        let mut i: usize = 0;
        proof {
            assert(bytes@.subrange(0, 0) =~= Seq::<u8>::empty());
        }
        while i < len
            invariant
                bytes@ == encode_utf8(data@),
                len == bytes@.len(),
                len <= u32::MAX,
                i <= len,
                offsets@ == line_starts(bytes@.subrange(0, i as int)),
                offsets@.len() > 0,
                offsets@[0] == 0,
                forall|a: int, b: int| 0 <= a < b < offsets@.len() ==> offsets@[a] < offsets@[b],
                forall|a: int| 0 <= a < offsets@.len() ==> offsets@[a] <= i,
            decreases len - i,
        {
            let ghost prev = bytes@.subrange(0, i as int);
            assert(bytes@.subrange(0, i + 1).drop_last() =~= prev);
            if bytes[i] == 10u8 {
                offsets.push((i + 1) as u32);
            }
            i = i + 1;
        }
        proof {
            assert(bytes@.subrange(0, len as int) =~= bytes@);
        }
        LineOffsets { offsets, len: len as u32 }
    }

    /// The 1-based number of the line that holds `pos`: how many line starts
    /// lie at or below it.
    pub fn line(&self, pos: BytePos) -> (r: usize)
        requires
            self.wf(),
            pos.0 <= self.text_len(),
        ensures
            r == count_at_or_below(self.starts(), pos.0),
            r >= 1,
    {
        let offset = pos.0;
        let n = self.offsets.len();
        // Search for the first index whose offset lies above `offset`.
        let mut lo: usize = 0;
        let mut hi: usize = n;
        while lo < hi
            invariant
                self.wf(),
                n == self.offsets@.len(),
                lo <= hi <= n,
                forall|k: int| 0 <= k < lo ==> self.offsets@[k] <= offset,
                forall|k: int| hi <= k < n ==> self.offsets@[k] > offset,
            decreases hi - lo,
        {
            let mid = lo + (hi - lo) / 2;
            if self.offsets[mid] <= offset {
                lo = mid + 1;
            } else {
                hi = mid;
            }
        }
        proof {
            lemma_count_at_or_below_split(self.offsets@, offset, lo as int);
            assert(lo >= 1) by {
                if lo == 0 {
                    assert(self.offsets@[0] > offset);
                }
            }
        }
        lo
    }
}

/// In a sequence split at `k`, with everything before `k` at or below `pos`
/// and everything from `k` on above it, exactly `k` entries are at or below.
proof fn lemma_count_at_or_below_split(offsets: Seq<u32>, pos: u32, k: int)
    requires
        0 <= k <= offsets.len(),
        forall|i: int| 0 <= i < k ==> offsets[i] <= pos,
        forall|i: int| k <= i < offsets.len() ==> offsets[i] > pos,
    ensures
        count_at_or_below(offsets, pos) == k,
    decreases offsets.len(),
{
    if offsets.len() > 0 {
        if k == offsets.len() {
            lemma_count_at_or_below_split(offsets.drop_last(), pos, k - 1);
        } else {
            lemma_count_at_or_below_split(offsets.drop_last(), pos, k);
        }
    }
}

} // verus!
