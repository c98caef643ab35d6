use lox::position::{BytePos, LineOffsets, Span, WithSpan};

#[test]
fn test_offset_gives_correct_line() {
    let of = LineOffsets::new("line1\nline2\nline3\n");
    let res = of.line(BytePos(8));

    assert_eq!(res, 2);
}

#[test]
fn lines_are_numbered_from_one() {
    let of = LineOffsets::new("ab\ncd\n\nef");
    assert_eq!(of.line(BytePos(0)), 1);
    assert_eq!(of.line(BytePos(2)), 1);
    assert_eq!(of.line(BytePos(3)), 2);
    assert_eq!(of.line(BytePos(4)), 2);
    assert_eq!(of.line(BytePos(6)), 3);
    assert_eq!(of.line(BytePos(7)), 4);
    assert_eq!(of.line(BytePos(9)), 4);
}

#[test]
fn line_of_empty_text() {
    let of = LineOffsets::new("");
    assert_eq!(of.line(BytePos(0)), 1);
}

#[test]
fn shift_counts_utf8_bytes() {
    assert_eq!(BytePos(3).shift('a'), BytePos(4));
    assert_eq!(BytePos(3).shift('é'), BytePos(5));
    assert_eq!(BytePos(3).shift('€'), BytePos(6));
    assert_eq!(BytePos(3).shift('😀'), BytePos(7));
}

#[test]
fn union_takes_outer_bounds() {
    let a = Span { start: BytePos(4), end: BytePos(6) };
    let b = Span { start: BytePos(1), end: BytePos(5) };
    let u = Span::union_span(a, b);
    assert_eq!(u, Span { start: BytePos(1), end: BytePos(6) });
    let wa = WithSpan::new(1u8, a);
    let wb = WithSpan::new('x', b);
    assert_eq!(Span::union(&wa, &wb), u);
    assert_eq!(Span::union(&wb, &wa), u);
}

#[test]
fn empty_span_and_into_inner() {
    let w = WithSpan::empty(7u32);
    assert_eq!(w.span, Span::empty());
    assert_eq!(w.span, Span { start: BytePos(0), end: BytePos(0) });
    assert_eq!(w.into_inner(), 7);
}
