//! Reading back what the renderer writes.
use crate::expr::{
    is_level_operator, is_literal_token, parse_level, parse_rest, render_of, ExprView, Parsed,
};
use crate::lexer::{
    char_span, in_class, is_digit, lemma_lex_one_advances, lemma_run_end_bounds,
    lex_from, lex_one, lexeme_of, number_end, run_end, scanned, CharClass, Lexed, TokenView,
};
use crate::position::{span_union, DiagnosticView, WithSpan};
use vstd::prelude::*;

verus! {

/// What parsing the text `s` gives.
pub open spec fn parsed(s: Seq<char>) -> Parsed {
    parse_level(scanned(s), 0, 0)
}

/// The rendering of a parsed tree; empty when parsing failed.
pub open spec fn rendering(p: Parsed) -> Seq<char> {
    match p {
        Parsed::Tree(e, _) => render_of(e),
        Parsed::Fail(..) => Seq::empty(),
    }
}

/// A tree that is one literal other than a string: a number, `true`,
/// `false` or `nil`.
pub open spec fn is_plain_literal(p: Parsed) -> bool {
    p matches Parsed::Tree(e, _) && e.value matches ExprView::Literal(t) && !(t.value is String)
}

/// Digits, then optionally a point and more digits: a number as the scanner
/// reads it.
pub open spec fn is_number_lexeme(n: Seq<char>) -> bool {
    n.len() > 0 && is_digit(n[0]) && number_end(n, 0) == n.len()
}

/// A number token holds a complete number lexeme; other tokens pass.
pub open spec fn well_formed_number(t: TokenView) -> bool {
    match t {
        TokenView::Number(n) => is_number_lexeme(n),
        _ => true,
    }
}

/// A successful parse gave `left` back, or a binary node.
spec fn left_or_binary(p: Parsed, left: WithSpan<ExprView>) -> bool {
    match p {
        Parsed::Tree(e, _) => e == left || e.value is Binary,
        Parsed::Fail(..) => true,
    }
}

/// A successful parse that gave a literal gave the literal of `t`.
spec fn literal_only_from(p: Parsed, t: WithSpan<TokenView>) -> bool {
    match p {
        Parsed::Tree(e, _) => e.value is Literal ==> e == WithSpan {
            value: ExprView::Literal(t),
            span: t.span,
        } && is_literal_token(t.value),
        Parsed::Fail(..) => true,
    }
}

/// A run inside a slice of `s` ends where the run in `s` does, or at the end
/// of the slice.
proof fn lemma_run_end_slice(s: Seq<char>, lo: int, hi: int, p: int, class: CharClass)
    requires
        0 <= lo <= p <= hi <= s.len(),
    ensures
        run_end(s.subrange(lo, hi), p - lo, class) == (if run_end(s, p, class) < hi {
            run_end(s, p, class)
        } else {
            hi
        }) - lo,
    decreases hi - p,
{
    lemma_run_end_bounds(s, p, class);
    if p < hi {
        assert(s.subrange(lo, hi)[p - lo] == s[p]);
        if in_class(class, s[p]) {
            lemma_run_end_slice(s, lo, hi, p + 1, class);
        }
    }
}

/// Every number token the scanner yields is a complete number lexeme.
proof fn lemma_scanned_numbers(s: Seq<char>, i: int)
    requires
        0 <= i,
    ensures
        forall|k: int|
            0 <= k < lex_from(s, i).0.len() ==> well_formed_number(
                (#[trigger] lex_from(s, i).0[k]).value,
            ),
    decreases s.len() - i,
{
    if i < s.len() {
        lemma_lex_one_advances(s, i);
        let k = lex_one(s, i).1;
        lemma_scanned_numbers(s, k);
        if is_digit(s[i]) {
            lemma_number_token(s, i);
        }
        let rest = lex_from(s, k).0;
        assert forall|m: int| 0 <= m < lex_from(s, i).0.len() implies well_formed_number(
            #[trigger] lex_from(s, i).0[m].value,
        ) by {
            if lex_one(s, i).0 is Token {
                if m > 0 {
                    assert(lex_from(s, i).0[m] == rest[m - 1]);
                }
            } else {
                assert(lex_from(s, i).0[m] == rest[m]);
            }
        }
    }
}

/// The number the scanner reads at `i` is a complete number lexeme.
proof fn lemma_number_token(s: Seq<char>, i: int)
    requires
        0 <= i < s.len(),
        is_digit(s[i]),
    ensures
        is_number_lexeme(s.subrange(i, number_end(s, i))),
{
    let d = run_end(s, i + 1, CharClass::Digit);
    lemma_run_end_bounds(s, i + 1, CharClass::Digit);
    let m = number_end(s, i);
    let n = s.subrange(i, m);
    if d + 1 < s.len() && s[d] == '.' && is_digit(s[d + 1]) {
        lemma_run_end_bounds(s, d + 1, CharClass::Digit);
        lemma_run_end_bounds(s, d + 2, CharClass::Digit);
        assert(m >= d + 2);
        lemma_run_end_slice(s, i, m, i + 1, CharClass::Digit);
        assert(run_end(n, 1, CharClass::Digit) == d - i);
        assert(n[d - i] == s[d]);
        assert(n[d - i + 1] == s[d + 1]);
        lemma_run_end_slice(s, i, m, d + 1, CharClass::Digit);
    } else {
        lemma_run_end_slice(s, i, m, i + 1, CharClass::Digit);
    }
}

/// A number lexeme scans to that one number token.
proof fn lemma_scan_number(n: Seq<char>)
    requires
        is_number_lexeme(n),
    ensures
        lex_from(n, 0).0 == seq![WithSpan { value: TokenView::Number(n), span: char_span(n, 0, n.len() as int) }],
        lex_from(n, 0).1 == Seq::<DiagnosticView>::empty(),
{
    assert(n.subrange(0, n.len() as int) =~= n);
    lemma_lex_one_advances(n, 0);
    assert(lex_from(n, n.len() as int).0 =~= Seq::<WithSpan<TokenView>>::empty());
    assert(lex_from(n, 0).0 =~= seq![WithSpan { value: TokenView::Number(n), span: char_span(n, 0, n.len() as int) }]);
}

/// Parsing a literal followed by the end of input gives that literal.
proof fn lemma_parse_lone_literal(toks: Seq<WithSpan<TokenView>>)
    requires
        toks.len() == 2,
        is_literal_token(toks[0].value),
        toks[1].value is Eof,
    ensures
        parse_level(toks, 0, 0) == Parsed::Tree(
            WithSpan { value: ExprView::Literal(toks[0]), span: toks[0].span },
            1,
        ),
{
    let lit = WithSpan { value: ExprView::Literal(toks[0]), span: toks[0].span };
    assert(parse_level(toks, 0, 5) == Parsed::Tree(lit, 1));
    assert(parse_level(toks, 0, 4) == Parsed::Tree(lit, 1));
    assert(parse_rest(toks, 3, lit, 1) == Parsed::Tree(lit, 1));
    assert(parse_level(toks, 0, 3) == Parsed::Tree(lit, 1));
    assert(parse_rest(toks, 2, lit, 1) == Parsed::Tree(lit, 1));
    assert(parse_level(toks, 0, 2) == Parsed::Tree(lit, 1));
    assert(parse_rest(toks, 1, lit, 1) == Parsed::Tree(lit, 1));
    assert(parse_level(toks, 0, 1) == Parsed::Tree(lit, 1));
    assert(parse_rest(toks, 0, lit, 1) == Parsed::Tree(lit, 1));
}

/// Continuing a binary level gives back its left operand or a binary node.
proof fn lemma_rest_keeps_left(toks: Seq<WithSpan<TokenView>>, level: nat, left: WithSpan<ExprView>, j: int)
    ensures
        left_or_binary(parse_rest(toks, level, left, j), left),
    decreases toks.len() - j,
{
    if 0 <= j < toks.len() && level < 4 && is_level_operator(level, toks[j].value) {
        if let Parsed::Tree(right, k) = parse_level(toks, j + 1, level + 1) {
            let node = WithSpan {
                value: ExprView::Binary { operator: toks[j], left: Box::new(left), right: Box::new(right) },
                span: span_union(left.span, right.span),
            };
            if j < k <= toks.len() {
                lemma_rest_keeps_left(toks, level, node, k);
            }
        }
    }
}

/// A parse that yields a literal read it from the first token.
proof fn lemma_literal_is_first_token(toks: Seq<WithSpan<TokenView>>, i: int, level: nat)
    requires
        level <= 5,
    ensures
        0 <= i < toks.len() ==> literal_only_from(parse_level(toks, i, level), toks[i]),
    decreases 5 - level,
{
    if 0 <= i < toks.len() {
        if level < 4 {
            lemma_literal_is_first_token(toks, i, level + 1);
            if let Parsed::Tree(left, j) = parse_level(toks, i, level + 1) {
                lemma_rest_keeps_left(toks, level, left, j);
            }
        } else if level == 4 {
            lemma_literal_is_first_token(toks, i, 5);
        }
    }
}


/// `true`, `false` and `nil` scan to their own token.
proof fn lemma_scan_word(t: TokenView)
    requires
        t is True || t is False || t is Nil,
    ensures
        lex_from(lexeme_of(t), 0).0 == seq![
            WithSpan { value: t, span: char_span(lexeme_of(t), 0, lexeme_of(t).len() as int) },
        ],
        lex_from(lexeme_of(t), 0).1 == Seq::<DiagnosticView>::empty(),
{
    reveal_strlit("and");
    reveal_strlit("class");
    reveal_strlit("else");
    reveal_strlit("false");
    reveal_strlit("fun");
    reveal_strlit("for");
    reveal_strlit("if");
    reveal_strlit("nil");
    reveal_strlit("or");
    reveal_strlit("print");
    reveal_strlit("return");
    reveal_strlit("super");
    reveal_strlit("this");
    reveal_strlit("true");
    reveal_strlit("var");
    reveal_strlit("while");
    reveal_with_fuel(run_end, 6);
    let w = lexeme_of(t);
    assert(w.subrange(0, w.len() as int) =~= w);
    lemma_lex_one_advances(w, 0);
    assert(lex_one(w, 0) == (Lexed::Token(t), w.len() as int));
    assert(lex_from(w, w.len() as int).0 =~= Seq::<WithSpan<TokenView>>::empty());
    assert(lex_from(w, 0).0 =~= seq![
        WithSpan { value: t, span: char_span(w, 0, w.len() as int) },
    ]);
}

/// Rendering a tree that is a number, `true`, `false` or `nil`, then
/// scanning and parsing that text again, gives a tree with the same
/// rendering.
pub proof fn law_literal_round_trip(s: Seq<char>)
    requires
        is_plain_literal(parsed(s)),
    ensures
        parsed(rendering(parsed(s))) is Tree,
        rendering(parsed(rendering(parsed(s)))) == rendering(parsed(s)),
{
    let toks = scanned(s);
    lemma_literal_is_first_token(toks, 0, 0);
    let t = toks[0];
    let r = rendering(parsed(s));
    if let TokenView::Number(n) = t.value {
        lemma_scanned_numbers(s, 0);
        assert(lex_from(s, 0).0.len() > 0);
        assert(toks[0] == lex_from(s, 0).0[0]);
        assert(well_formed_number(lex_from(s, 0).0[0].value));
        assert(r == n);
        lemma_scan_number(n);
    } else {
        assert(r == lexeme_of(t.value));
        lemma_scan_word(t.value);
    }
    let again = scanned(r);
    assert(again.len() == 2);
    lemma_parse_lone_literal(again);
}

} // verus!
