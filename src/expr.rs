//! Expression trees, their fully parenthesised rendering, and the
//! recursive-descent parser that builds them.
use crate::lexer::{lexeme_of, literal_of, Token, TokenView};
use crate::parser::Parser;
use crate::position::{span_union, DiagnosticView, Span, WithSpan};
use vstd::prelude::*;

verus! {

/// An expression. Each node and each token in it carries its source span.
#[derive(Debug)]
pub enum Expr {
    Literal(WithSpan<Token>),
    Unary { operator: WithSpan<Token>, right: Box<WithSpan<Expr>> },
    Binary { operator: WithSpan<Token>, left: Box<WithSpan<Expr>>, right: Box<WithSpan<Expr>> },
    Grouping(Box<WithSpan<Expr>>),
}

/// An expression as the contracts see it.
pub enum ExprView {
    Literal(WithSpan<TokenView>),
    Unary { operator: WithSpan<TokenView>, right: Box<WithSpan<ExprView>> },
    Binary {
        operator: WithSpan<TokenView>,
        left: Box<WithSpan<ExprView>>,
        right: Box<WithSpan<ExprView>>,
    },
    Grouping(Box<WithSpan<ExprView>>),
}

pub open spec fn expr_view(e: &Expr) -> ExprView
    decreases e,
{
    match e {
        Expr::Literal(t) => ExprView::Literal(t@),
        Expr::Unary { operator, right } => ExprView::Unary {
            operator: operator@,
            right: Box::new(WithSpan { value: expr_view(&right.value), span: right.span }),
        },
        Expr::Binary { operator, left, right } => ExprView::Binary {
            operator: operator@,
            left: Box::new(WithSpan { value: expr_view(&left.value), span: left.span }),
            right: Box::new(WithSpan { value: expr_view(&right.value), span: right.span }),
        },
        Expr::Grouping(inner) => ExprView::Grouping(
            Box::new(WithSpan { value: expr_view(&inner.value), span: inner.span }),
        ),
    }
}

impl View for Expr {
    type V = ExprView;

    open spec fn view(&self) -> ExprView {
        expr_view(self)
    }
}

/// The fully parenthesised text of an expression: `(op left right)` for a
/// binary node, `(op right)` for a unary one, `(group inner)` for a
/// grouping, and for a leaf the literal's payload (strings, numbers) or its
/// lexeme (`true`, `false`, `nil`).
pub open spec fn render_of(e: WithSpan<ExprView>) -> Seq<char>
    decreases e,
{
    match e.value {
        ExprView::Literal(t) => if t.value is Number || t.value is String {
            literal_of(t.value)
        } else {
            lexeme_of(t.value)
        },
        ExprView::Unary { operator, right } => "("@ + lexeme_of(operator.value) + " "@ + render_of(
            *right,
        ) + ")"@,
        ExprView::Binary { operator, left, right } => "("@ + lexeme_of(operator.value) + " "@
            + render_of(*left) + " "@ + render_of(*right) + ")"@,
        ExprView::Grouping(inner) => "(group "@ + render_of(*inner) + ")"@,
    }
}

/// Renders an expression in its fully parenthesised form.
pub fn render(e: &WithSpan<Expr>) -> (r: String)
    ensures
        r@ == render_of(e@),
    decreases e,
{
    match &e.value {
        Expr::Literal(token) => match &token.value {
            Token::Number(_) | Token::String(_) => token.value.literal(),
            _ => token.value.lexeme(),
        },
        Expr::Unary { operator, right } => {
            let inner = render(right);
            let op = operator.value.lexeme();
            String::from_str("(").concat(op.as_str()).concat(" ").concat(inner.as_str()).concat(")")
        },
        Expr::Binary { operator, left, right } => {
            let l = render(left);
            let r = render(right);
            let op = operator.value.lexeme();
            String::from_str("(").concat(op.as_str()).concat(" ").concat(l.as_str()).concat(
                " ",
            ).concat(r.as_str()).concat(")")
        },
        Expr::Grouping(inner) => {
            let inner = render(inner);
            String::from_str("(group ").concat(inner.as_str()).concat(")")
        },
    }
}

/// Outcome of parsing at one place in a token sequence: the expression and
/// the index of the first token after it, or the diagnostic that stopped it
/// and the index of the token it stopped at, which is left unread.
pub enum Parsed {
    Tree(WithSpan<ExprView>, int),
    Fail(DiagnosticView, int),
}

/// The operators of a binary precedence level: 0 for equality, 1 for
/// comparison, 2 for terms and 3 for factors.
pub open spec fn is_level_operator(level: nat, t: TokenView) -> bool {
    if level == 0 {
        t is BangEqual || t is EqualEqual
    } else if level == 1 {
        t is Greater || t is GreaterEqual || t is Less || t is LessEqual
    } else if level == 2 {
        t is Minus || t is Plus
    } else if level == 3 {
        t is Slash || t is Star
    } else {
        false
    }
}

/// Whether the token starts a literal expression.
pub open spec fn is_literal_token(t: TokenView) -> bool {
    t is True || t is False || t is Nil || t is Number || t is String
}

/// The grammar, read from index `i` of `toks` at one precedence level:
/// 0 to 3 are the binary levels (equality, comparison, term, factor), each
/// left-associative over the next level; 4 is a prefix `-` or `!` applied
/// to a unary expression, else a primary; 5 is a primary: a literal, or an
/// expression in parentheses.
pub open spec fn parse_level(toks: Seq<WithSpan<TokenView>>, i: int, level: nat) -> Parsed
    decreases toks.len() - i, 6 - level,
{
    if i < 0 || i >= toks.len() || level > 5 {
        Parsed::Fail(
            DiagnosticView { message: "Expected expression."@, span: Span::spec_empty() },
            i,
        )
    } else if level == 5 {
        let t = toks[i];
        if is_literal_token(t.value) {
            Parsed::Tree(WithSpan { value: ExprView::Literal(t), span: t.span }, i + 1)
        } else if t.value is LeftParen {
            match parse_level(toks, i + 1, 0) {
                Parsed::Tree(inner, j) => if 0 <= j < toks.len() && toks[j].value is RightParen {
                    Parsed::Tree(
                        WithSpan {
                            value: ExprView::Grouping(Box::new(inner)),
                            span: span_union(t.span, toks[j].span),
                        },
                        j + 1,
                    )
                } else {
                    Parsed::Fail(
                        DiagnosticView { message: "Unmatched parentheses."@, span: inner.span },
                        j,
                    )
                },
                Parsed::Fail(d, k) => Parsed::Fail(d, k),
            }
        } else {
            Parsed::Fail(DiagnosticView { message: "Expected expression."@, span: t.span }, i)
        }
    } else if level == 4 {
        let t = toks[i];
        if t.value is Minus || t.value is Bang {
            match parse_level(toks, i + 1, 4) {
                Parsed::Tree(right, j) => Parsed::Tree(
                    WithSpan {
                        value: ExprView::Unary { operator: t, right: Box::new(right) },
                        span: span_union(t.span, right.span),
                    },
                    j,
                ),
                Parsed::Fail(d, k) => Parsed::Fail(d, k),
            }
        } else {
            parse_level(toks, i, 5)
        }
    } else {
        match parse_level(toks, i, level + 1) {
            Parsed::Tree(left, j) => if i < j <= toks.len() {
                parse_rest(toks, level, left, j)
            } else {
                Parsed::Tree(left, j)
            },
            Parsed::Fail(d, k) => Parsed::Fail(d, k),
        }
    }
}

/// Continues a binary level after its operand `left`, which ends before
/// index `j`: while an operator of the level follows, reads the next
/// operand and folds both into a binary node.
pub open spec fn parse_rest(
    toks: Seq<WithSpan<TokenView>>,
    level: nat,
    left: WithSpan<ExprView>,
    j: int,
) -> Parsed
    decreases toks.len() - j, 0nat,
{
    if 0 <= j < toks.len() && level < 4 && is_level_operator(level, toks[j].value) {
        match parse_level(toks, j + 1, level + 1) {
            Parsed::Tree(right, k) => {
                let node = WithSpan {
                    value: ExprView::Binary {
                        operator: toks[j],
                        left: Box::new(left),
                        right: Box::new(right),
                    },
                    span: span_union(left.span, right.span),
                };
                if j < k <= toks.len() {
                    parse_rest(toks, level, node, k)
                } else {
                    Parsed::Tree(node, k)
                }
            },
            Parsed::Fail(d, k) => Parsed::Fail(d, k),
        }
    } else {
        Parsed::Tree(left, j)
    }
}

/// The parser went from `before` to `after` and returned `r`, as `expected`
/// says: on success the tree, the cursor just past it and no new
/// diagnostic; on failure `Err`, exactly the one diagnostic added, and the
/// cursor on the token where parsing stopped, never past the final `Eof`.
pub open spec fn parsed_as(
    before: &Parser,
    after: &Parser,
    r: Result<WithSpan<Expr>, ()>,
    expected: Parsed,
) -> bool {
    &&& after.toks() == before.toks()
    &&& match expected {
        Parsed::Tree(e, j) => {
            &&& r matches Ok(x) && x@ == e
            &&& after.cursor() == j
            &&& before.cursor() < j
            &&& after.ready()
            &&& after.errors() == before.errors()
        },
        Parsed::Fail(d, k) => {
            &&& r is Err
            &&& after.errors() == before.errors().push(d)
            &&& after.cursor() == k
            &&& before.cursor() <= k
            &&& after.ready()
        },
    }
}

/// Parses one expression from the parser's cursor. On failure the parser's
/// diagnostics end with the one syntax error that stopped it, and the cursor
/// stands on the token where it stopped; the final `Eof` is never read.
pub fn parse(parser: &mut Parser) -> (r: Result<WithSpan<Expr>, ()>)
    requires
        old(parser).ready(),
    ensures
        parsed_as(old(parser), final(parser), r, parse_level(old(parser).toks(), old(parser).cursor(), 0)),
{
    expression(parser)
}

fn expression(parser: &mut Parser) -> (r: Result<WithSpan<Expr>, ()>)
    requires
        old(parser).ready(),
    ensures
        parsed_as(old(parser), final(parser), r, parse_level(old(parser).toks(), old(parser).cursor(), 0)),
    decreases old(parser).toks().len() - old(parser).cursor(), 7nat,
{
    equality(parser)
}

/// Whether the next token is an operator of the binary `level`.
fn next_is_operator(parser: &Parser, level: u8) -> (r: bool)
    requires
        parser.ready(),
        level < 4,
    ensures
        r == is_level_operator(level as nat, parser.toks()[parser.cursor()].value),
{
    match parser.peek_with_span() {
        Some(t) => match t.value {
            Token::BangEqual | Token::EqualEqual => level == 0,
            Token::Greater | Token::GreaterEqual | Token::Less | Token::LessEqual => level == 1,
            Token::Minus | Token::Plus => level == 2,
            Token::Slash | Token::Star => level == 3,
            _ => false,
        },
        None => false,
    }
}

fn equality(parser: &mut Parser) -> (r: Result<WithSpan<Expr>, ()>)
    requires
        old(parser).ready(),
    ensures
        parsed_as(old(parser), final(parser), r, parse_level(old(parser).toks(), old(parser).cursor(), 0)),
    decreases old(parser).toks().len() - old(parser).cursor(), 6nat,
{
    let ghost toks = parser.toks();
    let ghost i = parser.cursor();
    let mut expr = match comparison(parser) {
        Ok(e) => e,
        Err(()) => return Err(()),
    };
    while next_is_operator(parser, 0)
        invariant
            parser.ready(),
            parser.toks() == toks,
            parser.errors() == old(parser).errors(),
            i < parser.cursor(),
            toks == old(parser).toks(),
            i == old(parser).cursor(),
            parse_level(toks, i, 0) == parse_rest(toks, 0, expr@, parser.cursor()),
        decreases toks.len() - parser.cursor(),
    {
        let operator = parser.advance();
        let right = match comparison(parser) {
            Ok(e) => e,
            Err(()) => return Err(()),
        };
        let span = Span::union(&expr, &right);
        expr = WithSpan::new(
            Expr::Binary { operator, left: Box::new(expr), right: Box::new(right) },
            span,
        );
    }
    Ok(expr)
}

fn comparison(parser: &mut Parser) -> (r: Result<WithSpan<Expr>, ()>)
    requires
        old(parser).ready(),
    ensures
        parsed_as(old(parser), final(parser), r, parse_level(old(parser).toks(), old(parser).cursor(), 1)),
    decreases old(parser).toks().len() - old(parser).cursor(), 5nat,
{
    let ghost toks = parser.toks();
    let ghost i = parser.cursor();
    let mut expr = match term(parser) {
        Ok(e) => e,
        Err(()) => return Err(()),
    };
    while next_is_operator(parser, 1)
        invariant
            parser.ready(),
            parser.toks() == toks,
            parser.errors() == old(parser).errors(),
            i < parser.cursor(),
            toks == old(parser).toks(),
            i == old(parser).cursor(),
            parse_level(toks, i, 1) == parse_rest(toks, 1, expr@, parser.cursor()),
        decreases toks.len() - parser.cursor(),
    {
        let operator = parser.advance();
        let right = match term(parser) {
            Ok(e) => e,
            Err(()) => return Err(()),
        };
        let span = Span::union(&expr, &right);
        expr = WithSpan::new(
            Expr::Binary { operator, left: Box::new(expr), right: Box::new(right) },
            span,
        );
    }
    Ok(expr)
}

fn term(parser: &mut Parser) -> (r: Result<WithSpan<Expr>, ()>)
    requires
        old(parser).ready(),
    ensures
        parsed_as(old(parser), final(parser), r, parse_level(old(parser).toks(), old(parser).cursor(), 2)),
    decreases old(parser).toks().len() - old(parser).cursor(), 4nat,
{
    let ghost toks = parser.toks();
    let ghost i = parser.cursor();
    let mut expr = match factor(parser) {
        Ok(e) => e,
        Err(()) => return Err(()),
    };
    while next_is_operator(parser, 2)
        invariant
            parser.ready(),
            parser.toks() == toks,
            parser.errors() == old(parser).errors(),
            i < parser.cursor(),
            toks == old(parser).toks(),
            i == old(parser).cursor(),
            parse_level(toks, i, 2) == parse_rest(toks, 2, expr@, parser.cursor()),
        decreases toks.len() - parser.cursor(),
    {
        let operator = parser.advance();
        let right = match factor(parser) {
            Ok(e) => e,
            Err(()) => return Err(()),
        };
        let span = Span::union(&expr, &right);
        expr = WithSpan::new(
            Expr::Binary { operator, left: Box::new(expr), right: Box::new(right) },
            span,
        );
    }
    Ok(expr)
}

fn factor(parser: &mut Parser) -> (r: Result<WithSpan<Expr>, ()>)
    requires
        old(parser).ready(),
    ensures
        parsed_as(old(parser), final(parser), r, parse_level(old(parser).toks(), old(parser).cursor(), 3)),
    decreases old(parser).toks().len() - old(parser).cursor(), 3nat,
{
    let ghost toks = parser.toks();
    let ghost i = parser.cursor();
    let mut expr = match unary(parser) {
        Ok(e) => e,
        Err(()) => return Err(()),
    };
    while next_is_operator(parser, 3)
        invariant
            parser.ready(),
            parser.toks() == toks,
            parser.errors() == old(parser).errors(),
            i < parser.cursor(),
            toks == old(parser).toks(),
            i == old(parser).cursor(),
            parse_level(toks, i, 3) == parse_rest(toks, 3, expr@, parser.cursor()),
        decreases toks.len() - parser.cursor(),
    {
        let operator = parser.advance();
        let right = match unary(parser) {
            Ok(e) => e,
            Err(()) => return Err(()),
        };
        let span = Span::union(&expr, &right);
        expr = WithSpan::new(
            Expr::Binary { operator, left: Box::new(expr), right: Box::new(right) },
            span,
        );
    }
    Ok(expr)
}

fn unary(parser: &mut Parser) -> (r: Result<WithSpan<Expr>, ()>)
    requires
        old(parser).ready(),
    ensures
        parsed_as(old(parser), final(parser), r, parse_level(old(parser).toks(), old(parser).cursor(), 4)),
    decreases old(parser).toks().len() - old(parser).cursor(), 2nat,
{
    let prefix = match parser.peek_with_span() {
        Some(t) => match t.value {
            Token::Minus | Token::Bang => true,
            _ => false,
        },
        None => false,
    };
    if prefix {
        let operator = parser.advance();
        let right = match unary(parser) {
            Ok(e) => e,
            Err(()) => return Err(()),
        };
        let span = Span::union(&operator, &right);
        return Ok(WithSpan::new(Expr::Unary { operator, right: Box::new(right) }, span));
    }
    primary(parser)
}

fn primary(parser: &mut Parser) -> (r: Result<WithSpan<Expr>, ()>)
    requires
        old(parser).ready(),
    ensures
        parsed_as(old(parser), final(parser), r, parse_level(old(parser).toks(), old(parser).cursor(), 5)),
    decreases old(parser).toks().len() - old(parser).cursor(), 1nat,
{
    let (literal, left_paren) = match parser.peek_with_span() {
        Some(t) => match t.value {
            Token::True | Token::False | Token::Nil | Token::Number(_) | Token::String(_) => (
                true,
                false,
            ),
            Token::LeftParen => (false, true),
            _ => (false, false),
        },
        None => (false, false),
    };
    if literal {
        let token = parser.advance();
        let span = token.span;
        return Ok(WithSpan::new(Expr::Literal(token), span));
    }
    if left_paren {
        let left_paren = parser.advance();
        let expr = match expression(parser) {
            Ok(e) => e,
            Err(()) => return Err(()),
        };
        if !parser.matches(Token::RightParen) {
            parser.error("Unmatched parentheses.", expr.span);
            return Err(());
        }
        let right_paren = parser.advance();
        let span = Span::union(&left_paren, &right_paren);
        return Ok(WithSpan::new(Expr::Grouping(Box::new(expr)), span));
    }
    let span = parser.current_span();
    parser.error("Expected expression.", span);
    Err(())
}

} // verus!
