use lox::expr::{parse, render, Expr};
use lox::lexer::{Scanner, Token};
use lox::parser::Parser;
use lox::position::{BytePos, Span, WithSpan};

fn parse_source(src: &str) -> (Result<WithSpan<Expr>, ()>, Vec<String>) {
    let mut scanner = Scanner::new(src);
    let tokens = scanner.scan();
    let mut parser = Parser::new(&tokens);
    let r = parse(&mut parser);
    let messages = parser.diagnostics().iter().map(|d| d.message.clone()).collect();
    (r, messages)
}

fn rendered(src: &str) -> String {
    render(&parse_source(src).0.expect("parses"))
}

#[test]
fn product_binds_tighter_than_sum() {
    let (r, messages) = parse_source("1 + 2 * 3");
    assert!(messages.is_empty());
    let tree = r.expect("parses");
    match &tree.value {
        Expr::Binary { operator, left, right } => {
            assert_eq!(operator.value, Token::Plus);
            assert!(matches!(&left.value, Expr::Literal(t) if t.value == Token::Number("1".to_string())));
            match &right.value {
                Expr::Binary { operator, left, right } => {
                    assert_eq!(operator.value, Token::Star);
                    assert!(matches!(&left.value, Expr::Literal(t) if t.value == Token::Number("2".to_string())));
                    assert!(matches!(&right.value, Expr::Literal(t) if t.value == Token::Number("3".to_string())));
                }
                other => panic!("expected a product, got {:?}", other),
            }
        }
        other => panic!("expected a sum, got {:?}", other),
    }
    assert_eq!(tree.span, Span { start: BytePos(0), end: BytePos(9) });
    assert_eq!(render(&tree), "(+ 1 (* 2 3))");
}

#[test]
fn missing_closing_paren_is_unmatched() {
    let (r, messages) = parse_source("(1 + 2");
    assert!(r.is_err());
    assert_eq!(messages.len(), 1);
    assert!(messages[0].contains("Unmatched parentheses."));
}

#[test]
fn unmatched_paren_points_at_inner_expression() {
    let mut scanner = Scanner::new("(1 + 2");
    let tokens = scanner.scan();
    let mut parser = Parser::new(&tokens);
    assert!(parse(&mut parser).is_err());
    assert_eq!(parser.diagnostics()[0].span, Span { start: BytePos(1), end: BytePos(6) });
}

#[test]
fn missing_operand_is_expected_expression() {
    let (r, messages) = parse_source("1 +");
    assert!(r.is_err());
    assert_eq!(messages, vec!["Expected expression.".to_string()]);
    let (r, messages) = parse_source("");
    assert!(r.is_err());
    assert_eq!(messages, vec!["Expected expression.".to_string()]);
}

#[test]
fn levels_are_left_associative() {
    assert_eq!(rendered("1 - 2 - 3"), "(- (- 1 2) 3)");
    assert_eq!(rendered("8 / 4 / 2"), "(/ (/ 8 4) 2)");
    assert_eq!(rendered("1 < 2 == 3 >= 4"), "(== (< 1 2) (>= 3 4))");
    assert_eq!(rendered("1 != 2 == true"), "(== (!= 1 2) true)");
}

#[test]
fn unary_grouping_and_literals_render() {
    assert_eq!(rendered("--1"), "(- (- 1))");
    assert_eq!(rendered("!!false"), "(! (! false))");
    assert_eq!(rendered("(1 + 2) * 3"), "(* (group (+ 1 2)) 3)");
    assert_eq!(rendered("\"hi\""), "hi");
    assert_eq!(rendered("nil"), "nil");
    assert_eq!(rendered("2.50"), "2.50");
}

#[test]
fn grouping_spans_both_parentheses() {
    let tree = parse_source(" (1) ").0.expect("parses");
    assert_eq!(tree.span, Span { start: BytePos(1), end: BytePos(4) });
}

#[test]
fn parse_stops_after_one_expression() {
    let mut scanner = Scanner::new("1 2");
    let tokens = scanner.scan();
    let mut parser = Parser::new(&tokens);
    let tree = parse(&mut parser).expect("parses");
    assert_eq!(render(&tree), "1");
    assert_eq!(parser.peek(), Some(Token::Number("2".to_string())));
}

#[test]
fn rendering_a_literal_is_stable_when_read_again() {
    for src in ["42", "3.25", "true", "false", "nil"] {
        let once = rendered(src);
        let twice = rendered(&once);
        assert_eq!(once, twice);
    }
}

#[test]
fn parser_cursor_operations() {
    let mut scanner = Scanner::new("(1");
    let tokens = scanner.scan();
    let mut parser = Parser::new(&tokens);
    assert!(!parser.is_at_end());
    assert_eq!(parser.peek(), Some(Token::LeftParen));
    assert!(parser.matches(Token::LeftParen));
    assert!(!parser.matches(Token::RightParen));
    assert_eq!(parser.current_span(), Span { start: BytePos(0), end: BytePos(1) });
    let t = parser.advance();
    assert_eq!(t.value, Token::LeftParen);
    assert_eq!(parser.peek_with_span().map(|t| t.span), Some(Span { start: BytePos(1), end: BytePos(2) }));
    parser.advance();
    parser.advance();
    assert!(parser.is_at_end());
    assert_eq!(parser.peek(), None);
    assert_eq!(parser.current_span(), Span::empty());
    parser.error("custom", Span::empty());
    assert_eq!(parser.diagnostics().len(), 1);
    assert_eq!(parser.diagnostics()[0].message, "custom");
}

#[test]
fn failed_parse_leaves_the_offending_token_unread() {
    for (src, expected) in [
        ("+", Token::Plus),
        ("1 +", Token::Eof),
        ("(1 + 2", Token::Eof),
        ("(1 2)", Token::Number("2".to_string())),
        ("* 3", Token::Star),
    ] {
        let mut scanner = Scanner::new(src);
        let tokens = scanner.scan();
        let mut parser = Parser::new(&tokens);
        assert!(parse(&mut parser).is_err());
        assert_eq!(parser.peek(), Some(expected));
    }
}
