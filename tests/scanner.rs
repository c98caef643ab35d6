use lox::lexer::{Scanner, Token};
use lox::position::{BytePos, Span, WithSpan};

fn scan(src: &str) -> (Vec<WithSpan<Token>>, Vec<String>) {
    let mut scanner = Scanner::new(src);
    let tokens = scanner.scan();
    let messages = scanner.diagnostics().iter().map(|d| d.message.clone()).collect();
    (tokens, messages)
}

fn values(tokens: &[WithSpan<Token>]) -> Vec<Token> {
    tokens.iter().map(|t| t.value.clone()).collect()
}

fn span(start: u32, end: u32) -> Span {
    Span { start: BytePos(start), end: BytePos(end) }
}

#[test]
fn blank_text_scans_to_eof_alone() {
    for src in ["", "   ", "\t\r\n", "// only a comment", "  // one\n// two\n\n  "] {
        let (tokens, messages) = scan(src);
        assert_eq!(values(&tokens), vec![Token::Eof]);
        assert!(messages.is_empty());
        let end = src.len() as u32;
        assert_eq!(tokens[0].span, span(end, end));
    }
}

#[test]
fn left_paren_then_eof() {
    let mut scanner = Scanner::new("(");
    let tokens = scanner.scan();
    assert_eq!(values(&tokens), vec![Token::LeftParen, Token::Eof]);
    assert!(!scanner.has_errors());
    assert_eq!(scanner.diagnostics().len(), 0);
    assert_eq!(tokens[0].span, span(0, 1));
    assert_eq!(tokens[1].span, span(1, 1));
    assert!(tokens[0].span.end <= tokens[1].span.start);
}

#[test]
fn unterminated_string_gives_no_token() {
    let mut scanner = Scanner::new("\"abc");
    let tokens = scanner.scan();
    assert_eq!(values(&tokens), vec![Token::Eof]);
    assert!(scanner.has_errors());
    let diags = scanner.diagnostics();
    assert_eq!(diags.len(), 1);
    assert!(diags[0].message.contains("Unterminated String"));
    assert_eq!(diags[0].span, span(0, 4));
}

#[test]
fn string_literal_excludes_quotes() {
    let (tokens, messages) = scan("\"hi there\"");
    assert_eq!(values(&tokens), vec![Token::String("hi there".to_string()), Token::Eof]);
    assert!(messages.is_empty());
    assert_eq!(tokens[0].span, span(0, 10));
}

#[test]
fn one_and_two_character_operators() {
    let (tokens, _) = scan("! != = == < <= > >= / * - + ; , . { } ( )");
    assert_eq!(
        values(&tokens),
        vec![
            Token::Bang,
            Token::BangEqual,
            Token::Equal,
            Token::EqualEqual,
            Token::Less,
            Token::LessEqual,
            Token::Greater,
            Token::GreaterEqual,
            Token::Slash,
            Token::Star,
            Token::Minus,
            Token::Plus,
            Token::Semicolon,
            Token::Comma,
            Token::Dot,
            Token::LeftBrace,
            Token::RightBrace,
            Token::LeftParen,
            Token::RightParen,
            Token::Eof,
        ]
    );
}

#[test]
fn numbers_take_a_point_only_before_a_digit() {
    let (tokens, _) = scan("12.5 7. 3.x 42");
    assert_eq!(
        values(&tokens),
        vec![
            Token::Number("12.5".to_string()),
            Token::Number("7".to_string()),
            Token::Dot,
            Token::Number("3".to_string()),
            Token::Dot,
            Token::Identifier("x".to_string()),
            Token::Number("42".to_string()),
            Token::Eof,
        ]
    );
    assert_eq!(tokens[0].span, span(0, 4));
}

#[test]
fn keywords_and_identifiers() {
    let (tokens, _) = scan("and class else false for fun if nil or print return super this true var while _x1 truth");
    assert_eq!(
        values(&tokens),
        vec![
            Token::And,
            Token::Class,
            Token::Else,
            Token::False,
            Token::For,
            Token::Fun,
            Token::If,
            Token::Nil,
            Token::Or,
            Token::Print,
            Token::Return,
            Token::Super,
            Token::This,
            Token::True,
            Token::Var,
            Token::While,
            Token::Identifier("_x1".to_string()),
            Token::Identifier("truth".to_string()),
            Token::Eof,
        ]
    );
}

#[test]
fn non_ascii_letters_start_identifiers_and_spans_count_bytes() {
    let (tokens, messages) = scan("é x");
    assert!(messages.is_empty());
    assert_eq!(
        values(&tokens),
        vec![Token::Identifier("é".to_string()), Token::Identifier("x".to_string()), Token::Eof]
    );
    assert_eq!(tokens[0].span, span(0, 2));
    assert_eq!(tokens[1].span, span(3, 4));
    assert_eq!(tokens[2].span, span(4, 4));
}

#[test]
fn unexpected_characters_are_reported_and_skipped() {
    let (tokens, messages) = scan("1 @ 2 #");
    assert_eq!(
        values(&tokens),
        vec![Token::Number("1".to_string()), Token::Number("2".to_string()), Token::Eof]
    );
    assert_eq!(messages, vec!["Unexpected character: @".to_string(), "Unexpected character: #".to_string()]);
}

#[test]
fn comment_runs_to_end_of_line() {
    let (tokens, _) = scan("1 // two 2\n3");
    assert_eq!(
        values(&tokens),
        vec![Token::Number("1".to_string()), Token::Number("3".to_string()), Token::Eof]
    );
}

#[test]
fn token_text_forms() {
    assert_eq!(Token::LeftParen.token_type(), "LEFT_PAREN");
    assert_eq!(Token::GreaterEqual.token_type(), "GREATER_EQUAL");
    assert_eq!(Token::While.token_type(), "WHILE");
    assert_eq!(Token::Eof.token_type(), "EOF");
    assert_eq!(Token::BangEqual.lexeme(), "!=");
    assert_eq!(Token::String("ab".to_string()).lexeme(), "\"ab\"");
    assert_eq!(Token::Number("1.5".to_string()).lexeme(), "1.5");
    assert_eq!(Token::Eof.lexeme(), "");
    assert_eq!(Token::String("ab".to_string()).literal(), "ab");
    assert_eq!(Token::Identifier("ab".to_string()).literal(), "null");
    assert_eq!(Token::Star.describe(), "STAR * null");
    assert_eq!(Token::String("ab".to_string()).describe(), "STRING \"ab\" ab");
    assert_eq!(Token::Identifier("foo".to_string()).describe(), "IDENTIFIER foo null");
}

#[test]
fn token_equality_compares_payloads() {
    assert_eq!(Token::Number("1".to_string()), Token::Number("1".to_string()));
    assert_ne!(Token::Number("1".to_string()), Token::Number("2".to_string()));
    assert_ne!(Token::Number("1".to_string()), Token::String("1".to_string()));
    assert_ne!(Token::Less, Token::LessEqual);
}

#[test]
fn token_starts_strictly_increase() {
    let (tokens, _) = scan("a1 >= \"é\" // c\n 2.5;(");
    for pair in tokens.windows(2) {
        assert!(pair[0].span.start < pair[1].span.start);
        assert!(pair[0].span.end <= pair[1].span.start);
        assert!(pair[0].span.start < pair[0].span.end);
    }
}
