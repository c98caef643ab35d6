//! Tokens and the scanner that turns source text into them.
use crate::position::{
    byte_offset, lemma_byte_offset_monotone, lemma_byte_offset_step, utf8_width, BytePos,
    Diagnostic, DiagnosticView, Span, WithSpan,
};
use vstd::prelude::*;
use vstd::utf8::encode_utf8;

verus! {

/// A lexical token. Payloads hold the identifier's name, the string's
/// contents without quotes, or the number exactly as written.
#[derive(Debug)]
pub enum Token {
    LeftParen,
    RightParen,
    LeftBrace,
    RightBrace,
    Comma,
    Dot,
    Minus,
    Plus,
    Semicolon,
    Slash,
    Star,
    Bang,
    BangEqual,
    Equal,
    EqualEqual,
    Greater,
    GreaterEqual,
    Less,
    LessEqual,
    Identifier(String),
    String(String),
    Number(String),
    And,
    Class,
    Else,
    False,
    Fun,
    For,
    If,
    Nil,
    Or,
    Print,
    Return,
    Super,
    This,
    True,
    Var,
    While,
    Eof,
}

/// A token as the contracts see it: payloads as character sequences.
pub enum TokenView {
    LeftParen,
    RightParen,
    LeftBrace,
    RightBrace,
    Comma,
    Dot,
    Minus,
    Plus,
    Semicolon,
    Slash,
    Star,
    Bang,
    BangEqual,
    Equal,
    EqualEqual,
    Greater,
    GreaterEqual,
    Less,
    LessEqual,
    Identifier(Seq<char>),
    String(Seq<char>),
    Number(Seq<char>),
    And,
    Class,
    Else,
    False,
    Fun,
    For,
    If,
    Nil,
    Or,
    Print,
    Return,
    Super,
    This,
    True,
    Var,
    While,
    Eof,
}

impl View for Token {
    type V = TokenView;

    open spec fn view(&self) -> TokenView {
        match self {
            Token::LeftParen => TokenView::LeftParen,
            Token::RightParen => TokenView::RightParen,
            Token::LeftBrace => TokenView::LeftBrace,
            Token::RightBrace => TokenView::RightBrace,
            Token::Comma => TokenView::Comma,
            Token::Dot => TokenView::Dot,
            Token::Minus => TokenView::Minus,
            Token::Plus => TokenView::Plus,
            Token::Semicolon => TokenView::Semicolon,
            Token::Slash => TokenView::Slash,
            Token::Star => TokenView::Star,
            Token::Bang => TokenView::Bang,
            Token::BangEqual => TokenView::BangEqual,
            Token::Equal => TokenView::Equal,
            Token::EqualEqual => TokenView::EqualEqual,
            Token::Greater => TokenView::Greater,
            Token::GreaterEqual => TokenView::GreaterEqual,
            Token::Less => TokenView::Less,
            Token::LessEqual => TokenView::LessEqual,
            Token::And => TokenView::And,
            Token::Class => TokenView::Class,
            Token::Else => TokenView::Else,
            Token::False => TokenView::False,
            Token::Fun => TokenView::Fun,
            Token::For => TokenView::For,
            Token::If => TokenView::If,
            Token::Nil => TokenView::Nil,
            Token::Or => TokenView::Or,
            Token::Print => TokenView::Print,
            Token::Return => TokenView::Return,
            Token::Super => TokenView::Super,
            Token::This => TokenView::This,
            Token::True => TokenView::True,
            Token::Var => TokenView::Var,
            Token::While => TokenView::While,
            Token::Eof => TokenView::Eof,
            Token::Identifier(s) => TokenView::Identifier(s@),
            Token::String(s) => TokenView::String(s@),
            Token::Number(s) => TokenView::Number(s@),
        }
    }
}

impl Clone for Token {
    fn clone(&self) -> (r: Token)
        ensures
            r == *self,
    {
        match self {
            Token::LeftParen => Token::LeftParen,
            Token::RightParen => Token::RightParen,
            Token::LeftBrace => Token::LeftBrace,
            Token::RightBrace => Token::RightBrace,
            Token::Comma => Token::Comma,
            Token::Dot => Token::Dot,
            Token::Minus => Token::Minus,
            Token::Plus => Token::Plus,
            Token::Semicolon => Token::Semicolon,
            Token::Slash => Token::Slash,
            Token::Star => Token::Star,
            Token::Bang => Token::Bang,
            Token::BangEqual => Token::BangEqual,
            Token::Equal => Token::Equal,
            Token::EqualEqual => Token::EqualEqual,
            Token::Greater => Token::Greater,
            Token::GreaterEqual => Token::GreaterEqual,
            Token::Less => Token::Less,
            Token::LessEqual => Token::LessEqual,
            Token::And => Token::And,
            Token::Class => Token::Class,
            Token::Else => Token::Else,
            Token::False => Token::False,
            Token::Fun => Token::Fun,
            Token::For => Token::For,
            Token::If => Token::If,
            Token::Nil => Token::Nil,
            Token::Or => Token::Or,
            Token::Print => Token::Print,
            Token::Return => Token::Return,
            Token::Super => Token::Super,
            Token::This => Token::This,
            Token::True => Token::True,
            Token::Var => Token::Var,
            Token::While => Token::While,
            Token::Eof => Token::Eof,
            Token::Identifier(s) => Token::Identifier(s.clone()),
            Token::String(s) => Token::String(s.clone()),
            Token::Number(s) => Token::Number(s.clone()),
        }
    }
}

impl PartialEq for Token {
    fn eq(&self, other: &Token) -> (r: bool)
        ensures
            r == (self@ == other@),
    {
        match self {
            Token::LeftParen => match other {
                Token::LeftParen => true,
                _ => false,
            },
            Token::RightParen => match other {
                Token::RightParen => true,
                _ => false,
            },
            Token::LeftBrace => match other {
                Token::LeftBrace => true,
                _ => false,
            },
            Token::RightBrace => match other {
                Token::RightBrace => true,
                _ => false,
            },
            Token::Comma => match other {
                Token::Comma => true,
                _ => false,
            },
            Token::Dot => match other {
                Token::Dot => true,
                _ => false,
            },
            Token::Minus => match other {
                Token::Minus => true,
                _ => false,
            },
            Token::Plus => match other {
                Token::Plus => true,
                _ => false,
            },
            Token::Semicolon => match other {
                Token::Semicolon => true,
                _ => false,
            },
            Token::Slash => match other {
                Token::Slash => true,
                _ => false,
            },
            Token::Star => match other {
                Token::Star => true,
                _ => false,
            },
            Token::Bang => match other {
                Token::Bang => true,
                _ => false,
            },
            Token::BangEqual => match other {
                Token::BangEqual => true,
                _ => false,
            },
            Token::Equal => match other {
                Token::Equal => true,
                _ => false,
            },
            Token::EqualEqual => match other {
                Token::EqualEqual => true,
                _ => false,
            },
            Token::Greater => match other {
                Token::Greater => true,
                _ => false,
            },
            Token::GreaterEqual => match other {
                Token::GreaterEqual => true,
                _ => false,
            },
            Token::Less => match other {
                Token::Less => true,
                _ => false,
            },
            Token::LessEqual => match other {
                Token::LessEqual => true,
                _ => false,
            },
            Token::And => match other {
                Token::And => true,
                _ => false,
            },
            Token::Class => match other {
                Token::Class => true,
                _ => false,
            },
            Token::Else => match other {
                Token::Else => true,
                _ => false,
            },
            Token::False => match other {
                Token::False => true,
                _ => false,
            },
            Token::Fun => match other {
                Token::Fun => true,
                _ => false,
            },
            Token::For => match other {
                Token::For => true,
                _ => false,
            },
            Token::If => match other {
                Token::If => true,
                _ => false,
            },
            Token::Nil => match other {
                Token::Nil => true,
                _ => false,
            },
            Token::Or => match other {
                Token::Or => true,
                _ => false,
            },
            Token::Print => match other {
                Token::Print => true,
                _ => false,
            },
            Token::Return => match other {
                Token::Return => true,
                _ => false,
            },
            Token::Super => match other {
                Token::Super => true,
                _ => false,
            },
            Token::This => match other {
                Token::This => true,
                _ => false,
            },
            Token::True => match other {
                Token::True => true,
                _ => false,
            },
            Token::Var => match other {
                Token::Var => true,
                _ => false,
            },
            Token::While => match other {
                Token::While => true,
                _ => false,
            },
            Token::Eof => match other {
                Token::Eof => true,
                _ => false,
            },
            Token::Identifier(a) => match other {
                Token::Identifier(b) => *a == *b,
                _ => false,
            },
            Token::String(a) => match other {
                Token::String(b) => *a == *b,
                _ => false,
            },
            Token::Number(a) => match other {
                Token::Number(b) => *a == *b,
                _ => false,
            },
        }
    }
}

impl vstd::std_specs::cmp::PartialEqSpecImpl for Token {
    open spec fn obeys_eq_spec() -> bool {
        true
    }

    open spec fn eq_spec(&self, other: &Token) -> bool {
        self@ == other@
    }
}

/// Name of the token's kind, as printed in a token listing.
pub open spec fn kind_name(t: TokenView) -> Seq<char> {
    match t {
        TokenView::LeftParen => "LEFT_PAREN"@,
        TokenView::RightParen => "RIGHT_PAREN"@,
        TokenView::LeftBrace => "LEFT_BRACE"@,
        TokenView::RightBrace => "RIGHT_BRACE"@,
        TokenView::Comma => "COMMA"@,
        TokenView::Dot => "DOT"@,
        TokenView::Minus => "MINUS"@,
        TokenView::Plus => "PLUS"@,
        TokenView::Semicolon => "SEMICOLON"@,
        TokenView::Slash => "SLASH"@,
        TokenView::Star => "STAR"@,
        TokenView::Bang => "BANG"@,
        TokenView::BangEqual => "BANG_EQUAL"@,
        TokenView::Equal => "EQUAL"@,
        TokenView::EqualEqual => "EQUAL_EQUAL"@,
        TokenView::Greater => "GREATER"@,
        TokenView::GreaterEqual => "GREATER_EQUAL"@,
        TokenView::Less => "LESS"@,
        TokenView::LessEqual => "LESS_EQUAL"@,
        TokenView::Identifier(_) => "IDENTIFIER"@,
        TokenView::String(_) => "STRING"@,
        TokenView::Number(_) => "NUMBER"@,
        TokenView::And => "AND"@,
        TokenView::Class => "CLASS"@,
        TokenView::Else => "ELSE"@,
        TokenView::False => "FALSE"@,
        TokenView::Fun => "FUN"@,
        TokenView::For => "FOR"@,
        TokenView::If => "IF"@,
        TokenView::Nil => "NIL"@,
        TokenView::Or => "OR"@,
        TokenView::Print => "PRINT"@,
        TokenView::Return => "RETURN"@,
        TokenView::Super => "SUPER"@,
        TokenView::This => "THIS"@,
        TokenView::True => "TRUE"@,
        TokenView::Var => "VAR"@,
        TokenView::While => "WHILE"@,
        TokenView::Eof => "EOF"@,
    }
}

/// Source text of the token: its spelling, with quotes around a string.
pub open spec fn lexeme_of(t: TokenView) -> Seq<char> {
    match t {
        TokenView::LeftParen => "("@,
        TokenView::RightParen => ")"@,
        TokenView::LeftBrace => "{"@,
        TokenView::RightBrace => "}"@,
        TokenView::Comma => ","@,
        TokenView::Dot => "."@,
        TokenView::Minus => "-"@,
        TokenView::Plus => "+"@,
        TokenView::Semicolon => ";"@,
        TokenView::Slash => "/"@,
        TokenView::Star => "*"@,
        TokenView::Bang => "!"@,
        TokenView::BangEqual => "!="@,
        TokenView::Equal => "="@,
        TokenView::EqualEqual => "=="@,
        TokenView::Greater => ">"@,
        TokenView::GreaterEqual => ">="@,
        TokenView::Less => "<"@,
        TokenView::LessEqual => "<="@,
        TokenView::Identifier(s) => s,
        TokenView::String(s) => "\""@ + s + "\""@,
        TokenView::Number(s) => s,
        TokenView::And => "and"@,
        TokenView::Class => "class"@,
        TokenView::Else => "else"@,
        TokenView::False => "false"@,
        TokenView::Fun => "fun"@,
        TokenView::For => "for"@,
        TokenView::If => "if"@,
        TokenView::Nil => "nil"@,
        TokenView::Or => "or"@,
        TokenView::Print => "print"@,
        TokenView::Return => "return"@,
        TokenView::Super => "super"@,
        TokenView::This => "this"@,
        TokenView::True => "true"@,
        TokenView::Var => "var"@,
        TokenView::While => "while"@,
        TokenView::Eof => ""@,
    }
}

/// Literal payload of a string or number token; `null` for the others.
pub open spec fn literal_of(t: TokenView) -> Seq<char> {
    match t {
        TokenView::String(s) => s,
        TokenView::Number(s) => s,
        _ => "null"@,
    }
}

/// One line of a token listing: kind, lexeme and literal, separated by spaces.
pub open spec fn describe_of(t: TokenView) -> Seq<char> {
    kind_name(t) + " "@ + lexeme_of(t) + " "@ + literal_of(t)
}

impl Token {
    /// Name of the token's kind, such as `LEFT_PAREN` or `NUMBER`.
    pub fn token_type(&self) -> (r: String)
        ensures
            r@ == kind_name(self@),
    {
        match self {
            Token::LeftParen => String::from_str("LEFT_PAREN"),
            Token::RightParen => String::from_str("RIGHT_PAREN"),
            Token::LeftBrace => String::from_str("LEFT_BRACE"),
            Token::RightBrace => String::from_str("RIGHT_BRACE"),
            Token::Comma => String::from_str("COMMA"),
            Token::Dot => String::from_str("DOT"),
            Token::Minus => String::from_str("MINUS"),
            Token::Plus => String::from_str("PLUS"),
            Token::Semicolon => String::from_str("SEMICOLON"),
            Token::Slash => String::from_str("SLASH"),
            Token::Star => String::from_str("STAR"),
            Token::Bang => String::from_str("BANG"),
            Token::BangEqual => String::from_str("BANG_EQUAL"),
            Token::Equal => String::from_str("EQUAL"),
            Token::EqualEqual => String::from_str("EQUAL_EQUAL"),
            Token::Greater => String::from_str("GREATER"),
            Token::GreaterEqual => String::from_str("GREATER_EQUAL"),
            Token::Less => String::from_str("LESS"),
            Token::LessEqual => String::from_str("LESS_EQUAL"),
            Token::Identifier(_) => String::from_str("IDENTIFIER"),
            Token::String(_) => String::from_str("STRING"),
            Token::Number(_) => String::from_str("NUMBER"),
            Token::And => String::from_str("AND"),
            Token::Class => String::from_str("CLASS"),
            Token::Else => String::from_str("ELSE"),
            Token::False => String::from_str("FALSE"),
            Token::Fun => String::from_str("FUN"),
            Token::For => String::from_str("FOR"),
            Token::If => String::from_str("IF"),
            Token::Nil => String::from_str("NIL"),
            Token::Or => String::from_str("OR"),
            Token::Print => String::from_str("PRINT"),
            Token::Return => String::from_str("RETURN"),
            Token::Super => String::from_str("SUPER"),
            Token::This => String::from_str("THIS"),
            Token::True => String::from_str("TRUE"),
            Token::Var => String::from_str("VAR"),
            Token::While => String::from_str("WHILE"),
            Token::Eof => String::from_str("EOF"),
        }
    }

    /// The token's spelling in source text.
    pub fn lexeme(&self) -> (r: String)
        ensures
            r@ == lexeme_of(self@),
    {
        match self {
            Token::LeftParen => String::from_str("("),
            Token::RightParen => String::from_str(")"),
            Token::LeftBrace => String::from_str("{"),
            Token::RightBrace => String::from_str("}"),
            Token::Comma => String::from_str(","),
            Token::Dot => String::from_str("."),
            Token::Minus => String::from_str("-"),
            Token::Plus => String::from_str("+"),
            Token::Semicolon => String::from_str(";"),
            Token::Slash => String::from_str("/"),
            Token::Star => String::from_str("*"),
            Token::Bang => String::from_str("!"),
            Token::BangEqual => String::from_str("!="),
            Token::Equal => String::from_str("="),
            Token::EqualEqual => String::from_str("=="),
            Token::Greater => String::from_str(">"),
            Token::GreaterEqual => String::from_str(">="),
            Token::Less => String::from_str("<"),
            Token::LessEqual => String::from_str("<="),
            Token::Identifier(s) => s.clone(),
            Token::String(s) => {
                let quoted = String::from_str("\"").concat(s.as_str());
                quoted.concat("\"")
            },
            Token::Number(s) => s.clone(),
            Token::And => String::from_str("and"),
            Token::Class => String::from_str("class"),
            Token::Else => String::from_str("else"),
            Token::False => String::from_str("false"),
            Token::Fun => String::from_str("fun"),
            Token::For => String::from_str("for"),
            Token::If => String::from_str("if"),
            Token::Nil => String::from_str("nil"),
            Token::Or => String::from_str("or"),
            Token::Print => String::from_str("print"),
            Token::Return => String::from_str("return"),
            Token::Super => String::from_str("super"),
            Token::This => String::from_str("this"),
            Token::True => String::from_str("true"),
            Token::Var => String::from_str("var"),
            Token::While => String::from_str("while"),
            Token::Eof => String::from_str(""),
        }
    }

    /// The literal payload: a string's contents, a number as written, and
    /// `null` for every other token.
    pub fn literal(&self) -> (r: String)
        ensures
            r@ == literal_of(self@),
    {
        match self {
            Token::String(s) => s.clone(),
            Token::Number(s) => s.clone(),
            _ => String::from_str("null"),
        }
    }

    /// The token as one line of a listing: `TYPE lexeme literal`.
    pub fn describe(&self) -> (r: String)
        ensures
            r@ == describe_of(self@),
    {
        let r = self.token_type().concat(" ");
        let lexeme = self.lexeme();
        let r = r.concat(lexeme.as_str()).concat(" ");
        let literal = self.literal();
        r.concat(literal.as_str())
    }
}

/// The reserved word spelled `word`, if it is one.
pub open spec fn keyword_of(word: Seq<char>) -> Option<TokenView> {
    if word == "and"@ {
        Some(TokenView::And)
    } else if word == "class"@ {
        Some(TokenView::Class)
    } else if word == "else"@ {
        Some(TokenView::Else)
    } else if word == "false"@ {
        Some(TokenView::False)
    } else if word == "fun"@ {
        Some(TokenView::Fun)
    } else if word == "for"@ {
        Some(TokenView::For)
    } else if word == "if"@ {
        Some(TokenView::If)
    } else if word == "nil"@ {
        Some(TokenView::Nil)
    } else if word == "or"@ {
        Some(TokenView::Or)
    } else if word == "print"@ {
        Some(TokenView::Print)
    } else if word == "return"@ {
        Some(TokenView::Return)
    } else if word == "super"@ {
        Some(TokenView::Super)
    } else if word == "this"@ {
        Some(TokenView::This)
    } else if word == "true"@ {
        Some(TokenView::True)
    } else if word == "var"@ {
        Some(TokenView::Var)
    } else if word == "while"@ {
        Some(TokenView::While)
    } else {
        None
    }
}

/// The token written as the single character `c`, if there is one.
pub open spec fn single_char_of(c: char) -> Option<TokenView> {
    match c {
        '(' => Some(TokenView::LeftParen),
        ')' => Some(TokenView::RightParen),
        '{' => Some(TokenView::LeftBrace),
        '}' => Some(TokenView::RightBrace),
        ',' => Some(TokenView::Comma),
        '.' => Some(TokenView::Dot),
        '-' => Some(TokenView::Minus),
        '+' => Some(TokenView::Plus),
        ';' => Some(TokenView::Semicolon),
        '*' => Some(TokenView::Star),
        _ => None,
    }
}

/// The reserved word spelled `word`, if it is one.
fn keyword(word: &String) -> (r: Option<Token>)
    ensures
        match r {
            Some(t) => keyword_of(word@) == Some(t@),
            None => keyword_of(word@) is None,
        },
{
    if same_text(word, "and") {
        Some(Token::And)
    } else if same_text(word, "class") {
        Some(Token::Class)
    } else if same_text(word, "else") {
        Some(Token::Else)
    } else if same_text(word, "false") {
        Some(Token::False)
    } else if same_text(word, "fun") {
        Some(Token::Fun)
    } else if same_text(word, "for") {
        Some(Token::For)
    } else if same_text(word, "if") {
        Some(Token::If)
    } else if same_text(word, "nil") {
        Some(Token::Nil)
    } else if same_text(word, "or") {
        Some(Token::Or)
    } else if same_text(word, "print") {
        Some(Token::Print)
    } else if same_text(word, "return") {
        Some(Token::Return)
    } else if same_text(word, "super") {
        Some(Token::Super)
    } else if same_text(word, "this") {
        Some(Token::This)
    } else if same_text(word, "true") {
        Some(Token::True)
    } else if same_text(word, "var") {
        Some(Token::Var)
    } else if same_text(word, "while") {
        Some(Token::While)
    } else {
        None
    }
}

/// The token written as the single character `c`, if there is one.
fn single_char_token(c: char) -> (r: Option<Token>)
    ensures
        match r {
            Some(t) => single_char_of(c) == Some(t@),
            None => single_char_of(c) is None,
        },
{
    match c {
        '(' => Some(Token::LeftParen),
        ')' => Some(Token::RightParen),
        '{' => Some(Token::LeftBrace),
        '}' => Some(Token::RightBrace),
        ',' => Some(Token::Comma),
        '.' => Some(Token::Dot),
        '-' => Some(Token::Minus),
        '+' => Some(Token::Plus),
        ';' => Some(Token::Semicolon),
        '*' => Some(Token::Star),
        _ => None,
    }
}

/// Whether `a` holds exactly the characters of `b`.
fn same_text(a: &String, b: &str) -> (r: bool)
    ensures
        r == (a@ == b@),
{
    let t = a.as_str();
    let n = t.unicode_len();
    if n != b.unicode_len() {
        return false;
    }
    let mut i: usize = 0;
    while i < n
        invariant
            n == t@.len(),
            t@ == a@,
            n == b@.len(),
            i <= n,
            forall|k: int| 0 <= k < i ==> t@[k] == b@[k],
        decreases n - i,
    {
        if t.get_char(i) != b.get_char(i) {
            assert(t@[i as int] != b@[i as int]);
            return false;
        }
        i = i + 1;
    }
    assert(t@ =~= b@);
    true
}

/// Whether `c` has the Unicode `Alphabetic` property.
pub uninterp spec fn alphabetic(c: char) -> bool;

/// Relies on `char::is_alphabetic`, which tests the Unicode `Alphabetic`
/// property.
#[verifier::external_body]
fn is_alphabetic(c: char) -> (r: bool)
    ensures
        r == alphabetic(c),
{
    c.is_alphabetic()
}

/// Relies on `String::push`, which appends one character.
#[verifier::external_body]
fn push_char(s: &mut String, c: char)
    ensures
        final(s)@ == old(s)@.push(c),
{
    s.push(c)
}

pub open spec fn is_whitespace(c: char) -> bool {
    c == ' ' || c == '\n' || c == '\r' || c == '\t'
}

pub open spec fn is_ascii_letter(c: char) -> bool {
    ('a' <= c <= 'z') || ('A' <= c <= 'Z')
}

/// Characters that may start an identifier: ASCII letters, the underscore,
/// and the alphabetic characters beyond ASCII.
pub open spec fn is_ident_start(c: char) -> bool {
    is_ascii_letter(c) || c == '_' || ((c as u32) >= 0x80 && alphabetic(c))
}

pub open spec fn is_digit(c: char) -> bool {
    '0' <= c <= '9'
}

/// Characters that may follow the first one of an identifier.
pub open spec fn is_ident_tail(c: char) -> bool {
    ('a' <= c <= 'z') || ('A' <= c <= 'Z') || ('0' <= c <= '9') || c == '_'
}

/// A class of characters that the scanner consumes in runs.
#[derive(Clone, Copy)]
pub enum CharClass {
    /// Anything but a double quote: the inside of a string.
    NotQuote,
    /// Anything but a newline: the rest of a comment.
    NotNewline,
    /// An ASCII digit.
    Digit,
    /// A letter, digit or underscore.
    IdentTail,
}

pub open spec fn in_class(class: CharClass, c: char) -> bool {
    match class {
        CharClass::NotQuote => c != '"',
        CharClass::NotNewline => c != '\n',
        CharClass::Digit => is_digit(c),
        CharClass::IdentTail => is_ident_tail(c),
    }
}

fn char_in_class(class: CharClass, c: char) -> (r: bool)
    ensures
        r == in_class(class, c),
{
    match class {
        CharClass::NotQuote => c != '"',
        CharClass::NotNewline => c != '\n',
        CharClass::Digit => '0' <= c && c <= '9',
        CharClass::IdentTail => ('a' <= c && c <= 'z') || ('A' <= c && c <= 'Z') || ('0' <= c
            && c <= '9') || c == '_',
    }
}

/// Index just past the run of `class` characters of `s` that starts at `i`.
pub open spec fn run_end(s: Seq<char>, i: int, class: CharClass) -> int
    decreases s.len() - i,
{
    if 0 <= i < s.len() && in_class(class, s[i]) {
        run_end(s, i + 1, class)
    } else {
        i
    }
}

pub proof fn lemma_run_end_bounds(s: Seq<char>, i: int, class: CharClass)
    requires
        0 <= i <= s.len(),
    ensures
        i <= run_end(s, i, class) <= s.len(),
        forall|k: int| i <= k < run_end(s, i, class) ==> in_class(class, s[k]),
        run_end(s, i, class) < s.len() ==> !in_class(class, s[run_end(s, i, class)]),
    decreases s.len() - i,
{
    if i < s.len() && in_class(class, s[i]) {
        lemma_run_end_bounds(s, i + 1, class);
    }
}

/// What the scanner makes of the characters at one place in the text.
pub enum Lexed {
    /// Whitespace or a comment.
    Skip,
    /// A token.
    Token(TokenView),
    /// A diagnostic with this message.
    Error(Seq<char>),
}

/// The token written by an identifier-like word: a keyword or an identifier.
pub open spec fn word_token(word: Seq<char>) -> TokenView {
    match keyword_of(word) {
        Some(t) => t,
        None => TokenView::Identifier(word),
    }
}

/// `matched` when the character at `j` is `next`, else `unmatched`.
pub open spec fn lex_either(s: Seq<char>, j: int, next: char, matched: TokenView, unmatched: TokenView) -> (Lexed, int) {
    if j < s.len() && s[j] == next {
        (Lexed::Token(matched), j + 1)
    } else {
        (Lexed::Token(unmatched), j)
    }
}

/// End of the number literal whose first digit is at `i`: its digits, then a
/// point and more digits only when a digit follows the point.
pub open spec fn number_end(s: Seq<char>, i: int) -> int {
    let k = run_end(s, i + 1, CharClass::Digit);
    if k + 1 < s.len() && s[k] == '.' && is_digit(s[k + 1]) {
        run_end(s, k + 1, CharClass::Digit)
    } else {
        k
    }
}

/// What the scanner reads from the character at `i`, and the index after it.
pub open spec fn lex_one(s: Seq<char>, i: int) -> (Lexed, int)
    recommends
        0 <= i < s.len(),
{
    let c = s[i];
    let j = i + 1;
    if is_whitespace(c) {
        (Lexed::Skip, j)
    } else if c == '"' {
        let k = run_end(s, j, CharClass::NotQuote);
        if k >= s.len() {
            (Lexed::Error("Unterminated String"@), k)
        } else {
            (Lexed::Token(TokenView::String(s.subrange(j, k))), k + 1)
        }
    } else if c == '/' {
        if j < s.len() && s[j] == '/' {
            (Lexed::Skip, run_end(s, j + 1, CharClass::NotNewline))
        } else {
            (Lexed::Token(TokenView::Slash), j)
        }
    } else if c == '!' {
        lex_either(s, j, '=', TokenView::BangEqual, TokenView::Bang)
    } else if c == '=' {
        lex_either(s, j, '=', TokenView::EqualEqual, TokenView::Equal)
    } else if c == '<' {
        lex_either(s, j, '=', TokenView::LessEqual, TokenView::Less)
    } else if c == '>' {
        lex_either(s, j, '=', TokenView::GreaterEqual, TokenView::Greater)
    } else if is_digit(c) {
        let k = number_end(s, i);
        (Lexed::Token(TokenView::Number(s.subrange(i, k))), k)
    } else if is_ident_start(c) {
        let k = run_end(s, j, CharClass::IdentTail);
        (Lexed::Token(word_token(s.subrange(i, k))), k)
    } else {
        match single_char_of(c) {
            Some(t) => (Lexed::Token(t), j),
            None => (Lexed::Error("Unexpected character: "@.push(c)), j),
        }
    }
}

/// The span from character index `i` to character index `k` of `s`.
pub open spec fn char_span(s: Seq<char>, i: int, k: int) -> Span {
    Span { start: BytePos(byte_offset(s, i) as u32), end: BytePos(byte_offset(s, k) as u32) }
}

/// Tokens and diagnostics that scanning `s` from index `i` to its end yields,
/// in order, not counting the final end-of-input token.
pub open spec fn lex_from(s: Seq<char>, i: int) -> (Seq<WithSpan<TokenView>>, Seq<DiagnosticView>)
    decreases s.len() - i,
{
    if i < 0 || i >= s.len() {
        (seq![], seq![])
    } else {
        let (item, k) = lex_one(s, i);
        if k <= i || k > s.len() {
            (seq![], seq![])
        } else {
            let rest = lex_from(s, k);
            let span = char_span(s, i, k);
            match item {
                Lexed::Skip => rest,
                Lexed::Token(t) => (seq![WithSpan { value: t, span }] + rest.0, rest.1),
                Lexed::Error(m) => (rest.0, seq![DiagnosticView { message: m, span }] + rest.1),
            }
        }
    }
}

/// Scanning always moves forward and stays within the text.
pub proof fn lemma_lex_one_advances(s: Seq<char>, i: int)
    requires
        0 <= i < s.len(),
    ensures
        i < lex_one(s, i).1 <= s.len(),
{
    let j = i + 1;
    lemma_run_end_bounds(s, j, CharClass::NotQuote);
    lemma_run_end_bounds(s, j, CharClass::IdentTail);
    lemma_run_end_bounds(s, j, CharClass::Digit);
    let k = run_end(s, j, CharClass::Digit);
    if k + 1 < s.len() {
        lemma_run_end_bounds(s, k + 1, CharClass::Digit);
    }
    if j < s.len() {
        lemma_run_end_bounds(s, j + 1, CharClass::NotNewline);
    }
}

pub open spec fn token_views(v: Seq<WithSpan<Token>>) -> Seq<WithSpan<TokenView>> {
    v.map_values(|t: WithSpan<Token>| t@)
}

pub open spec fn diagnostic_views(v: Seq<Diagnostic>) -> Seq<DiagnosticView> {
    v.map_values(|d: Diagnostic| d@)
}

/// Turns source text into tokens, collecting a diagnostic for each part of
/// the text that is no token.
pub struct Scanner {
    chars: Vec<char>,
    current: usize,
    pos: BytePos,
    errors: Vec<Diagnostic>,
}

impl Scanner {
    /// The source text, as characters.
    pub closed spec fn source(&self) -> Seq<char> {
        self.chars@
    }

    /// Index of the next character to scan.
    pub closed spec fn cursor(&self) -> int {
        self.current as int
    }

    /// Diagnostics collected so far.
    pub closed spec fn errors(&self) -> Seq<DiagnosticView> {
        diagnostic_views(self.errors@)
    }

    pub closed spec fn wf(&self) -> bool {
        &&& self.current <= self.chars@.len()
        &&& self.pos.0 == byte_offset(self.chars@, self.current as int)
        &&& byte_offset(self.chars@, self.chars@.len() as int) <= u32::MAX
    }

    pub fn new(data: &str) -> (r: Scanner)
        requires
            encode_utf8(data@).len() <= u32::MAX,
        ensures
            r.wf(),
            r.source() == data@,
            r.cursor() == 0,
            r.errors() == Seq::<DiagnosticView>::empty(),
    {
        let mut chars: Vec<char> = Vec::new();
        for c in it: data.chars()
            invariant
                it.seq() == data@,
                chars@ == it.seq().subrange(0, it.index() as int),
        {
            chars.push(c);
        }
        let r = Scanner { chars, current: 0, pos: BytePos(0), errors: Vec::new() };
        proof {
            assert(r.chars@ =~= data@);
            assert(r.chars@.subrange(0, r.chars@.len() as int) =~= data@);
            assert(r.chars@.subrange(0, 0) =~= Seq::<char>::empty());
            assert(diagnostic_views(r.errors@) =~= Seq::<DiagnosticView>::empty());
        }
        r
    }

    /// `after` is `before` moved on to index `k`, with nothing else changed.
    pub closed spec fn moved_to(before: &Scanner, after: &Scanner, k: int) -> bool {
        &&& after.wf()
        &&& after.chars@ == before.chars@
        &&& after.errors@ == before.errors@
        &&& after.current == k
    }

    fn peek(&self) -> (r: Option<char>)
        requires
            self.wf(),
        ensures
            r == (if self.cursor() < self.source().len() {
                Some(self.source()[self.cursor()])
            } else {
                None::<char>
            }),
    {
        if self.current < self.chars.len() {
            Some(self.chars[self.current])
        } else {
            None
        }
    }

    fn next(&mut self) -> (r: Option<char>)
        requires
            old(self).wf(),
        ensures
            old(self).cursor() < old(self).source().len() ==> r == Some(
                old(self).source()[old(self).cursor()],
            ) && Scanner::moved_to(old(self), final(self), old(self).cursor() + 1),
            old(self).cursor() >= old(self).source().len() ==> r is None && Scanner::moved_to(
                old(self),
                final(self),
                old(self).cursor(),
            ),
    {
        if self.current < self.chars.len() {
            let c = self.chars[self.current];
            proof {
                lemma_byte_offset_step(self.chars@, self.current as int);
            }
            self.pos = self.pos.shift(c);
            self.current = self.current + 1;
            Some(c)
        } else {
            None
        }
    }

    /// Consumes the next character if it is `expected`.
    fn consume_if(&mut self, expected: char) -> (r: bool)
        requires
            old(self).wf(),
        ensures
            r == (old(self).cursor() < old(self).source().len() && old(self).source()[old(
                self,
            ).cursor()] == expected),
            Scanner::moved_to(old(self), final(self), old(self).cursor() + if r { 1int } else { 0int }),
    {
        match self.peek() {
            Some(c) => {
                if c == expected {
                    self.next();
                    true
                } else {
                    false
                }
            },
            None => false,
        }
    }

    /// Consumes the next character if the one after it is of `class`.
    fn consume_if_next(&mut self, class: CharClass) -> (r: bool)
        requires
            old(self).wf(),
        ensures
            r == (old(self).cursor() + 1 < old(self).source().len() && in_class(
                class,
                old(self).source()[old(self).cursor() + 1],
            )),
            Scanner::moved_to(old(self), final(self), old(self).cursor() + if r { 1int } else { 0int }),
    {
        if self.chars.len() - self.current > 1 && char_in_class(class, self.chars[self.current + 1]) {
            self.next();
            true
        } else {
            false
        }
    }

    /// Consumes the run of `class` characters ahead and returns it.
    fn consume_while(&mut self, class: CharClass) -> (r: String)
        requires
            old(self).wf(),
        ensures
            Scanner::moved_to(old(self), final(self), run_end(old(self).source(), old(self).cursor(), class)),
            r@ == old(self).source().subrange(
                old(self).cursor(),
                run_end(old(self).source(), old(self).cursor(), class),
            ),
    {
        let ghost start = self.current as int;
        let ghost end = run_end(self.chars@, start, class);
        proof {
            lemma_run_end_bounds(self.chars@, start, class);
        }
        let mut out = String::new();
        while self.current < self.chars.len() && char_in_class(class, self.chars[self.current])
            invariant
                self.wf(),
                self.chars@ == old(self).chars@,
                self.errors@ == old(self).errors@,
                0 <= start <= self.current <= end,
                run_end(self.chars@, self.current as int, class) == end,
                out@ == self.chars@.subrange(start, self.current as int),
            decreases self.chars@.len() - self.current,
        {
            let c = self.chars[self.current];
            proof {
                lemma_run_end_bounds(self.chars@, self.current as int + 1, class);
            }
            self.next();
            push_char(&mut out, c);
            assert(out@ =~= self.chars@.subrange(start, self.current as int));
        }
        out
    }

    /// `matched` if the next character is `to_match`, which is then consumed;
    /// otherwise `unmatched`.
    fn either(&mut self, to_match: char, matched: Token, unmatched: Token) -> (r: Token)
        requires
            old(self).wf(),
        ensures
            lex_either(old(self).source(), old(self).cursor(), to_match, matched@, unmatched@) == (
            Lexed::Token(r@), final(self).cursor()),
            Scanner::moved_to(old(self), final(self), final(self).cursor()),
    {
        if self.consume_if(to_match) {
            matched
        } else {
            unmatched
        }
    }

    /// Scans the rest of an identifier or keyword whose first character, `ch`,
    /// was just consumed.
    fn identifier(&mut self, ch: char) -> (r: Option<Token>)
        requires
            old(self).wf(),
            1 <= old(self).cursor() <= old(self).source().len(),
            old(self).source()[old(self).cursor() - 1] == ch,
        ensures
            ({
                let k = run_end(old(self).source(), old(self).cursor(), CharClass::IdentTail);
                &&& Scanner::moved_to(old(self), final(self), k)
                &&& r matches Some(t) && t@ == word_token(
                    old(self).source().subrange(old(self).cursor() - 1, k),
                )
            }),
    {
        let ghost s = self.chars@;
        let ghost i = self.current - 1;
        let mut ident = String::new();
        push_char(&mut ident, ch);
        let rest = self.consume_while(CharClass::IdentTail);
        let ident = ident.concat(rest.as_str());
        proof {
            lemma_run_end_bounds(s, i + 1, CharClass::IdentTail);
            assert(ident@ =~= s.subrange(i, self.current as int));
        }
        match keyword(&ident) {
            Some(kw) => Some(kw),
            None => Some(Token::Identifier(ident)),
        }
    }

    /// Scans the rest of a number whose first digit, `ch`, was just consumed.
    fn number(&mut self, ch: char) -> (r: Option<Token>)
        requires
            old(self).wf(),
            1 <= old(self).cursor() <= old(self).source().len(),
            old(self).source()[old(self).cursor() - 1] == ch,
        ensures
            ({
                let k = number_end(old(self).source(), old(self).cursor() - 1);
                &&& Scanner::moved_to(old(self), final(self), k)
                &&& r matches Some(t) && t@ == TokenView::Number(
                    old(self).source().subrange(old(self).cursor() - 1, k),
                )
            }),
    {
        let ghost s = self.chars@;
        let ghost i = self.current - 1;
        let mut number = String::new();
        push_char(&mut number, ch);
        let pre_decimal = self.consume_while(CharClass::Digit);
        let mut number = number.concat(pre_decimal.as_str());
        proof {
            lemma_run_end_bounds(s, i + 1, CharClass::Digit);
            assert(number@ =~= s.subrange(i, self.current as int));
        }
        let at_dot = match self.peek() {
            Some(c) => c == '.',
            None => false,
        };
        if at_dot && self.consume_if_next(CharClass::Digit) {
            let ghost k = self.current as int;
            let post_decimal = self.consume_while(CharClass::Digit);
            push_char(&mut number, '.');
            number = number.concat(post_decimal.as_str());
            proof {
                lemma_run_end_bounds(s, k, CharClass::Digit);
                assert(number@ =~= s.subrange(i, self.current as int));
            }
        }
        Some(Token::Number(number))
    }

    /// Reads what starts with `ch`, the character just consumed, which began
    /// at `start_pos`.
    fn match_token(&mut self, ch: char, start_pos: BytePos) -> (r: Result<Option<Token>, Diagnostic>)
        requires
            old(self).wf(),
            1 <= old(self).cursor() <= old(self).source().len(),
            old(self).source()[old(self).cursor() - 1] == ch,
            start_pos.0 == byte_offset(old(self).source(), old(self).cursor() - 1),
        ensures
            ({
                let (item, k) = lex_one(old(self).source(), old(self).cursor() - 1);
                &&& Scanner::moved_to(old(self), final(self), k)
                &&& match r {
                    Ok(None) => item is Skip,
                    Ok(Some(t)) => item == Lexed::Token(t@),
                    Err(d) => item matches Lexed::Error(m) && d@ == (DiagnosticView {
                        message: m,
                        span: char_span(old(self).source(), old(self).cursor() - 1, k),
                    }),
                }
            }),
    {
        let ghost s = self.chars@;
        let ghost i = self.current - 1;
        proof {
            lemma_lex_one_advances(s, i);
            lemma_byte_offset_monotone(s, i, s.len() as int);
        }
        if ch == ' ' || ch == '\n' || ch == '\r' || ch == '\t' {
            Ok(None)
        } else if ch == '"' {
            let contents = self.consume_while(CharClass::NotQuote);
            match self.next() {
                None => {
                    proof {
                        lemma_byte_offset_monotone(s, self.current as int, s.len() as int);
                    }
                    Err(Diagnostic::new("Unterminated String", start_pos, self.pos))
                },
                Some(_) => Ok(Some(Token::String(contents))),
            }
        } else if ch == '/' {
            if self.consume_if('/') {
                self.consume_while(CharClass::NotNewline);
                Ok(None)
            } else {
                Ok(Some(Token::Slash))
            }
        } else if ch == '!' {
            Ok(Some(self.either('=', Token::BangEqual, Token::Bang)))
        } else if ch == '=' {
            Ok(Some(self.either('=', Token::EqualEqual, Token::Equal)))
        } else if ch == '<' {
            Ok(Some(self.either('=', Token::LessEqual, Token::Less)))
        } else if ch == '>' {
            Ok(Some(self.either('=', Token::GreaterEqual, Token::Greater)))
        } else if '0' <= ch && ch <= '9' {
            Ok(self.number(ch))
        } else if ('a' <= ch && ch <= 'z') || ('A' <= ch && ch <= 'Z') || ch == '_' || ((ch as u32)
            >= 0x80 && is_alphabetic(ch)) {
            Ok(self.identifier(ch))
        } else {
            match single_char_token(ch) {
                Some(tok) => Ok(Some(tok)),
                None => {
                    let mut message = String::from_str("Unexpected character: ");
                    push_char(&mut message, ch);
                    Err(Diagnostic { message, span: Span { start: start_pos, end: self.pos } })
                },
            }
        }
    }

    fn error(&mut self, e: Diagnostic)
        ensures
            final(self).chars@ == old(self).chars@,
            final(self).current == old(self).current,
            final(self).pos == old(self).pos,
            final(self).errors@ == old(self).errors@.push(e),
    {
        self.errors.push(e);
    }

    /// Scans the rest of the text. The tokens end with one `Eof` whose span is
    /// empty and sits at the end of the text; a diagnostic is added for each
    /// part of the text that is no token.
    pub fn scan(&mut self) -> (r: Vec<WithSpan<Token>>)
        requires
            old(self).wf(),
        ensures
            final(self).wf(),
            final(self).source() == old(self).source(),
            final(self).cursor() == old(self).source().len(),
            token_views(r@) == lex_from(old(self).source(), old(self).cursor()).0.push(
                end_of_input(old(self).source()),
            ),
            final(self).errors() == old(self).errors() + lex_from(
                old(self).source(),
                old(self).cursor(),
            ).1,
    {
        let ghost s = self.chars@;
        let ghost start = self.current as int;
        let ghost errs0 = self.errors();
        let mut tokens: Vec<WithSpan<Token>> = Vec::new();
        proof {
            assert(token_views(tokens@) =~= Seq::<WithSpan<TokenView>>::empty());
            assert(lex_from(s, start).0 =~= token_views(tokens@) + lex_from(s, start).0);
            assert(errs0 + lex_from(s, start).1 =~= self.errors() + lex_from(s, start).1);
        }
        loop
            invariant
                self.wf(),
                self.chars@ == s,
                start <= self.current <= s.len(),
                lex_from(s, start).0 == token_views(tokens@) + lex_from(s, self.current as int).0,
                errs0 + lex_from(s, start).1 == self.errors() + lex_from(s, self.current as int).1,
            ensures
                self.wf(),
                self.chars@ == s,
                self.current == s.len(),
                lex_from(s, start).0 == token_views(tokens@) + lex_from(s, self.current as int).0,
                errs0 + lex_from(s, start).1 == self.errors() + lex_from(s, self.current as int).1,
            decreases s.len() - self.current,
        {
            let ghost i = self.current as int;
            let ghost old_tokens = token_views(tokens@);
            let ghost old_errs = self.errors();
            let start_pos = self.pos;
            let ch = match self.next() {
                None => break,
                Some(c) => c,
            };
            proof {
                lemma_lex_one_advances(s, i);
            }
            let ghost k = lex_one(s, i).1;
            let ghost rest = lex_from(s, k);
            match self.match_token(ch, start_pos) {
                Ok(maybe_token) => {
                    if let Some(token) = maybe_token {
                        proof {
                            lemma_byte_offset_monotone(s, i, s.len() as int);
                            lemma_byte_offset_monotone(s, k, s.len() as int);
                        }
                        tokens.push(WithSpan::new(token, Span { start: start_pos, end: self.pos }));
                        proof {
                            assert(token_views(tokens@) =~= old_tokens.push(tokens@.last()@));
                            assert(lex_from(s, i).0 =~= seq![tokens@.last()@] + rest.0);
                            assert(old_tokens + lex_from(s, i).0 =~= token_views(tokens@) + rest.0);
                        }
                    }
                },
                Err(diag) => {
                    self.error(diag);
                    proof {
                        assert(self.errors() =~= old_errs.push(self.errors@.last()@));
                        assert(lex_from(s, i).1 =~= seq![self.errors@.last()@] + rest.1);
                        assert(old_errs + lex_from(s, i).1 =~= self.errors() + rest.1);
                    }
                },
            }
        }
        proof {
            assert(lex_from(s, self.current as int).0 =~= Seq::<WithSpan<TokenView>>::empty());
            assert(lex_from(s, self.current as int).1 =~= Seq::<DiagnosticView>::empty());
            assert(token_views(tokens@) =~= lex_from(s, start).0);
            assert(self.errors() =~= errs0 + lex_from(s, start).1);
        }
        let end = self.pos;
        tokens.push(WithSpan::new(Token::Eof, Span { start: end, end }));
        proof {
            assert(token_views(tokens@) =~= lex_from(s, start).0.push(end_of_input(s)));
        }
        tokens
    }

    /// Whether any diagnostic has been collected.
    pub fn has_errors(&self) -> (r: bool)
        ensures
            r == (self.errors().len() > 0),
    {
        self.errors.len() > 0
    }

    /// The diagnostics collected so far, in the order they were found.
    pub fn diagnostics(&self) -> (r: &[Diagnostic])
        ensures
            diagnostic_views(r@) == self.errors(),
    {
        self.errors.as_slice()
    }
}

/// The `Eof` token that ends every scan: empty, at the end of the text.
pub open spec fn end_of_input(s: Seq<char>) -> WithSpan<TokenView> {
    let end = BytePos(byte_offset(s, s.len() as int) as u32);
    WithSpan { value: TokenView::Eof, span: Span { start: end, end } }
}


/// Whether `s` from index `i` on holds nothing but whitespace and line
/// comments: each character there is whitespace or starts a `//` comment,
/// which runs up to the next newline or the end of the text.
pub open spec fn is_blank(s: Seq<char>, i: int) -> bool
    decreases s.len() - i,
{
    if i < 0 || i >= s.len() {
        true
    } else if is_whitespace(s[i]) {
        is_blank(s, i + 1)
    } else if s[i] == '/' && i + 1 < s.len() && s[i + 1] == '/' {
        let k = run_end(s, i + 2, CharClass::NotNewline);
        i < k <= s.len() && is_blank(s, k)
    } else {
        false
    }
}

proof fn lemma_blank_lexes_to_nothing(s: Seq<char>, i: int)
    requires
        0 <= i,
        is_blank(s, i),
    ensures
        lex_from(s, i).0 == Seq::<WithSpan<TokenView>>::empty(),
        lex_from(s, i).1 == Seq::<DiagnosticView>::empty(),
    decreases s.len() - i,
{
    if i < s.len() {
        lemma_lex_one_advances(s, i);
        if is_whitespace(s[i]) {
            lemma_blank_lexes_to_nothing(s, i + 1);
        } else {
            let k = run_end(s, i + 2, CharClass::NotNewline);
            lemma_run_end_bounds(s, i + 2, CharClass::NotNewline);
            lemma_blank_lexes_to_nothing(s, k);
        }
    }
}

/// Scanning a text of nothing but whitespace and comments yields the
/// end-of-input token alone and no diagnostic.
pub proof fn law_blank_text_scans_to_eof(s: Seq<char>)
    requires
        is_blank(s, 0),
    ensures
        lex_from(s, 0).0.push(end_of_input(s)) == seq![end_of_input(s)],
        lex_from(s, 0).1 == Seq::<DiagnosticView>::empty(),
{
    lemma_blank_lexes_to_nothing(s, 0);
    assert(lex_from(s, 0).0.push(end_of_input(s)) =~= seq![end_of_input(s)]);
}


/// A character takes at least one byte.
proof fn lemma_utf8_width_positive(c: char)
    ensures
        utf8_width(c) >= 1,
{
}

/// The tokens that scanning `s` yields, the final `Eof` included.
pub open spec fn scanned(s: Seq<char>) -> Seq<WithSpan<TokenView>> {
    lex_from(s, 0).0.push(end_of_input(s))
}

/// The spans that scanning from `i` yields lie between the byte offset of
/// `i` and the end of the text, each one running forward and not empty, and
/// each starting no earlier than the one before it ends.
proof fn lemma_lex_spans(s: Seq<char>, i: int)
    requires
        0 <= i <= s.len(),
        byte_offset(s, s.len() as int) <= u32::MAX,
    ensures
        forall|a: int|
            0 <= a < lex_from(s, i).0.len() ==> byte_offset(s, i) <= (#[trigger] lex_from(
                s,
                i,
            ).0[a]).span.start.0 < lex_from(s, i).0[a].span.end.0 <= byte_offset(s, s.len() as int),
        forall|a: int, b: int|
            0 <= a < b < lex_from(s, i).0.len() ==> (#[trigger] lex_from(s, i).0[a]).span.end.0
                <= (#[trigger] lex_from(s, i).0[b]).span.start.0,
    decreases s.len() - i,
{
    if i < s.len() {
        lemma_lex_one_advances(s, i);
        let k = lex_one(s, i).1;
        lemma_lex_spans(s, k);
        lemma_byte_offset_step(s, i);
        lemma_utf8_width_positive(s[i]);
        lemma_byte_offset_monotone(s, i + 1, k);
        lemma_byte_offset_monotone(s, k, s.len() as int);
        lemma_byte_offset_monotone(s, i, s.len() as int);
        let toks = lex_from(s, i).0;
        let rest = lex_from(s, k).0;
        if lex_one(s, i).0 is Token {
            assert forall|a: int| 0 < a < toks.len() implies toks[a] == rest[a - 1] by {}
        } else {
            assert(toks == rest);
        }
    }
}

/// The tokens of a scan, the final `Eof` included, have ordered spans that
/// do not overlap: each runs forward, every one before `Eof` is non-empty,
/// each starts no earlier than the one before it ends, and so the starts
/// strictly increase.
pub proof fn law_token_spans_ordered(s: Seq<char>)
    requires
        encode_utf8(s).len() <= u32::MAX,
    ensures
        forall|a: int|
            0 <= a < scanned(s).len() ==> (#[trigger] scanned(s)[a]).span.start.0 <= scanned(
                s,
            )[a].span.end.0,
        forall|a: int|
            0 <= a < scanned(s).len() - 1 ==> (#[trigger] scanned(s)[a]).span.start.0 < scanned(
                s,
            )[a].span.end.0,
        forall|a: int, b: int|
            0 <= a < b < scanned(s).len() ==> (#[trigger] scanned(s)[a]).span.end.0 <= (
            #[trigger] scanned(s)[b]).span.start.0,
        forall|a: int, b: int|
            0 <= a < b < scanned(s).len() ==> (#[trigger] scanned(s)[a]).span.start.0 < (
            #[trigger] scanned(s)[b]).span.start.0,
{
    assert(s.subrange(0, s.len() as int) =~= s);
    lemma_lex_spans(s, 0);
    let toks = lex_from(s, 0).0;
    let all = scanned(s);
    assert forall|a: int| 0 <= a < toks.len() implies all[a] == toks[a] by {}
}

} // verus!
