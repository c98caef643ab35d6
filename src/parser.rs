//! Cursor over a token sequence, with the diagnostics of a parse.
use crate::lexer::{diagnostic_views, token_views, Token, TokenView};
use crate::position::{Diagnostic, DiagnosticView, Span, WithSpan};
use vstd::prelude::*;

verus! {

/// Reads a token sequence front to back and collects syntax diagnostics.
pub struct Parser<'a> {
    tokens: &'a [WithSpan<Token>],
    current: usize,
    diagnostics: Vec<Diagnostic>,
}

impl<'a> Parser<'a> {
    /// The tokens being read.
    pub closed spec fn toks(&self) -> Seq<WithSpan<TokenView>> {
        token_views(self.tokens@)
    }

    /// Index of the next token to read.
    pub closed spec fn cursor(&self) -> int {
        self.current as int
    }

    /// Diagnostics collected so far.
    pub closed spec fn errors(&self) -> Seq<DiagnosticView> {
        diagnostic_views(self.diagnostics@)
    }

    /// The tokens end with `Eof` and the cursor stands on one of them.
    pub open spec fn ready(&self) -> bool {
        &&& self.toks().len() > 0
        &&& self.toks().last().value is Eof
        &&& 0 <= self.cursor() < self.toks().len()
    }

    pub fn new(tokens: &'a [WithSpan<Token>]) -> (r: Parser<'a>)
        ensures
            r.toks() == token_views(tokens@),
            r.cursor() == 0,
            r.errors() == Seq::<DiagnosticView>::empty(),
    {
        let r = Parser { tokens, current: 0, diagnostics: Vec::new() };
        assert(diagnostic_views(r.diagnostics@) =~= Seq::<DiagnosticView>::empty());
        r
    }

    /// The diagnostics collected so far, in order.
    pub fn diagnostics(&self) -> (r: &[Diagnostic])
        ensures
            diagnostic_views(r@) == self.errors(),
    {
        self.diagnostics.as_slice()
    }

    /// Records a diagnostic.
    pub fn error(&mut self, message: &str, span: Span)
        ensures
            final(self).toks() == old(self).toks(),
            final(self).cursor() == old(self).cursor(),
            final(self).errors() == old(self).errors().push(
                DiagnosticView { message: message@, span },
            ),
    {
        self.diagnostics.push(Diagnostic { message: message.to_owned(), span });
        assert(self.errors() =~= old(self).errors().push(DiagnosticView { message: message@, span }));
    }

    /// Whether every token has been read.
    pub fn is_at_end(&self) -> (r: bool)
        ensures
            r == (self.cursor() >= self.toks().len()),
    {
        self.current >= self.tokens.len()
    }

    /// The next token, if there is one.
    pub fn peek(&self) -> (r: Option<Token>)
        ensures
            match r {
                Some(t) => self.cursor() < self.toks().len() && t@ == self.toks()[self.cursor()].value,
                None => self.cursor() >= self.toks().len(),
            },
    {
        if self.current < self.tokens.len() {
            Some(self.tokens[self.current].value.clone())
        } else {
            None
        }
    }

    /// The next token with its span, if there is one.
    pub fn peek_with_span(&self) -> (r: Option<&'a WithSpan<Token>>)
        ensures
            match r {
                Some(t) => self.cursor() < self.toks().len() && t@ == self.toks()[self.cursor()],
                None => self.cursor() >= self.toks().len(),
            },
    {
        if self.current < self.tokens.len() {
            Some(&self.tokens[self.current])
        } else {
            None
        }
    }

    /// Span of the next token; the empty span when every token has been read.
    pub fn current_span(&self) -> (r: Span)
        ensures
            r == (if self.cursor() < self.toks().len() {
                self.toks()[self.cursor()].span
            } else {
                Span::spec_empty()
            }),
    {
        if self.current < self.tokens.len() {
            self.tokens[self.current].span
        } else {
            Span::empty()
        }
    }

    /// Reads the next token.
    pub fn advance(&mut self) -> (r: WithSpan<Token>)
        requires
            old(self).cursor() < old(self).toks().len(),
        ensures
            r@ == old(self).toks()[old(self).cursor()],
            final(self).toks() == old(self).toks(),
            final(self).cursor() == old(self).cursor() + 1,
            final(self).errors() == old(self).errors(),
    {
        let t = &self.tokens[self.current];
        let token = WithSpan { value: t.value.clone(), span: t.span };
        if !self.is_at_end() {
            self.current = self.current + 1;
        }
        token
    }

    /// Whether the next token is `expected`.
    pub fn matches(&self, expected: Token) -> (r: bool)
        requires
            self.cursor() < self.toks().len(),
        ensures
            r == (expected@ == self.toks()[self.cursor()].value),
    {
        expected == self.tokens[self.current].value
    }
}

} // verus!
