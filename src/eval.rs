//! Tree-walking evaluation of expressions.
//!
//! Numbers are IEEE-754 binary64 values, held here as their bit patterns.
//! The evaluator decides everything about types, errors and strings; each
//! piece of floating-point work (reading a literal, negating, an arithmetic
//! operation or a numeric comparison) it hands out as a [`Request`], and the
//! caller answers it. Evaluation is replayed with the answers given so far,
//! each taken as the value of the step that asked for it, until it is done.
use crate::expr::{Expr, ExprView};
use crate::lexer::{describe_of, diagnostic_views, Token, TokenView};
use crate::position::{span_union, Diagnostic, DiagnosticView, Span, WithSpan};
use vstd::prelude::*;

verus! {

/// A runtime value. A number is the bit pattern of an IEEE-754 binary64.
#[derive(Debug)]
pub enum Value {
    Nil,
    Boolean(bool),
    Number(u64),
    String(String),
}

/// A value as the contracts see it.
pub enum ValueView {
    Nil,
    Boolean(bool),
    Number(u64),
    String(Seq<char>),
}

impl View for Value {
    type V = ValueView;

    open spec fn view(&self) -> ValueView {
        match self {
            Value::Nil => ValueView::Nil,
            Value::Boolean(b) => ValueView::Boolean(*b),
            Value::Number(n) => ValueView::Number(*n),
            Value::String(s) => ValueView::String(s@),
        }
    }
}

impl Clone for Value {
    fn clone(&self) -> (r: Value)
        ensures
            r == *self,
    {
        match self {
            Value::Nil => Value::Nil,
            Value::Boolean(b) => Value::Boolean(*b),
            Value::Number(n) => Value::Number(*n),
            Value::String(s) => Value::String(s.clone()),
        }
    }
}

impl PartialEq for Value {
    fn eq(&self, other: &Value) -> (r: bool)
        ensures
            r == (self@ == other@),
    {
        match (self, other) {
            (Value::Nil, Value::Nil) => true,
            (Value::Boolean(a), Value::Boolean(b)) => *a == *b,
            (Value::Number(a), Value::Number(b)) => *a == *b,
            (Value::String(a), Value::String(b)) => *a == *b,
            _ => false,
        }
    }
}

impl vstd::std_specs::cmp::PartialEqSpecImpl for Value {
    open spec fn obeys_eq_spec() -> bool {
        true
    }

    open spec fn eq_spec(&self, other: &Value) -> bool {
        self@ == other@
    }
}

/// A binary operation on two numbers.
#[derive(Debug, Clone, Copy, PartialEq, Eq, Structural)]
pub enum NumericOp {
    Add,
    Subtract,
    Multiply,
    Divide,
    Less,
    LessEqual,
    Greater,
    GreaterEqual,
    Equal,
    NotEqual,
}

/// Floating-point work that evaluation needs done. Its answer is the value
/// of the step that asked: a number for arithmetic, a boolean for a
/// comparison.
#[derive(Debug)]
pub enum Request {
    /// The number that these decimal digits denote.
    Parse(String),
    /// The number negated.
    Negate(u64),
    /// The operation applied to the two numbers, left one first.
    Arithmetic(NumericOp, u64, u64),
}

pub enum RequestView {
    Parse(Seq<char>),
    Negate(u64),
    Arithmetic(NumericOp, u64, u64),
}

impl View for Request {
    type V = RequestView;

    open spec fn view(&self) -> RequestView {
        match self {
            Request::Parse(s) => RequestView::Parse(s@),
            Request::Negate(n) => RequestView::Negate(*n),
            Request::Arithmetic(op, a, b) => RequestView::Arithmetic(*op, *a, *b),
        }
    }
}

/// Where an evaluation stands: finished with a value or a diagnostic, or
/// waiting for the answer to a request.
#[derive(Debug)]
pub enum Progress {
    Done(Result<Value, Diagnostic>),
    Needs(Request),
}

/// Where an evaluation stands, as the contracts see it.
pub enum Step {
    Value(ValueView),
    Fail(DiagnosticView),
    Needs(RequestView),
}

pub open spec fn progress_is(p: Progress, s: Step) -> bool {
    match s {
        Step::Value(v) => p matches Progress::Done(Ok(x)) && x@ == v,
        Step::Fail(d) => p matches Progress::Done(Err(x)) && x@ == d,
        Step::Needs(q) => p matches Progress::Needs(x) && x@ == q,
    }
}

pub open spec fn value_views(v: Seq<Value>) -> Seq<ValueView> {
    v.map_values(|x: Value| x@)
}

/// Whether the bits are those of positive or negative zero.
pub open spec fn is_zero_bits(n: u64) -> bool {
    n == 0 || n == 0x8000_0000_0000_0000
}

/// `nil` and `false` are false; every other value is true.
pub open spec fn truthy(v: ValueView) -> bool {
    match v {
        ValueView::Nil => false,
        ValueView::Boolean(b) => b,
        _ => true,
    }
}

/// Equality of two values that are not both numbers: equal variants with
/// equal payloads.
pub open spec fn equal_values(l: ValueView, r: ValueView) -> bool {
    match (l, r) {
        (ValueView::Nil, ValueView::Nil) => true,
        (ValueView::Boolean(a), ValueView::Boolean(b)) => a == b,
        (ValueView::String(a), ValueView::String(b)) => a == b,
        _ => false,
    }
}

/// The `k`th answer, if it was given, as the value of a step; otherwise the
/// request for it.
pub open spec fn answer(results: Seq<ValueView>, k: int, q: RequestView) -> (Step, int) {
    if 0 <= k < results.len() {
        (Step::Value(results[k]), k + 1)
    } else {
        (Step::Needs(q), k)
    }
}

pub open spec fn fail(message: Seq<char>, span: Span) -> Step {
    Step::Fail(DiagnosticView { message, span })
}

/// The value of a literal token.
pub open spec fn literal_step(t: TokenView, results: Seq<ValueView>, k: int) -> (Step, int) {
    match t {
        TokenView::Number(n) => answer(results, k, RequestView::Parse(n)),
        TokenView::String(s) => (Step::Value(ValueView::String(s)), k),
        TokenView::True => (Step::Value(ValueView::Boolean(true)), k),
        TokenView::False => (Step::Value(ValueView::Boolean(false)), k),
        _ => (Step::Value(ValueView::Nil), k),
    }
}

/// A prefix operator applied to the value of its operand.
pub open spec fn unary_step(
    op: WithSpan<TokenView>,
    v: ValueView,
    results: Seq<ValueView>,
    k: int,
) -> (Step, int) {
    match op.value {
        TokenView::Minus => match v {
            ValueView::Number(n) => answer(results, k, RequestView::Negate(n)),
            _ => (fail("Operand "@ + describe_of(op.value) + " must be a number."@, op.span), k),
        },
        TokenView::Bang => (Step::Value(ValueView::Boolean(!truthy(v))), k),
        _ => (
            fail("Unrecognized unary operator \""@ + describe_of(op.value) + "\"."@, op.span),
            k,
        ),
    }
}

/// A numeric operation on two values that must both be numbers.
pub open spec fn numeric_step(
    op: NumericOp,
    l: ValueView,
    r: ValueView,
    span: Span,
    results: Seq<ValueView>,
    k: int,
) -> (Step, int) {
    match (l, r) {
        (ValueView::Number(a), ValueView::Number(b)) => answer(
            results,
            k,
            RequestView::Arithmetic(op, a, b),
        ),
        _ => (fail("Operands must be numbers."@, span), k),
    }
}

/// A binary operator applied to the values of its operands; `span` covers
/// both operands.
pub open spec fn binary_step(
    op: TokenView,
    l: ValueView,
    r: ValueView,
    span: Span,
    results: Seq<ValueView>,
    k: int,
) -> (Step, int) {
    match op {
        TokenView::Plus => match (l, r) {
            (ValueView::Number(a), ValueView::Number(b)) => answer(
                results,
                k,
                RequestView::Arithmetic(NumericOp::Add, a, b),
            ),
            (ValueView::String(a), ValueView::String(b)) => (
                Step::Value(ValueView::String(a + b)),
                k,
            ),
            _ => (fail("Operands must be two numbers or two strings."@, span), k),
        },
        TokenView::Minus => numeric_step(NumericOp::Subtract, l, r, span, results, k),
        TokenView::Star => numeric_step(NumericOp::Multiply, l, r, span, results, k),
        TokenView::Slash => match (l, r) {
            (ValueView::Number(a), ValueView::Number(b)) => if is_zero_bits(b) {
                (fail("Divide by zero."@, span), k)
            } else {
                answer(results, k, RequestView::Arithmetic(NumericOp::Divide, a, b))
            },
            _ => (fail("Operands must be numbers."@, span), k),
        },
        TokenView::Less => numeric_step(NumericOp::Less, l, r, span, results, k),
        TokenView::LessEqual => numeric_step(NumericOp::LessEqual, l, r, span, results, k),
        TokenView::Greater => numeric_step(NumericOp::Greater, l, r, span, results, k),
        TokenView::GreaterEqual => numeric_step(NumericOp::GreaterEqual, l, r, span, results, k),
        TokenView::EqualEqual => match (l, r) {
            (ValueView::Number(a), ValueView::Number(b)) => answer(
                results,
                k,
                RequestView::Arithmetic(NumericOp::Equal, a, b),
            ),
            _ => (Step::Value(ValueView::Boolean(equal_values(l, r))), k),
        },
        TokenView::BangEqual => match (l, r) {
            (ValueView::Number(a), ValueView::Number(b)) => answer(
                results,
                k,
                RequestView::Arithmetic(NumericOp::NotEqual, a, b),
            ),
            _ => (Step::Value(ValueView::Boolean(!equal_values(l, r))), k),
        },
        _ => (fail("Invalid operator \""@ + describe_of(op) + "\""@, span), k),
    }
}

/// Evaluation of `e` with `results` as the answers to its requests, the
/// first `k` of them already used: where it stands, and how many answers
/// are used then. Operands are evaluated left to right, both of them, and
/// the first diagnostic or unanswered request stops the walk.
pub open spec fn eval_spec(e: WithSpan<ExprView>, results: Seq<ValueView>, k: int) -> (Step, int)
    decreases e,
{
    match e.value {
        ExprView::Literal(t) => literal_step(t.value, results, k),
        ExprView::Grouping(inner) => eval_spec(*inner, results, k),
        ExprView::Unary { operator, right } => {
            let (r, k1) = eval_spec(*right, results, k);
            match r {
                Step::Value(v) => unary_step(operator, v, results, k1),
                _ => (r, k1),
            }
        },
        ExprView::Binary { operator, left, right } => {
            let (l, k1) = eval_spec(*left, results, k);
            match l {
                Step::Value(lv) => {
                    let (r, k2) = eval_spec(*right, results, k1);
                    match r {
                        Step::Value(rv) => binary_step(
                            operator.value,
                            lv,
                            rv,
                            span_union(left.span, right.span),
                            results,
                            k2,
                        ),
                        _ => (r, k2),
                    }
                },
                _ => (l, k1),
            }
        },
    }
}


/// Evaluates one expression tree.
pub struct Evaluator {
    ast: Box<WithSpan<Expr>>,
    diagnostics: Vec<Diagnostic>,
}

impl Evaluator {
    /// The tree being evaluated.
    pub closed spec fn tree(&self) -> WithSpan<ExprView> {
        (*self.ast)@
    }

    /// Diagnostics kept by the evaluator; evaluation returns its
    /// diagnostic instead of adding it here.
    pub closed spec fn errors(&self) -> Seq<DiagnosticView> {
        diagnostic_views(self.diagnostics@)
    }

    pub fn new(ast: Box<WithSpan<Expr>>) -> (r: Evaluator)
        ensures
            r.tree() == (*ast)@,
            r.errors() == Seq::<DiagnosticView>::empty(),
    {
        let r = Evaluator { ast, diagnostics: Vec::new() };
        assert(diagnostic_views(r.diagnostics@) =~= Seq::<DiagnosticView>::empty());
        r
    }

    /// Evaluates the tree, given the answers to its first `results.len()`
    /// requests in the order they were asked. The result is the value or
    /// the first diagnostic, or else the next request.
    pub fn evaluate(&self, results: &[Value]) -> (r: Progress)
        ensures
            progress_is(r, eval_spec(self.tree(), value_views(results@), 0).0),
    {
        let mut used: usize = 0;
        self.evaluate_expression(&self.ast, results, &mut used)
    }

    /// A diagnostic with this message and span.
    pub fn error(&self, message: &str, span: Span) -> (r: Diagnostic)
        ensures
            r@ == (DiagnosticView { message: message@, span }),
    {
        Diagnostic { message: message.to_owned(), span }
    }

    pub fn diagnostics(&self) -> (r: &[Diagnostic])
        ensures
            diagnostic_views(r@) == self.errors(),
    {
        self.diagnostics.as_slice()
    }

    /// The next answer as the value of a step, or `q` when none is left.
    fn answer(&self, results: &[Value], used: &mut usize, q: Request) -> (r: Progress)
        requires
            *old(used) <= results@.len(),
        ensures
            progress_is(r, answer(value_views(results@), *old(used) as int, q@).0),
            *final(used) == answer(value_views(results@), *old(used) as int, q@).1,
            *final(used) <= results@.len(),
    {
        if *used < results.len() {
            let v = results[*used].clone();
            *used = *used + 1;
            Progress::Done(Ok(v))
        } else {
            Progress::Needs(q)
        }
    }

    fn evaluate_expression(
        &self,
        e: &WithSpan<Expr>,
        results: &[Value],
        used: &mut usize,
    ) -> (r: Progress)
        requires
            *old(used) <= results@.len(),
        ensures
            progress_is(r, eval_spec(e@, value_views(results@), *old(used) as int).0),
            *final(used) == eval_spec(e@, value_views(results@), *old(used) as int).1,
            *final(used) <= results@.len(),
        decreases e,
    {
        match &e.value {
            Expr::Literal(t) => self.literal(t, results, used),
            Expr::Grouping(inner) => self.evaluate_expression(inner, results, used),
            Expr::Unary { operator, right } => match self.evaluate_expression(right, results, used) {
                Progress::Done(Ok(v)) => self.unary(operator, v, results, used),
                other => other,
            },
            Expr::Binary { operator, left, right } => {
                let l = match self.evaluate_expression(left, results, used) {
                    Progress::Done(Ok(v)) => v,
                    other => return other,
                };
                let r = match self.evaluate_expression(right, results, used) {
                    Progress::Done(Ok(v)) => v,
                    other => return other,
                };
                self.binary(operator, l, r, Span::union(left, right), results, used)
            },
        }
    }

    fn literal(&self, t: &WithSpan<Token>, results: &[Value], used: &mut usize) -> (r: Progress)
        requires
            *old(used) <= results@.len(),
        ensures
            progress_is(r, literal_step(t.value@, value_views(results@), *old(used) as int).0),
            *final(used) == literal_step(t.value@, value_views(results@), *old(used) as int).1,
            *final(used) <= results@.len(),
    {
        match &t.value {
            Token::Number(n) => self.answer(results, used, Request::Parse(n.clone())),
            Token::String(s) => Progress::Done(Ok(Value::String(s.clone()))),
            Token::True => Progress::Done(Ok(Value::Boolean(true))),
            Token::False => Progress::Done(Ok(Value::Boolean(false))),
            _ => Progress::Done(Ok(Value::Nil)),
        }
    }

    fn unary(
        &self,
        operator: &WithSpan<Token>,
        right: Value,
        results: &[Value],
        used: &mut usize,
    ) -> (r: Progress)
        requires
            *old(used) <= results@.len(),
        ensures
            progress_is(r, unary_step(operator@, right@, value_views(results@), *old(used) as int).0),
            *final(used) == unary_step(operator@, right@, value_views(results@), *old(used) as int).1,
            *final(used) <= results@.len(),
    {
        match &operator.value {
            Token::Minus => match right {
                Value::Number(n) => self.answer(results, used, Request::Negate(n)),
                _ => {
                    let message = String::from_str("Operand ").concat(
                        operator.value.describe().as_str(),
                    ).concat(" must be a number.");
                    Progress::Done(Err(self.error(message.as_str(), operator.span)))
                },
            },
            Token::Bang => Progress::Done(Ok(Value::Boolean(!self.is_truthy(&right)))),
            _ => {
                let message = String::from_str("Unrecognized unary operator \"").concat(
                    operator.value.describe().as_str(),
                ).concat("\".");
                Progress::Done(Err(self.error(message.as_str(), operator.span)))
            },
        }
    }

    /// The step for an operator that takes two numbers.
    fn numeric(
        &self,
        op: NumericOp,
        left: Value,
        right: Value,
        span: Span,
        results: &[Value],
        used: &mut usize,
    ) -> (r: Progress)
        requires
            *old(used) <= results@.len(),
        ensures
            ({
                let (step, k) = numeric_step(
                    op,
                    left@,
                    right@,
                    span,
                    value_views(results@),
                    *old(used) as int,
                );
                progress_is(r, step) && *final(used) == k
            }),
            *final(used) <= results@.len(),
    {
        match (left, right) {
            (Value::Number(l), Value::Number(r)) => self.answer(
                results,
                used,
                Request::Arithmetic(op, l, r),
            ),
            _ => Progress::Done(Err(self.error("Operands must be numbers.", span))),
        }
    }

    fn binary(
        &self,
        operator: &WithSpan<Token>,
        left: Value,
        right: Value,
        span: Span,
        results: &[Value],
        used: &mut usize,
    ) -> (r: Progress)
        requires
            *old(used) <= results@.len(),
        ensures
            ({
                let (step, k) = binary_step(
                    operator.value@,
                    left@,
                    right@,
                    span,
                    value_views(results@),
                    *old(used) as int,
                );
                progress_is(r, step) && *final(used) == k
            }),
            *final(used) <= results@.len(),
    {
        match &operator.value {
            Token::Plus => match (left, right) {
                (Value::Number(l), Value::Number(r)) => self.answer(
                    results,
                    used,
                    Request::Arithmetic(NumericOp::Add, l, r),
                ),
                (Value::String(l), Value::String(r)) => {
                    Progress::Done(Ok(Value::String(l.concat(r.as_str()))))
                },
                _ => {
                    let d = self.error("Operands must be two numbers or two strings.", span);
                    Progress::Done(Err(d))
                },
            },
            Token::Minus => self.numeric(NumericOp::Subtract, left, right, span, results, used),
            Token::Star => self.numeric(NumericOp::Multiply, left, right, span, results, used),
            Token::Slash => match (left, right) {
                (Value::Number(l), Value::Number(r)) => if r == 0 || r == 0x8000_0000_0000_0000 {
                    Progress::Done(Err(self.error("Divide by zero.", span)))
                } else {
                    self.answer(results, used, Request::Arithmetic(NumericOp::Divide, l, r))
                },
                _ => Progress::Done(Err(self.error("Operands must be numbers.", span))),
            },
            Token::Less => self.numeric(NumericOp::Less, left, right, span, results, used),
            Token::LessEqual => self.numeric(NumericOp::LessEqual, left, right, span, results, used),
            Token::Greater => self.numeric(NumericOp::Greater, left, right, span, results, used),
            Token::GreaterEqual => {
                self.numeric(NumericOp::GreaterEqual, left, right, span, results, used)
            },
            Token::EqualEqual => match (left, right) {
                (Value::Number(l), Value::Number(r)) => self.answer(
                    results,
                    used,
                    Request::Arithmetic(NumericOp::Equal, l, r),
                ),
                (l, r) => Progress::Done(Ok(Value::Boolean(self.is_equal(&l, &r)))),
            },
            Token::BangEqual => match (left, right) {
                (Value::Number(l), Value::Number(r)) => self.answer(
                    results,
                    used,
                    Request::Arithmetic(NumericOp::NotEqual, l, r),
                ),
                (l, r) => Progress::Done(Ok(Value::Boolean(!self.is_equal(&l, &r)))),
            },
            _ => {
                let message = String::from_str("Invalid operator \"").concat(
                    operator.value.describe().as_str(),
                ).concat("\"");
                Progress::Done(Err(self.error(message.as_str(), span)))
            },
        }
    }

    fn is_truthy(&self, v: &Value) -> (r: bool)
        ensures
            r == truthy(v@),
    {
        match v {
            Value::Nil => false,
            Value::Boolean(b) => *b,
            _ => true,
        }
    }

    /// Equality of two values that are not both numbers.
    fn is_equal(&self, left: &Value, right: &Value) -> (r: bool)
        requires
            !(left is Number && right is Number),
        ensures
            r == equal_values(left@, right@),
    {
        match (left, right) {
            (Value::Nil, Value::Nil) => true,
            (Value::Boolean(l), Value::Boolean(r)) => *l == *r,
            (Value::String(l), Value::String(r)) => *l == *r,
            _ => false,
        }
    }
}

} // verus!
