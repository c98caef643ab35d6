use lox::eval::{Evaluator, NumericOp, Progress, Request, Value};
use lox::expr::{parse, Expr};
use lox::lexer::{Scanner, Token};
use lox::parser::Parser;
use lox::position::{BytePos, Diagnostic, Span, WithSpan};

fn number(x: f64) -> Value {
    Value::Number(x.to_bits())
}

fn answer(q: &Request) -> Value {
    match q {
        Request::Parse(digits) => number(digits.parse::<f64>().unwrap()),
        Request::Negate(n) => number(-f64::from_bits(*n)),
        Request::Arithmetic(op, a, b) => {
            let (a, b) = (f64::from_bits(*a), f64::from_bits(*b));
            match op {
                NumericOp::Add => number(a + b),
                NumericOp::Subtract => number(a - b),
                NumericOp::Multiply => number(a * b),
                NumericOp::Divide => number(a / b),
                NumericOp::Less => Value::Boolean(a < b),
                NumericOp::LessEqual => Value::Boolean(a <= b),
                NumericOp::Greater => Value::Boolean(a > b),
                NumericOp::GreaterEqual => Value::Boolean(a >= b),
                NumericOp::Equal => Value::Boolean(a == b),
                NumericOp::NotEqual => Value::Boolean(a != b),
            }
        }
    }
}

fn evaluate(src: &str) -> Result<Value, Diagnostic> {
    let mut scanner = Scanner::new(src);
    let tokens = scanner.scan();
    let mut parser = Parser::new(&tokens);
    let ast = parse(&mut parser).expect("parses");
    let evaluator = Evaluator::new(Box::new(ast));
    let mut results = Vec::new();
    loop {
        match evaluator.evaluate(&results) {
            Progress::Done(r) => return r,
            Progress::Needs(q) => results.push(answer(&q)),
        }
    }
}

fn failure(src: &str) -> String {
    evaluate(src).expect_err("fails").message
}

#[test]
fn strings_concatenate() {
    assert_eq!(evaluate("\"a\" + \"b\"").unwrap(), Value::String("ab".to_string()));
    assert_eq!(evaluate("\"\" + \"\"").unwrap(), Value::String(String::new()));
}

#[test]
fn mixed_sum_is_rejected() {
    let d = evaluate("1 + \"b\"").expect_err("fails");
    assert!(d.message.contains("two numbers or two strings."));
    assert_eq!(d.span, Span { start: BytePos(0), end: BytePos(7) });
}

#[test]
fn division() {
    assert!(failure("1 / 0").contains("Divide by zero."));
    assert!(failure("1 / -0").contains("Divide by zero."));
    assert_eq!(evaluate("1 / 2").unwrap(), number(0.5));
}

#[test]
fn equality_is_variant_sensitive() {
    assert_eq!(evaluate("1 == \"1\"").unwrap(), Value::Boolean(false));
    assert_eq!(evaluate("nil == nil").unwrap(), Value::Boolean(true));
    assert_eq!(evaluate("nil == false").unwrap(), Value::Boolean(false));
    assert_eq!(evaluate("\"a\" == \"a\"").unwrap(), Value::Boolean(true));
    assert_eq!(evaluate("true != false").unwrap(), Value::Boolean(true));
    assert_eq!(evaluate("1 == 1.0").unwrap(), Value::Boolean(true));
    assert_eq!(evaluate("1 != 2").unwrap(), Value::Boolean(true));
}

#[test]
fn truthiness() {
    assert_eq!(evaluate("!0").unwrap(), Value::Boolean(false));
    assert_eq!(evaluate("!nil").unwrap(), Value::Boolean(true));
    assert_eq!(evaluate("!\"\"").unwrap(), Value::Boolean(false));
    assert_eq!(evaluate("!!false").unwrap(), Value::Boolean(false));
}

#[test]
fn arithmetic_and_comparison() {
    assert_eq!(evaluate("1 + 2 * 3").unwrap(), number(7.0));
    assert_eq!(evaluate("(1 + 2) * 3").unwrap(), number(9.0));
    assert_eq!(evaluate("10 - 4 - 3").unwrap(), number(3.0));
    assert_eq!(evaluate("-(2.5)").unwrap(), number(-2.5));
    assert_eq!(evaluate("1 < 2").unwrap(), Value::Boolean(true));
    assert_eq!(evaluate("2 <= 2").unwrap(), Value::Boolean(true));
    assert_eq!(evaluate("1 > 2").unwrap(), Value::Boolean(false));
    assert_eq!(evaluate("3 >= 4").unwrap(), Value::Boolean(false));
}

#[test]
fn literals_evaluate_to_themselves() {
    assert_eq!(evaluate("nil").unwrap(), Value::Nil);
    assert_eq!(evaluate("true").unwrap(), Value::Boolean(true));
    assert_eq!(evaluate("\"x\"").unwrap(), Value::String("x".to_string()));
    assert_eq!(evaluate("12.5").unwrap(), number(12.5));
}

#[test]
fn type_errors() {
    assert_eq!(failure("-\"a\""), "Operand MINUS - null must be a number.");
    assert_eq!(failure("1 - \"a\""), "Operands must be numbers.");
    assert_eq!(failure("true * 2"), "Operands must be numbers.");
    assert_eq!(failure("nil < 1"), "Operands must be numbers.");
    assert_eq!(failure("\"a\" / \"b\""), "Operands must be numbers.");
    assert_eq!(failure("true + nil"), "Operands must be two numbers or two strings.");
}

#[test]
fn operand_error_points_at_operator() {
    let d = evaluate(" -nil").expect_err("fails");
    assert_eq!(d.span, Span { start: BytePos(1), end: BytePos(2) });
}

#[test]
fn first_error_wins_and_both_operands_are_evaluated() {
    assert_eq!(failure("(1 / 0) + (-\"a\")"), "Divide by zero.");
    assert_eq!(failure("(-nil) == (1 / 0)"), "Operand MINUS - null must be a number.");
}

#[test]
fn requests_come_in_evaluation_order() {
    let mut scanner = Scanner::new("1 + 2");
    let tokens = scanner.scan();
    let mut parser = Parser::new(&tokens);
    let evaluator = Evaluator::new(Box::new(parse(&mut parser).unwrap()));
    assert!(evaluator.diagnostics().is_empty());
    match evaluator.evaluate(&[]) {
        Progress::Needs(Request::Parse(d)) => assert_eq!(d, "1"),
        other => panic!("unexpected {:?}", other),
    }
    match evaluator.evaluate(&[number(1.0)]) {
        Progress::Needs(Request::Parse(d)) => assert_eq!(d, "2"),
        other => panic!("unexpected {:?}", other),
    }
    match evaluator.evaluate(&[number(1.0), number(2.0)]) {
        Progress::Needs(Request::Arithmetic(NumericOp::Add, a, b)) => {
            assert_eq!(a, 1.0f64.to_bits());
            assert_eq!(b, 2.0f64.to_bits());
        }
        other => panic!("unexpected {:?}", other),
    }
    match evaluator.evaluate(&[number(1.0), number(2.0), number(3.0)]) {
        Progress::Done(Ok(v)) => assert_eq!(v, number(3.0)),
        other => panic!("unexpected {:?}", other),
    }
}

#[test]
fn error_builds_a_diagnostic() {
    let mut scanner = Scanner::new("nil");
    let tokens = scanner.scan();
    let mut parser = Parser::new(&tokens);
    let evaluator = Evaluator::new(Box::new(parse(&mut parser).unwrap()));
    let d = evaluator.error("boom", Span::empty());
    assert_eq!(d.message, "boom");
    assert_eq!(d.span, Span::empty());
}

fn span(start: u32, end: u32) -> Span {
    Span { start: BytePos(start), end: BytePos(end) }
}

fn nil_at(start: u32) -> Box<WithSpan<Expr>> {
    let token = WithSpan::new(Token::Nil, span(start, start + 3));
    Box::new(WithSpan::new(Expr::Literal(token), span(start, start + 3)))
}

#[test]
fn unknown_unary_operator_is_reported() {
    let tree = WithSpan::new(
        Expr::Unary { operator: WithSpan::new(Token::Plus, span(0, 1)), right: nil_at(1) },
        span(0, 4),
    );
    match Evaluator::new(Box::new(tree)).evaluate(&[]) {
        Progress::Done(Err(d)) => {
            assert_eq!(d.message, "Unrecognized unary operator \"PLUS + null\".");
            assert_eq!(d.span, span(0, 1));
        }
        other => panic!("unexpected {:?}", other),
    }
}

#[test]
fn unknown_binary_operator_is_reported() {
    let tree = WithSpan::new(
        Expr::Binary {
            operator: WithSpan::new(Token::Comma, span(4, 5)),
            left: nil_at(0),
            right: nil_at(6),
        },
        span(0, 9),
    );
    match Evaluator::new(Box::new(tree)).evaluate(&[]) {
        Progress::Done(Err(d)) => {
            assert_eq!(d.message, "Invalid operator \"COMMA , null\"");
            assert_eq!(d.span, span(0, 9));
        }
        other => panic!("unexpected {:?}", other),
    }
}
