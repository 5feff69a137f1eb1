use calculator::CalcError;
use calculator::Directive;
use calculator::Evaluator;
use calculator::Outcome;
use calculator::Token;
use calculator::tokenize;

/// Drive the evaluation engine over a token sequence, doing the numeric work
/// on a mirrored f64 value stack and reporting each application's outcome.
fn run_eval(tokens: Vec<Token>) -> Result<f64, CalcError> {
    let mut engine = Evaluator::new(tokens);
    let mut values: Vec<f64> = Vec::new();
    loop {
        match engine.next() {
            Directive::Proceed => {}
            Directive::PushNumber(lit) => {
                let text: String = lit.into_iter().collect();
                let value: f64 = text.parse().unwrap();
                values.push(value);
            }
            Directive::Apply(op) => {
                let y = values.pop().unwrap();
                let x = values.pop().unwrap();
                let outcome = if (op == '/' || op == '%') && y == 0.0 {
                    Outcome::DivisorZero
                } else {
                    let value = match op {
                        '+' => x + y,
                        '-' => x - y,
                        'x' => x * y,
                        '/' => x / y,
                        '%' => x % y,
                        _ => unreachable!(),
                    };
                    if value.is_infinite() {
                        Outcome::Infinite
                    } else if value.is_nan() {
                        Outcome::NotANumber
                    } else {
                        values.push(value);
                        Outcome::Finite
                    }
                };
                engine.report(outcome);
            }
            Directive::Finish => return Ok(values.pop().unwrap()),
            Directive::Fail(e) => return Err(e),
        }
    }
}

fn calculate(expression: &str) -> Result<f64, CalcError> {
    run_eval(tokenize(expression)?)
}

#[test]
fn multiplication_before_addition() {
    assert_eq!(calculate("3+4x2"), Ok(11.0));
}

#[test]
fn parentheses_override_precedence() {
    assert_eq!(calculate("(3+4)x2"), Ok(14.0));
}

#[test]
fn division_by_zero() {
    assert_eq!(calculate("10/0"), Err(CalcError::DivisionByZero));
}

#[test]
fn modulo() {
    assert_eq!(calculate("10%3"), Ok(1.0));
}

#[test]
fn modulo_by_zero() {
    assert_eq!(calculate("5%0"), Err(CalcError::DivisionByZero));
}

#[test]
fn division_by_negative_zero() {
    assert_eq!(calculate("10/(-0)"), Err(CalcError::DivisionByZero));
}

#[test]
fn unmatched_open_paren() {
    assert_eq!(calculate("(3+4"), Err(CalcError::MismatchedParenthesis));
}

#[test]
fn unmatched_close_paren() {
    assert_eq!(calculate("3+4)"), Err(CalcError::MismatchedParenthesis));
}

#[test]
fn unary_minus_at_start_and_after_paren() {
    assert_eq!(calculate("-5+3"), Ok(-2.0));
    assert_eq!(calculate("(-5)"), Ok(-5.0));
}

#[test]
fn empty_input_is_invalid() {
    assert_eq!(calculate(""), Err(CalcError::InvalidExpression));
}

#[test]
fn double_minus_is_a_structural_error() {
    assert_eq!(calculate("3--5"), Err(CalcError::InvalidExpression));
}

#[test]
fn trailing_operator_is_invalid() {
    assert_eq!(calculate("3+"), Err(CalcError::InvalidExpression));
}

#[test]
fn unclosed_group_around_lone_operand() {
    assert_eq!(calculate("(-5"), Err(CalcError::MismatchedParenthesis));
}

#[test]
fn empty_parens_are_invalid() {
    assert_eq!(calculate("()"), Err(CalcError::InvalidExpression));
}

#[test]
fn malformed_literal() {
    assert_eq!(calculate("1.2.3"), Err(CalcError::InvalidNumber));
    assert_eq!(calculate("3+."), Err(CalcError::InvalidNumber));
}

#[test]
fn unrecognized_characters_are_dropped() {
    // letters split a literal and vanish; the last operand wins at the drain
    assert_eq!(calculate("3a4"), Ok(4.0));
    assert_eq!(calculate("3 + 4"), Ok(7.0));
}

#[test]
fn left_associativity_on_equal_precedence() {
    assert_eq!(calculate("10-4-3"), Ok(3.0));
    assert_eq!(calculate("100/10/5"), Ok(2.0));
    assert_eq!(calculate("10%4x2"), Ok(4.0));
}

#[test]
fn decimal_literals() {
    assert_eq!(calculate("1.5+2.25"), Ok(3.75));
    assert_eq!(calculate(".5x4"), Ok(2.0));
}

#[test]
fn fully_parenthesized_matches_standard_arithmetic() {
    assert_eq!(calculate("((2x3)+(10/4))"), Ok(8.5));
    assert_eq!(calculate("((1+2)x(3+4))"), Ok(21.0));
    assert_eq!(calculate("(((7)))"), Ok(7.0));
    assert_eq!(calculate("((10-4)-3)"), Ok(3.0));
}

#[test]
fn nested_parens_with_unary_minus() {
    assert_eq!(calculate("(-5)x(-2)"), Ok(10.0));
    assert_eq!(calculate("2x(-3+1)"), Ok(-4.0));
}

#[test]
fn repeated_runs_yield_identical_results() {
    for expr in ["3+4x2", "10/0", "(3+4", "", "1.2.3", "(-5)x(-2)"] {
        let first = calculate(expr);
        let second = calculate(expr);
        assert_eq!(first, second);
    }
}

#[test]
fn infinite_application_result_is_overflow() {
    // near the top of the finite range, one more factor of 10 overflows
    let mut near_max = String::from("17976931348623157");
    near_max.push_str(&"0".repeat(292));
    assert!(calculate(&near_max).unwrap().is_finite());
    let expr = format!("{}x10", near_max);
    assert_eq!(calculate(&expr), Err(CalcError::Overflow));
}

#[test]
fn nan_application_result_is_invalid_operation() {
    // a literal past the finite range parses as an infinity and is pushed
    // unchecked; only application results are screened
    let big = "9".repeat(400);
    assert!(calculate(&big).unwrap().is_infinite());
    assert_eq!(calculate(&format!("{}x{}", big, big)), Err(CalcError::Overflow));
    assert_eq!(
        calculate(&format!("{}-{}", big, big)),
        Err(CalcError::InvalidOperation)
    );
}

#[test]
fn engine_on_empty_tokens_fails_and_stays_failed() {
    let mut engine = Evaluator::new(Vec::new());
    assert_eq!(engine.next(), Directive::Proceed);
    assert_eq!(engine.next(), Directive::Fail(CalcError::InvalidExpression));
    assert_eq!(engine.next(), Directive::Fail(CalcError::InvalidExpression));
}

#[test]
fn engine_repeats_a_pending_application_until_reported() {
    let mut engine = Evaluator::new(vec![
        Token::Number(vec!['1']),
        Token::Operator('+'),
        Token::Number(vec!['2']),
    ]);
    assert_eq!(engine.next(), Directive::PushNumber(vec!['1']));
    assert_eq!(engine.next(), Directive::Proceed); // '+' is taken up
    assert_eq!(engine.next(), Directive::Proceed); // and deferred to the stack
    assert_eq!(engine.next(), Directive::PushNumber(vec!['2']));
    assert_eq!(engine.next(), Directive::Proceed); // input exhausted: drain
    assert_eq!(engine.next(), Directive::Apply('+'));
    // until the outcome is reported the engine asks again
    assert_eq!(engine.next(), Directive::Apply('+'));
    engine.report(Outcome::Finite);
    assert_eq!(engine.next(), Directive::Finish);
    assert_eq!(engine.next(), Directive::Finish);
}

#[test]
fn engine_reports_are_ignored_outside_an_application() {
    let mut engine = Evaluator::new(Vec::new());
    engine.report(Outcome::Finite);
    assert_eq!(engine.next(), Directive::Proceed);
    assert_eq!(engine.next(), Directive::Fail(CalcError::InvalidExpression));
}
