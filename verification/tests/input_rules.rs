use calculator::CalcError;
use calculator::MyApp;
use calculator::Token;
use calculator::precedence;
use calculator::tokenize;

fn line(app: &MyApp) -> String {
    app.input_chars().into_iter().collect()
}

fn type_chars(app: &mut MyApp, text: &str) {
    for c in text.chars() {
        app.handle_button_click(c);
    }
}

#[test]
fn tokenizes_unary_minus_at_start() {
    assert_eq!(tokenize("-5").unwrap(), vec![Token::Number(vec!['-', '5'])]);
}

#[test]
fn tokenizes_unary_minus_after_open_paren() {
    assert_eq!(
        tokenize("(-5)").unwrap(),
        vec![
            Token::Operator('('),
            Token::Number(vec!['-', '5']),
            Token::Operator(')'),
        ]
    );
}

#[test]
fn tokenizes_binary_minus() {
    assert_eq!(
        tokenize("3-5").unwrap(),
        vec![
            Token::Number(vec!['3']),
            Token::Operator('-'),
            Token::Number(vec!['5']),
        ]
    );
}

#[test]
fn tokenizes_double_minus_as_two_operators() {
    assert_eq!(
        tokenize("3--5").unwrap(),
        vec![
            Token::Number(vec!['3']),
            Token::Operator('-'),
            Token::Operator('-'),
            Token::Number(vec!['5']),
        ]
    );
}

#[test]
fn tokenizer_keeps_decimal_characters() {
    assert_eq!(
        tokenize("1.5x2").unwrap(),
        vec![
            Token::Number(vec!['1', '.', '5']),
            Token::Operator('x'),
            Token::Number(vec!['2']),
        ]
    );
}

#[test]
fn lone_minus_is_an_invalid_number() {
    assert_eq!(tokenize("-"), Err(CalcError::InvalidNumber));
    assert_eq!(tokenize("(-)"), Err(CalcError::InvalidNumber));
    assert_eq!(tokenize("."), Err(CalcError::InvalidNumber));
}

#[test]
fn minus_after_minus_starts_no_literal() {
    // only position 0 and a preceding '(' make a minus a sign; after another
    // operator it stays a binary operator
    assert_eq!(
        tokenize("3x-5").unwrap(),
        vec![
            Token::Number(vec!['3']),
            Token::Operator('x'),
            Token::Operator('-'),
            Token::Number(vec!['5']),
        ]
    );
}

#[test]
fn precedence_table() {
    assert_eq!(precedence('+'), 1);
    assert_eq!(precedence('-'), 1);
    assert_eq!(precedence('x'), 2);
    assert_eq!(precedence('/'), 2);
    assert_eq!(precedence('%'), 2);
    assert_eq!(precedence('('), 0);
    assert_eq!(precedence(')'), 0);
    assert_eq!(precedence('?'), 0);
}

#[test]
fn typing_builds_a_line() {
    let mut app = MyApp::default();
    type_chars(&mut app, "3+4x2");
    assert_eq!(line(&app), "3+4x2");
}

#[test]
fn leading_operator_is_refused_but_minus_is_not() {
    let mut app = MyApp::default();
    app.handle_button_click('+');
    assert_eq!(line(&app), "");
    app.handle_button_click('-');
    assert_eq!(line(&app), "-");
}

#[test]
fn operator_after_operator_is_refused() {
    let mut app = MyApp::default();
    type_chars(&mut app, "3+");
    app.handle_button_click('x');
    assert_eq!(line(&app), "3+");
}

#[test]
fn one_dot_per_number() {
    let mut app = MyApp::default();
    type_chars(&mut app, "1.2");
    app.handle_button_click('.');
    assert_eq!(line(&app), "1.2");
    type_chars(&mut app, "+3");
    app.handle_button_click('.');
    assert_eq!(line(&app), "1.2+3.");
}

#[test]
fn dot_goes_by_the_dot_rule_not_the_last_character() {
    // a dot bypasses the last-character table: right after an operator the
    // dot rule admits it, since the new number has no dot yet
    let mut app = MyApp::default();
    type_chars(&mut app, "1+");
    app.handle_button_click('.');
    assert_eq!(line(&app), "1+.");
}

#[test]
fn after_close_paren_only_operators() {
    let mut app = MyApp::default();
    app.handle_paren_click();
    type_chars(&mut app, "1+2");
    app.handle_paren_click();
    assert_eq!(line(&app), "(1+2)");
    app.handle_button_click('5');
    assert_eq!(line(&app), "(1+2)");
    app.handle_button_click('x');
    assert_eq!(line(&app), "(1+2)x");
}

#[test]
fn line_is_capped_at_twenty_characters() {
    let mut app = MyApp::default();
    type_chars(&mut app, "111111111111111111111111");
    assert_eq!(line(&app).len(), 20);
}

#[test]
fn paren_button_opens_after_operator_or_start() {
    let mut app = MyApp::default();
    app.handle_paren_click();
    assert_eq!(line(&app), "(");
    type_chars(&mut app, "3x");
    app.handle_paren_click();
    assert_eq!(line(&app), "(3x(");
}

#[test]
fn paren_button_closes_an_open_group() {
    let mut app = MyApp::default();
    app.handle_paren_click();
    type_chars(&mut app, "3");
    app.handle_paren_click();
    assert_eq!(line(&app), "(3)");
}

#[test]
fn paren_button_inserts_product_when_balanced() {
    let mut app = MyApp::default();
    type_chars(&mut app, "3");
    app.handle_paren_click();
    assert_eq!(line(&app), "3x(");
}

#[test]
fn backspace_removes_last_character() {
    let mut app = MyApp::default();
    type_chars(&mut app, "12");
    app.handle_backspace();
    assert_eq!(line(&app), "1");
    app.handle_backspace();
    app.handle_backspace();
    assert_eq!(line(&app), "");
}

#[test]
fn clear_button_empties_the_line() {
    let mut app = MyApp::default();
    type_chars(&mut app, "12+3");
    app.handle_clear();
    assert_eq!(line(&app), "");
}

#[test]
fn result_is_shown_then_cleared_by_next_keystroke() {
    let mut app = MyApp::default();
    type_chars(&mut app, "3+4");
    app.set_result("7".chars().collect());
    assert_eq!(line(&app), "7");
    app.handle_button_click('5');
    assert_eq!(line(&app), "5");
}

#[test]
fn backspace_after_result_clears_everything() {
    let mut app = MyApp::default();
    app.set_result("42".chars().collect());
    app.handle_backspace();
    assert_eq!(line(&app), "");
}
