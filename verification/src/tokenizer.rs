use vstd::prelude::*;

verus! {

/// The error taxonomy of the calculator.  Every error aborts the whole
/// evaluation; none is recovered from.
#[derive(Clone, Copy, Debug, PartialEq, Eq, Structural)]
pub enum CalcError {
    /// A numeric literal does not parse: it has no digit, or more than one dot.
    InvalidNumber,
    /// A `)` arrived with no `(` pending, or a `(` was still pending when the
    /// input ran out.
    MismatchedParenthesis,
    /// An operator was short of operands, or no operand was left to return.
    InvalidExpression,
    /// The divisor of a `/` or `%` application was zero.
    DivisionByZero,
    /// An application produced an infinite value.
    Overflow,
    /// An application produced a value that is not a number.
    InvalidOperation,
}

/// A lexical token: a numeric literal, kept as its characters (a possible
/// leading `-`, digits and dots), or one operator symbol out of `+ - x / % ( )`.
#[derive(Clone, Debug, PartialEq, Eq)]
pub enum Token {
    Number(Vec<char>),
    Operator(char),
}

/// Specification-level image of a [`Token`].
pub ghost enum TokenModel {
    Number(Seq<char>),
    Operator(char),
}

pub open spec fn token_model(t: Token) -> TokenModel {
    match t {
        Token::Number(lit) => TokenModel::Number(lit@),
        Token::Operator(c) => TokenModel::Operator(c),
    }
}

pub open spec fn tokens_model(ts: Seq<Token>) -> Seq<TokenModel> {
    ts.map_values(|t: Token| token_model(t))
}

pub open spec fn is_digit_char(c: char) -> bool {
    '0' <= c && c <= '9'
}

pub open spec fn is_literal_char(c: char) -> bool {
    is_digit_char(c) || c == '.'
}

pub open spec fn is_symbol_char(c: char) -> bool {
    c == '+' || c == '-' || c == 'x' || c == '/' || c == '%' || c == '(' || c == ')'
}

/// Number of `.` characters in a literal.
pub open spec fn dot_count(l: Seq<char>) -> nat
    decreases l.len(),
{
    if l.len() == 0 {
        0
    } else {
        dot_count(l.drop_last()) + if l.last() == '.' {
            1nat
        } else {
            0nat
        }
    }
}

/// Whether a literal holds at least one digit.
pub open spec fn has_digit(l: Seq<char>) -> bool
    decreases l.len(),
{
    if l.len() == 0 {
        false
    } else {
        is_digit_char(l.last()) || has_digit(l.drop_last())
    }
}

/// A literal drawn from digits, dots and an optional leading minus parses as
/// a number exactly when it holds at least one digit and at most one dot.
pub open spec fn literal_ok(l: Seq<char>) -> bool {
    has_digit(l) && dot_count(l) <= 1
}

/// Prefix a token sequence result with already emitted tokens; an error
/// swallows everything.
pub open spec fn chain(pre: Seq<TokenModel>, r: Result<Seq<TokenModel>, CalcError>) -> Result<
    Seq<TokenModel>,
    CalcError,
> {
    match r {
        Ok(ts) => Ok(pre + ts),
        Err(e) => Err(e),
    }
}

/// The scanner from position `i` on, with `window` the start of the numeric
/// literal currently being accumulated, if any.
///
/// - a digit or dot starts or extends the literal window;
/// - any other character first closes an open window, emitting its characters
///   as a `Number` (an ill-formed literal is `InvalidNumber`);
/// - a `-` at position 0 or right after a `(` opens a window instead of being
///   an operator, so the sign is folded into the literal;
/// - the seven operator symbols are emitted as `Operator`;
/// - every other character is dropped without a token and without an error.
pub open spec fn tokenize_from(s: Seq<char>, i: int, window: Option<int>) -> Result<
    Seq<TokenModel>,
    CalcError,
>
    decreases s.len() - i,
{
    if i < 0 || i >= s.len() {
        match window {
            Option::None => Ok(Seq::empty()),
            Option::Some(st) => {
                let lit = s.subrange(st, s.len() as int);
                if literal_ok(lit) {
                    Ok(seq![TokenModel::Number(lit)])
                } else {
                    Err(CalcError::InvalidNumber)
                }
            },
        }
    } else {
        let c = s[i];
        if is_literal_char(c) {
            tokenize_from(s, i + 1, if window is Some { window } else { Option::Some(i) })
        } else {
            let rest = if c == '-' && (i == 0 || s[i - 1] == '(') {
                tokenize_from(s, i + 1, Option::Some(i))
            } else if is_symbol_char(c) {
                chain(seq![TokenModel::Operator(c)], tokenize_from(s, i + 1, Option::None))
            } else {
                tokenize_from(s, i + 1, Option::None)
            };
            match window {
                Option::None => rest,
                Option::Some(st) => {
                    let lit = s.subrange(st, i);
                    if literal_ok(lit) {
                        chain(seq![TokenModel::Number(lit)], rest)
                    } else {
                        Err(CalcError::InvalidNumber)
                    }
                },
            }
        }
    }
}

/// What tokenizing a whole expression yields.
pub open spec fn spec_tokenize(s: Seq<char>) -> Result<Seq<TokenModel>, CalcError> {
    tokenize_from(s, 0, Option::None)
}

proof fn lemma_tokens_model_push(ts: Seq<Token>, t: Token)
    ensures
        tokens_model(ts.push(t)) == tokens_model(ts).push(token_model(t)),
{
    assert(tokens_model(ts.push(t)) =~= tokens_model(ts).push(token_model(t)));
}

proof fn lemma_chain_step(pre: Seq<TokenModel>, t: TokenModel, r: Result<Seq<TokenModel>, CalcError>)
    ensures
        chain(pre, chain(seq![t], r)) == chain(pre.push(t), r),
{
    match r {
        Ok(ts) => {
            assert(pre + (seq![t] + ts) =~= pre.push(t) + ts);
        },
        Err(_) => {},
    }
}

pub(crate) fn copy_chars(v: &Vec<char>) -> (r: Vec<char>)
    ensures
        r@ == v@,
{
    let mut r: Vec<char> = Vec::new();
    let mut i: usize = 0;
    while i < v.len()
        invariant
            i <= v.len(),
            r@ == v@.take(i as int),
        decreases v.len() - i,
    {
        r.push(v[i]);
        proof {
            assert(v@.take(i as int + 1) =~= v@.take(i as int).push(v@[i as int]));
        }
        i = i + 1;
    }
    proof {
        assert(v@.take(v@.len() as int) =~= v@);
    }
    r
}

/// Decide [`literal_ok`] for an accumulated literal.
fn literal_is_ok(l: &Vec<char>) -> (b: bool)
    ensures
        b == literal_ok(l@),
{
    let mut digit_seen: bool = false;
    let mut dots: usize = 0;
    let mut i: usize = 0;
    while i < l.len()
        invariant
            i <= l.len(),
            dots <= i,
            digit_seen == has_digit(l@.take(i as int)),
            dots == dot_count(l@.take(i as int)),
        decreases l.len() - i,
    {
        let c = l[i];
        proof {
            assert(l@.take(i as int + 1).drop_last() =~= l@.take(i as int));
            assert(l@.take(i as int + 1).last() == l@[i as int]);
        }
        if c == '.' {
            dots = dots + 1;
        } else if '0' <= c && c <= '9' {
            digit_seen = true;
        }
        i = i + 1;
    }
    proof {
        assert(l@.take(l@.len() as int) =~= l@);
    }
    digit_seen && dots <= 1
}

/// Scan an expression into tokens.
///
/// The result is pinned down by [`spec_tokenize`]: digits and dots gather
/// into numeric literals, a `-` at the start of the input or right after a
/// `(` is folded into the literal that follows it as a sign, the symbols
/// `+ - x / % ( )` become operator tokens, and every other character is
/// dropped silently.  The only error is `InvalidNumber`, for a gathered
/// literal with no digit or more than one dot.
pub fn tokenize(expression: &str) -> (r: Result<Vec<Token>, CalcError>)
    ensures
        (match r {
            Ok(ts) => spec_tokenize(expression@) == Ok::<Seq<TokenModel>, CalcError>(
                tokens_model(ts@),
            ),
            Err(e) => spec_tokenize(expression@) == Err::<Seq<TokenModel>, CalcError>(e),
        }),
{
    let ghost s = expression@;
    let n = expression.unicode_len();
    let mut tokens: Vec<Token> = Vec::new();
    let mut current: Vec<char> = Vec::new();
    let mut in_number: bool = false;
    let ghost mut window_start: int = 0;
    let mut i: usize = 0;
    while i < n
        invariant
            i <= n,
            n == s.len(),
            s == expression@,
            in_number ==> 0 <= window_start <= i as int,
            in_number ==> current@ == s.subrange(window_start, i as int),
            !in_number ==> current@ == Seq::<char>::empty(),
            spec_tokenize(s) == chain(
                tokens_model(tokens@),
                tokenize_from(
                    s,
                    i as int,
                    if in_number {
                        Option::Some(window_start)
                    } else {
                        Option::None
                    },
                ),
            ),
        decreases n - i,
    {
        let c = expression.get_char(i);
        let ghost prev_tokens = tokens@;
        if c == '.' || ('0' <= c && c <= '9') {
            if !in_number {
                in_number = true;
                proof {
                    window_start = i as int;
                }
            }
            current.push(c);
            proof {
                assert(current@ =~= s.subrange(window_start, i as int + 1));
            }
        } else {
            if in_number {
                if literal_is_ok(&current) {
                    proof {
                        lemma_tokens_model_push(prev_tokens, Token::Number(current));
                        lemma_chain_step(
                            tokens_model(prev_tokens),
                            TokenModel::Number(current@),
                            tokenize_from(
                                s,
                                i as int,
                                Option::None,
                            ),
                        );
                    }
                    tokens.push(Token::Number(current));
                    current = Vec::new();
                } else {
                    return Err(CalcError::InvalidNumber);
                }
                in_number = false;
            }
            let ghost mid_tokens = tokens@;
            if c == '-' && (i == 0 || expression.get_char(i - 1) == '(') {
                in_number = true;
                proof {
                    window_start = i as int;
                }
                current.push(c);
                proof {
                    assert(current@ =~= s.subrange(window_start, i as int + 1));
                }
            } else if c == '+' || c == '-' || c == 'x' || c == '/' || c == '%' || c == '(' || c
                == ')' {
                proof {
                    lemma_tokens_model_push(mid_tokens, Token::Operator(c));
                    lemma_chain_step(
                        tokens_model(mid_tokens),
                        TokenModel::Operator(c),
                        tokenize_from(s, i as int + 1, Option::None),
                    );
                }
                tokens.push(Token::Operator(c));
            }
        }
        i = i + 1;
    }
    if in_number {
        if literal_is_ok(&current) {
            proof {
                lemma_tokens_model_push(tokens@, Token::Number(current));
                lemma_chain_step(
                    tokens_model(tokens@),
                    TokenModel::Number(current@),
                    Ok::<Seq<TokenModel>, CalcError>(Seq::empty()),
                );
            }
            tokens.push(Token::Number(current));
        } else {
            return Err(CalcError::InvalidNumber);
        }
    }
    proof {
        assert(tokens_model(tokens@) + Seq::<TokenModel>::empty() =~= tokens_model(tokens@));
    }
    Ok(tokens)
}

} // verus!
