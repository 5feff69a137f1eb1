use crate::tokenizer::CalcError;
use crate::tokenizer::Token;
use crate::tokenizer::TokenModel;
use crate::tokenizer::copy_chars;
use crate::tokenizer::tokens_model;
use vstd::prelude::*;

verus! {

/// The evaluation engine, a two-stack (shunting-yard) algorithm exposed as a
/// step machine.
///
/// The engine makes every structural decision itself: operator precedence,
/// parenthesis matching, operand bookkeeping and the whole error taxonomy.
/// The numeric work happens outside, on a value stack owned by the caller
/// that mirrors the engine's operand count exactly.  The caller repeatedly
/// calls [`Evaluator::next`] and obeys the directive it returns; after an
/// `Apply` directive it reports what became of the application through
/// [`Evaluator::report`].
pub struct Evaluator {
    tokens: Vec<Token>,
    pos: usize,
    depth: usize,
    ops: Vec<char>,
    mode: Mode,
}

/// The engine's control state.
#[derive(Clone, Copy, Debug, PartialEq, Eq, Structural)]
pub enum Mode {
    /// Reading the next token.
    Scan,
    /// Unwinding the operator stack down to the matching `(`.
    CloseParen,
    /// Unwinding applications owed before the held operator may be pushed.
    Shunt(char),
    /// Input exhausted; applying what is left on the operator stack.
    Drain,
    /// An application was handed out while closing a parenthesis.
    AwaitCloseParen(char),
    /// An application was handed out on behalf of a pending operator.
    AwaitShunt(char, char),
    /// An application was handed out during the final drain.
    AwaitDrain(char),
    /// The result is the top of the caller's value stack.
    Finished,
    /// Evaluation aborted with an error.
    Failed(CalcError),
}

/// What the caller must do next.
#[derive(Debug, PartialEq, Eq)]
pub enum Directive {
    /// Nothing: call [`Evaluator::next`] again.
    Proceed,
    /// Parse this literal and push its value onto the value stack.
    PushNumber(Vec<char>),
    /// Pop `y`, then `x`, compute `x op y`, and report the outcome: a zero
    /// divisor under `/` or `%`, an infinite or not-a-number result, or else
    /// push the finite value back.
    Apply(char),
    /// Pop the top of the value stack: it is the final result.
    Finish,
    /// Evaluation failed; nothing further will happen.
    Fail(CalcError),
}

/// What the caller found when it performed an `Apply` directive.
#[derive(Clone, Copy, Debug, PartialEq, Eq, Structural)]
pub enum Outcome {
    /// The application produced a finite value, pushed onto the value stack.
    Finite,
    /// The operator was `/` or `%` and the divisor was zero.
    DivisorZero,
    /// The computed value was infinite.
    Infinite,
    /// The computed value was not a number.
    NotANumber,
}

/// Specification-level image of the engine.
#[verifier::ext_equal]
pub ghost struct EvalModel {
    pub tokens: Seq<TokenModel>,
    pub pos: int,
    pub depth: int,
    pub ops: Seq<char>,
    pub mode: Mode,
}

/// Specification-level image of a [`Directive`].
pub ghost enum DirectiveModel {
    Proceed,
    PushNumber(Seq<char>),
    Apply(char),
    Finish,
    Fail(CalcError),
}

pub open spec fn directive_model(d: Directive) -> DirectiveModel {
    match d {
        Directive::Proceed => DirectiveModel::Proceed,
        Directive::PushNumber(lit) => DirectiveModel::PushNumber(lit@),
        Directive::Apply(c) => DirectiveModel::Apply(c),
        Directive::Finish => DirectiveModel::Finish,
        Directive::Fail(e) => DirectiveModel::Fail(e),
    }
}

/// The precedence table: `+ -` bind at 1, `x / %` at 2, anything else at 0.
pub open spec fn precedence_of(op: char) -> u8 {
    if op == '+' || op == '-' {
        1u8
    } else if op == 'x' || op == '/' || op == '%' {
        2u8
    } else {
        0u8
    }
}

/// The five operators an application can compute.
pub open spec fn is_arith_op(op: char) -> bool {
    op == '+' || op == '-' || op == 'x' || op == '/' || op == '%'
}

pub open spec fn is_await_mode(mo: Mode) -> bool {
    (mo matches Mode::AwaitCloseParen(_)) || (mo matches Mode::AwaitShunt(_, _)) || (
    mo matches Mode::AwaitDrain(_))
}

pub open spec fn failed_step(m: EvalModel, e: CalcError) -> (EvalModel, DirectiveModel) {
    ((EvalModel { mode: Mode::Failed(e), ..m }), DirectiveModel::Fail(e))
}

/// Hand out the application of `op`, the top of the operator stack.  `op`
/// must be one of the five computable operators — a `(` surfacing here (in
/// the final drain) means an unmatched parenthesis — and two operands are
/// owed (else `InvalidExpression`).
pub open spec fn apply_from(m: EvalModel, aw: Mode, op: char) -> (EvalModel, DirectiveModel) {
    if !is_arith_op(op) {
        failed_step(m, CalcError::MismatchedParenthesis)
    } else if m.depth < 2 {
        failed_step(m, CalcError::InvalidExpression)
    } else {
        (
            (EvalModel { ops: m.ops.drop_last(), depth: m.depth - 2, mode: aw, ..m }),
            DirectiveModel::Apply(op),
        )
    }
}

/// One step of the engine: the next model and the directive handed out.
pub open spec fn spec_step(m: EvalModel) -> (EvalModel, DirectiveModel) {
    match m.mode {
        Mode::Scan => {
            if m.pos < 0 || m.pos >= m.tokens.len() {
                ((EvalModel { mode: Mode::Drain, ..m }), DirectiveModel::Proceed)
            } else {
                match m.tokens[m.pos] {
                    TokenModel::Number(lit) => (
                        (EvalModel { pos: m.pos + 1, depth: m.depth + 1, ..m }),
                        DirectiveModel::PushNumber(lit),
                    ),
                    TokenModel::Operator(c) => if c == '(' {
                        (
                            (EvalModel { pos: m.pos + 1, ops: m.ops.push('('), ..m }),
                            DirectiveModel::Proceed,
                        )
                    } else if c == ')' {
                        (
                            (EvalModel { pos: m.pos + 1, mode: Mode::CloseParen, ..m }),
                            DirectiveModel::Proceed,
                        )
                    } else {
                        (
                            (EvalModel { pos: m.pos + 1, mode: Mode::Shunt(c), ..m }),
                            DirectiveModel::Proceed,
                        )
                    },
                }
            }
        },
        Mode::CloseParen => {
            if m.ops.len() == 0 {
                failed_step(m, CalcError::MismatchedParenthesis)
            } else if m.ops.last() == '(' {
                (
                    (EvalModel { ops: m.ops.drop_last(), mode: Mode::Scan, ..m }),
                    DirectiveModel::Proceed,
                )
            } else {
                apply_from(m, Mode::AwaitCloseParen(m.ops.last()), m.ops.last())
            }
        },
        Mode::Shunt(pending) => {
            if m.ops.len() == 0 || m.ops.last() == '(' || precedence_of(pending) > precedence_of(
                m.ops.last(),
            ) {
                (
                    (EvalModel { ops: m.ops.push(pending), mode: Mode::Scan, ..m }),
                    DirectiveModel::Proceed,
                )
            } else {
                apply_from(m, Mode::AwaitShunt(m.ops.last(), pending), m.ops.last())
            }
        },
        Mode::Drain => {
            if m.ops.len() == 0 {
                if m.depth == 0 {
                    failed_step(m, CalcError::InvalidExpression)
                } else {
                    ((EvalModel { mode: Mode::Finished, ..m }), DirectiveModel::Finish)
                }
            } else {
                apply_from(m, Mode::AwaitDrain(m.ops.last()), m.ops.last())
            }
        },
        Mode::AwaitCloseParen(op) => (m, DirectiveModel::Apply(op)),
        Mode::AwaitShunt(op, _pending) => (m, DirectiveModel::Apply(op)),
        Mode::AwaitDrain(op) => (m, DirectiveModel::Apply(op)),
        Mode::Finished => (m, DirectiveModel::Finish),
        Mode::Failed(e) => (m, DirectiveModel::Fail(e)),
    }
}

/// How a reported outcome settles a pending application.
pub open spec fn resolve(m: EvalModel, o: Outcome, resume: Mode) -> EvalModel {
    match o {
        Outcome::Finite => EvalModel { depth: m.depth + 1, mode: resume, ..m },
        Outcome::DivisorZero => EvalModel { mode: Mode::Failed(CalcError::DivisionByZero), ..m },
        Outcome::Infinite => EvalModel { mode: Mode::Failed(CalcError::Overflow), ..m },
        Outcome::NotANumber => EvalModel { mode: Mode::Failed(CalcError::InvalidOperation), ..m },
    }
}

/// The effect of [`Evaluator::report`] on the model: meaningful only while an
/// application is pending; otherwise nothing changes.
pub open spec fn spec_report(m: EvalModel, o: Outcome) -> EvalModel {
    match m.mode {
        Mode::AwaitCloseParen(_) => resolve(m, o, Mode::CloseParen),
        Mode::AwaitShunt(_, pending) => resolve(m, o, Mode::Shunt(pending)),
        Mode::AwaitDrain(_) => resolve(m, o, Mode::Drain),
        _ => m,
    }
}

impl View for Evaluator {
    type V = EvalModel;

    closed spec fn view(&self) -> EvalModel {
        EvalModel {
            tokens: tokens_model(self.tokens@),
            pos: self.pos as int,
            depth: self.depth as int,
            ops: self.ops@,
            mode: self.mode,
        }
    }
}

impl Evaluator {
    /// Well-formedness: the operand depth never exceeds the number of tokens
    /// already read, and a pending application has already consumed its two
    /// operands.  Every constructor establishes it and every method keeps it.
    pub closed spec fn wf(self) -> bool {
        &&& self.pos <= self.tokens@.len()
        &&& self.depth <= self.pos
        &&& (is_await_mode(self.mode) ==> self.depth + 2 <= self.pos)
    }

    /// A fresh engine over a token sequence, ready to scan.
    pub fn new(tokens: Vec<Token>) -> (r: Evaluator)
        ensures
            r.wf(),
            r@ == (EvalModel {
                tokens: tokens_model(tokens@),
                pos: 0,
                depth: 0,
                ops: Seq::empty(),
                mode: Mode::Scan,
            }),
    {
        let r = Evaluator { tokens, pos: 0, depth: 0, ops: Vec::new(), mode: Mode::Scan };
        proof {
            assert(r@ =~= (EvalModel {
                tokens: tokens_model(r.tokens@),
                pos: 0,
                depth: 0,
                ops: Seq::empty(),
                mode: Mode::Scan,
            }));
        }
        r
    }

    /// One step of evaluation, exactly [`spec_step`] of the model.
    pub fn next(&mut self) -> (d: Directive)
        requires
            old(self).wf(),
        ensures
            final(self).wf(),
            final(self)@ == spec_step(old(self)@).0,
            directive_model(d) == spec_step(old(self)@).1,
    {
        match self.mode {
            Mode::Scan => {
                if self.pos >= self.tokens.len() {
                    self.mode = Mode::Drain;
                    proof {
                        assert(self@ =~= spec_step(old(self)@).0);
                    }
                    Directive::Proceed
                } else {
                    let t = &self.tokens[self.pos];
                    match t {
                        Token::Number(lit) => {
                            let out = copy_chars(lit);
                            self.pos = self.pos + 1;
                            self.depth = self.depth + 1;
                            proof {
                                assert(self@ =~= spec_step(old(self)@).0);
                            }
                            Directive::PushNumber(out)
                        },
                        Token::Operator(sym) => {
                            let c = *sym;
                            self.pos = self.pos + 1;
                            if c == '(' {
                                self.ops.push('(');
                                proof {
                                    assert(self@ =~= spec_step(old(self)@).0);
                                }
                                Directive::Proceed
                            } else if c == ')' {
                                self.mode = Mode::CloseParen;
                                proof {
                                    assert(self@ =~= spec_step(old(self)@).0);
                                }
                                Directive::Proceed
                            } else {
                                self.mode = Mode::Shunt(c);
                                proof {
                                    assert(self@ =~= spec_step(old(self)@).0);
                                }
                                Directive::Proceed
                            }
                        },
                    }
                }
            },
            Mode::CloseParen => {
                if self.ops.len() == 0 {
                    self.mode = Mode::Failed(CalcError::MismatchedParenthesis);
                    proof {
                        assert(self@ =~= spec_step(old(self)@).0);
                    }
                    Directive::Fail(CalcError::MismatchedParenthesis)
                } else {
                    let op = self.ops[self.ops.len() - 1];
                    if op == '(' {
                        self.ops.pop();
                        self.mode = Mode::Scan;
                        proof {
                            assert(self@ =~= spec_step(old(self)@).0);
                        }
                        Directive::Proceed
                    } else {
                        self.hand_out_apply(op, Mode::AwaitCloseParen(op))
                    }
                }
            },
            Mode::Shunt(pending) => {
                let may_push = if self.ops.len() == 0 {
                    true
                } else {
                    let top = self.ops[self.ops.len() - 1];
                    top == '(' || precedence(pending) > precedence(top)
                };
                if may_push {
                    self.ops.push(pending);
                    self.mode = Mode::Scan;
                    proof {
                        assert(self@ =~= spec_step(old(self)@).0);
                    }
                    Directive::Proceed
                } else {
                    let op = self.ops[self.ops.len() - 1];
                    self.hand_out_apply(op, Mode::AwaitShunt(op, pending))
                }
            },
            Mode::Drain => {
                if self.ops.len() == 0 {
                    if self.depth == 0 {
                        self.mode = Mode::Failed(CalcError::InvalidExpression);
                        proof {
                            assert(self@ =~= spec_step(old(self)@).0);
                        }
                        Directive::Fail(CalcError::InvalidExpression)
                    } else {
                        self.mode = Mode::Finished;
                        proof {
                            assert(self@ =~= spec_step(old(self)@).0);
                        }
                        Directive::Finish
                    }
                } else {
                    let op = self.ops[self.ops.len() - 1];
                    self.hand_out_apply(op, Mode::AwaitDrain(op))
                }
            },
            Mode::AwaitCloseParen(op) => Directive::Apply(op),
            Mode::AwaitShunt(op, _pending) => Directive::Apply(op),
            Mode::AwaitDrain(op) => Directive::Apply(op),
            Mode::Finished => Directive::Finish,
            Mode::Failed(e) => Directive::Fail(e),
        }
    }

    /// Shared tail of the three application sites: checks operands and the
    /// operator, then hands out the application and waits in `aw`.
    fn hand_out_apply(&mut self, op: char, aw: Mode) -> (d: Directive)
        requires
            old(self).wf(),
            old(self).ops@.len() > 0,
            op == old(self).ops@.last(),
            is_await_mode(aw),
            spec_step(old(self)@) == apply_from(old(self)@, aw, op),
        ensures
            final(self).wf(),
            final(self)@ == spec_step(old(self)@).0,
            directive_model(d) == spec_step(old(self)@).1,
    {
        if !(op == '+' || op == '-' || op == 'x' || op == '/' || op == '%') {
            self.mode = Mode::Failed(CalcError::MismatchedParenthesis);
            proof {
                assert(self@ =~= apply_from(old(self)@, aw, op).0);
            }
            Directive::Fail(CalcError::MismatchedParenthesis)
        } else if self.depth < 2 {
            self.mode = Mode::Failed(CalcError::InvalidExpression);
            proof {
                assert(self@ =~= apply_from(old(self)@, aw, op).0);
            }
            Directive::Fail(CalcError::InvalidExpression)
        } else {
            self.ops.pop();
            self.depth = self.depth - 2;
            self.mode = aw;
            proof {
                assert(self@ =~= apply_from(old(self)@, aw, op).0);
            }
            Directive::Apply(op)
        }
    }

    /// Settle a pending application, exactly [`spec_report`] of the model:
    /// a finite outcome resumes where the engine left off with one more
    /// operand on the value stack; a zero divisor, an infinite value or a
    /// non-number fails the evaluation with the matching error.  While no
    /// application is pending the call changes nothing.
    pub fn report(&mut self, outcome: Outcome)
        requires
            old(self).wf(),
        ensures
            final(self).wf(),
            final(self)@ == spec_report(old(self)@, outcome),
    {
        match self.mode {
            Mode::AwaitCloseParen(_) => self.resolve_outcome(outcome, Mode::CloseParen),
            Mode::AwaitShunt(_, pending) => self.resolve_outcome(outcome, Mode::Shunt(pending)),
            Mode::AwaitDrain(_) => self.resolve_outcome(outcome, Mode::Drain),
            _ => {},
        }
    }

    fn resolve_outcome(&mut self, outcome: Outcome, resume: Mode)
        requires
            old(self).wf(),
            is_await_mode(old(self).mode),
            !is_await_mode(resume),
        ensures
            final(self).wf(),
            final(self)@ == resolve(old(self)@, outcome, resume),
    {
        match outcome {
            Outcome::Finite => {
                self.depth = self.depth + 1;
                self.mode = resume;
            },
            Outcome::DivisorZero => {
                self.mode = Mode::Failed(CalcError::DivisionByZero);
            },
            Outcome::Infinite => {
                self.mode = Mode::Failed(CalcError::Overflow);
            },
            Outcome::NotANumber => {
                self.mode = Mode::Failed(CalcError::InvalidOperation);
            },
        }
        proof {
            assert(self@ =~= resolve(old(self)@, outcome, resume));
        }
    }
}

/// The precedence table as executable code: `+ -` bind at 1, `x / %` at 2,
/// anything else at 0.
pub fn precedence(op: char) -> (p: u8)
    ensures
        p == precedence_of(op),
{
    if op == '+' || op == '-' {
        1
    } else if op == 'x' || op == '/' || op == '%' {
        2
    } else {
        0
    }
}

/// Law: an `Apply` directive is only handed out with at least two operands
/// on the value stack, which it consumes; a shortfall is rejected as
/// `InvalidExpression` before any operand is touched.
pub proof fn lemma_apply_needs_two_operands(m: EvalModel, op: char)
    requires
        !is_await_mode(m.mode),
        spec_step(m).1 == DirectiveModel::Apply(op),
    ensures
        m.depth >= 2,
        spec_step(m).0.depth == m.depth - 2,
        is_arith_op(op),
{
}

/// Law (left associativity): while the held operator binds no tighter than
/// the computable operator on top of the stack, the engine applies the top
/// first — so operators of equal precedence take effect left to right.
pub proof fn lemma_equal_precedence_applies_left_first(m: EvalModel, pending: char)
    requires
        m.mode == Mode::Shunt(pending),
        m.ops.len() > 0,
        is_arith_op(m.ops.last()),
        precedence_of(pending) <= precedence_of(m.ops.last()),
        m.depth >= 2,
    ensures
        spec_step(m).1 == DirectiveModel::Apply(m.ops.last()),
        spec_step(m).0.mode == Mode::AwaitShunt(m.ops.last(), pending),
{
}

/// Law (precedence): an operator that binds tighter than the stack top — or
/// arrives over an empty stack or an open parenthesis — is deferred: it is
/// pushed without applying anything, and scanning resumes.
pub proof fn lemma_tighter_operator_is_deferred(m: EvalModel, pending: char)
    requires
        m.mode == Mode::Shunt(pending),
        m.ops.len() == 0 || m.ops.last() == '(' || precedence_of(pending) > precedence_of(
            m.ops.last(),
        ),
    ensures
        spec_step(m).0.ops == m.ops.push(pending),
        spec_step(m).0.mode == Mode::Scan,
        spec_step(m).0.depth == m.depth,
        spec_step(m).1 == DirectiveModel::Proceed,
{
}

/// Law: a failed evaluation is final — every later step leaves the model
/// unchanged and reports the same error again.
pub proof fn lemma_failed_absorbing(m: EvalModel, e: CalcError)
    requires
        m.mode == Mode::Failed(e),
    ensures
        spec_step(m).0 == m,
        spec_step(m).1 == DirectiveModel::Fail(e),
{
}

/// Law: an application whose outcome is a zero divisor, an infinite value or
/// a non-number is rejected before any result reaches the operand stack: the
/// operand depth stays as it was and the machine fails with the matching
/// error, which [`lemma_failed_absorbing`] makes final.
pub proof fn lemma_bad_outcome_rejected(m: EvalModel, o: Outcome)
    requires
        is_await_mode(m.mode),
        o != Outcome::Finite,
    ensures
        spec_report(m, o).depth == m.depth,
        o == Outcome::DivisorZero ==> spec_report(m, o).mode == Mode::Failed(
            CalcError::DivisionByZero,
        ),
        o == Outcome::Infinite ==> spec_report(m, o).mode == Mode::Failed(CalcError::Overflow),
        o == Outcome::NotANumber ==> spec_report(m, o).mode == Mode::Failed(
            CalcError::InvalidOperation,
        ),
{
}

/// Law: evaluation holds no hidden state — a step and a report are functions
/// of the model and the outcome alone, so re-running the same input always
/// yields the same behaviour.
pub proof fn lemma_evaluation_deterministic(a: EvalModel, b: EvalModel, o: Outcome)
    requires
        a == b,
    ensures
        spec_step(a) == spec_step(b),
        spec_report(a, o) == spec_report(b, o),
{
}


/// How a whole evaluation run can end, seen from the engine: the caller pops
/// its result, the engine aborts with an error, or the supplied outcomes ran
/// out before the pending application was settled.
pub ghost enum RunResult {
    Completed,
    Aborted(CalcError),
    Stalled,
}

pub open spec fn mode_rank(mo: Mode) -> nat {
    match mo {
        Mode::Finished => 0,
        Mode::Failed(_) => 0,
        Mode::AwaitCloseParen(_) => 0,
        Mode::AwaitShunt(_, _) => 0,
        Mode::AwaitDrain(_) => 0,
        Mode::Drain => 1,
        Mode::Scan => 2,
        Mode::CloseParen => 3,
        Mode::Shunt(_) => 3,
    }
}

pub open spec fn tokens_ahead(m: EvalModel) -> int {
    if m.pos <= m.tokens.len() {
        m.tokens.len() - m.pos
    } else {
        0
    }
}

/// A whole evaluation run: the engine steps until it finishes or fails,
/// consuming one of `outcomes` each time an application is handed out.
///
/// That this definition is admitted at all — its `decreases` obligation —
/// is the engine's termination law: an evaluation is one pass over the
/// tokens plus a drain of the operator stack, never an unbounded loop.
pub open spec fn spec_run(m: EvalModel, outcomes: Seq<Outcome>) -> RunResult
    decreases tokens_ahead(m), outcomes.len(), mode_rank(m.mode),
{
    match m.mode {
        Mode::Finished => RunResult::Completed,
        Mode::Failed(e) => RunResult::Aborted(e),
        Mode::AwaitCloseParen(_) | Mode::AwaitShunt(_, _) | Mode::AwaitDrain(_) => {
            if outcomes.len() == 0 {
                RunResult::Stalled
            } else {
                spec_run(spec_report(m, outcomes[0]), outcomes.drop_first())
            }
        },
        _ => spec_run(spec_step(m).0, outcomes),
    }
}

/// Law: a closing parenthesis stops unwinding exactly at the matching `(`,
/// which is discarded — not applied — and scanning resumes with the operand
/// stack untouched.
pub proof fn lemma_matching_paren_is_discarded(m: EvalModel)
    requires
        m.mode == Mode::CloseParen,
        m.ops.len() > 0,
        m.ops.last() == '(',
    ensures
        spec_step(m).0.ops == m.ops.drop_last(),
        spec_step(m).0.mode == Mode::Scan,
        spec_step(m).0.depth == m.depth,
        spec_step(m).1 == DirectiveModel::Proceed,
{
}

/// Law: a closing parenthesis that empties the operator stack without
/// finding a `(` is a mismatched parenthesis.
pub proof fn lemma_unmatched_close_paren_fails(m: EvalModel)
    requires
        m.mode == Mode::CloseParen,
        m.ops.len() == 0,
    ensures
        spec_step(m).0.mode == Mode::Failed(CalcError::MismatchedParenthesis),
        spec_step(m).1 == DirectiveModel::Fail(CalcError::MismatchedParenthesis),
{
}

/// Law: once an evaluation has failed, the whole remaining run reports that
/// error, whatever outcomes may still arrive.
pub proof fn lemma_failed_run_reports_the_error(m: EvalModel, e: CalcError, outcomes: Seq<Outcome>)
    requires
        m.mode == Mode::Failed(e),
    ensures
        spec_run(m, outcomes) == RunResult::Aborted(e),
{
}

/// Law: an application whose outcome is rejected aborts the whole run with
/// the matching error — the bad value never enters the operand stack and
/// nothing is computed after it.
pub proof fn lemma_bad_outcome_aborts_run(m: EvalModel, outcomes: Seq<Outcome>)
    requires
        is_await_mode(m.mode),
        outcomes.len() > 0,
        outcomes[0] != Outcome::Finite,
    ensures
        outcomes[0] == Outcome::DivisorZero ==> spec_run(m, outcomes) == RunResult::Aborted(
            CalcError::DivisionByZero,
        ),
        outcomes[0] == Outcome::Infinite ==> spec_run(m, outcomes) == RunResult::Aborted(
            CalcError::Overflow,
        ),
        outcomes[0] == Outcome::NotANumber ==> spec_run(m, outcomes) == RunResult::Aborted(
            CalcError::InvalidOperation,
        ),
{
    lemma_bad_outcome_rejected(m, outcomes[0]);
    let failed = spec_report(m, outcomes[0]);
    if outcomes[0] == Outcome::DivisorZero {
        lemma_failed_run_reports_the_error(failed, CalcError::DivisionByZero, outcomes.drop_first());
    } else if outcomes[0] == Outcome::Infinite {
        lemma_failed_run_reports_the_error(failed, CalcError::Overflow, outcomes.drop_first());
    } else {
        lemma_failed_run_reports_the_error(failed, CalcError::InvalidOperation, outcomes.drop_first());
    }
}

} // verus!
