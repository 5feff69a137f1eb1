//! A verified core for a small infix calculator.
//!
//! The library has three parts:
//! - [`tokenizer`]: turns an expression string into a sequence of tokens,
//!   folding a unary minus at the start or after `(` into the following
//!   numeric literal.
//! - [`evaluator`]: a two-stack (shunting-yard) evaluation engine exposed as
//!   a step machine.  The engine owns every structural decision —
//!   precedence, parentheses, operand bookkeeping and the error taxonomy —
//!   while the caller performs the numeric work on a mirrored value stack
//!   and reports each application's outcome back.
//! - [`input`]: the editing rules of the calculator's input line (which
//!   character may follow which, one dot per number, the length cap).
pub mod evaluator;
pub mod input;
pub mod tokenizer;

pub use evaluator::Directive;
pub use evaluator::DirectiveModel;
pub use evaluator::EvalModel;
pub use evaluator::Evaluator;
pub use evaluator::Mode;
pub use evaluator::Outcome;
pub use evaluator::precedence;
pub use input::MyApp;
pub use tokenizer::CalcError;
pub use tokenizer::Token;
pub use tokenizer::TokenModel;
pub use tokenizer::tokenize;
