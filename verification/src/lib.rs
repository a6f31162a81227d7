//! Repair of ownership and borrowing annotations after an "extract method"
//! refactoring.
//!
//! Given the program after extraction, the program before it, and the method
//! calls that are known to need a mutable receiver, the engine chooses how each
//! captured variable is passed to the extracted function (by value, by shared
//! reference, by mutable reference) and rewrites the function's signature, its
//! body and every call in the caller to match.
//!
//! The work goes through these stages, each of which either hands on its
//! result or ends the repair with its own failure:
//!
//! 1. [`source`], [`grammar`]: each text is split into tokens ([`lexer`]) and
//!    its brackets are checked; the two programs are then held against the
//!    grammar of items and function definitions. The evidence is a list of
//!    calls, not a program, and only has to split into tokens with matching
//!    brackets.
//! 2. [`locate`]: caller and callee are found in the extracted program
//!    ([`syntax`]), with the callee's parameters and its calls in the caller.
//! 3. [`capture`]: the parameters are matched with the original caller, and
//!    the piece of it that became the callee is marked off.
//! 4. [`classify`]: each captured variable gets its passing mode from the
//!    [`evidence`], from assignments in the extracted piece, from the number of
//!    its uses in the callee and from its uses after the call.
//! 5. [`rewrite`]: the modes become insertions in front of tokens, and the
//!    insertions become text.
//!
//! [`engine`] ties the stages together and states what a repair returns;
//! [`laws`] proves what holds of every repair. [`tally`] keeps the counts of a
//! batch run.

pub mod error;
pub mod text;
pub mod lexer;
pub mod source;
pub mod syntax;
pub mod grammar;
pub mod locate;
pub mod evidence;
pub mod capture;
pub mod classify;
pub mod rewrite;
pub mod engine;
pub mod laws;
pub mod tally;
