//! The core of an interactive read-evaluate-print session.
//!
//! A session owns one environment and feeds it, line by line, through three
//! capabilities that the caller supplies: a parser, an evaluator of single
//! forms, and a constructor of the default environment. This crate holds what
//! lies between them:
//!
//! * [`bridge`]: from the parser's answers for one line to the forms that are
//!   evaluated, parse failures dropped;
//! * [`block`]: the evaluation of a sequence of forms against one environment,
//!   in order, stopping at the first failure;
//! * [`session`]: the state machine that a driver steps through, and what it
//!   has the driver write to the terminal.
//!
//! Nothing here reads or writes: the driver does, as the session tells it.

pub mod block;
pub mod bridge;
pub mod outcome;
pub mod session;

pub use block::eval_block;
pub use bridge::{parse_line, valid_forms};
pub use outcome::Outcome;
pub use session::{prompt, Emit, Phase, Session};
