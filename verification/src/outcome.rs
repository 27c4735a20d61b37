//! What evaluating a sequence of forms comes to.

use vstd::prelude::*;

verus! {

/// The outcome of evaluating the forms of one line.
///
/// A sequence without forms has an outcome of its own, [`Outcome::Empty`]: it
/// is neither a value of the evaluator's choosing nor a failure. A driver
/// reports it as an empty line.
#[derive(Debug, PartialEq, Eq)]
pub enum Outcome<V, X> {
    /// There was no form to evaluate.
    Empty,
    /// Every form evaluated; this is the value of the last one.
    Value(V),
    /// A form failed; this is its failure. No form after it was evaluated.
    Failure(X),
}

impl<V, X> Outcome<V, X> {
    /// The outcome of a sequence whose last evaluated form produced `result`.
    pub open spec fn of(result: Result<V, X>) -> Self {
        match result {
            Ok(value) => Outcome::Value(value),
            Err(failure) => Outcome::Failure(failure),
        }
    }

    /// Whether a form failed.
    pub fn is_failure(&self) -> (failed: bool)
        ensures
            failed == (self is Failure),
    {
        match self {
            Outcome::Failure(_) => true,
            _ => false,
        }
    }

    /// The outcome as a `Result`: `Ok(None)` where there was no form,
    /// `Ok(Some(value))` for a value, `Err(failure)` for a failure.
    pub fn into_result(self) -> (result: Result<Option<V>, X>)
        ensures
            result == match self {
                Outcome::Empty => Ok::<Option<V>, X>(None),
                Outcome::Value(value) => Ok(Some(value)),
                Outcome::Failure(failure) => Err(failure),
            },
    {
        match self {
            Outcome::Empty => Ok(None),
            Outcome::Value(value) => Ok(Some(value)),
            Outcome::Failure(failure) => Err(failure),
        }
    }
}

} // verus!
