//! What the backend does after each attempt at a statement: a failed
//! attempt is followed by a reconnect and another attempt; the first
//! successful one ends the loop.
use vstd::prelude::*;

verus! {

/// The step that follows one attempt at a statement.
pub enum Attempt<T> {
    /// The statement went through, with this result.
    Done(T),
    /// The statement failed: reconnect to the database and try again.
    Reconnect,
}

/// The step that follows an attempt with this outcome.
pub fn after_attempt<T, E>(outcome: Result<T, E>) -> (step: Attempt<T>)
    ensures
        match outcome {
            Ok(v) => step == Attempt::Done(v),
            Err(_) => step is Reconnect,
        },
{
    match outcome {
        Ok(v) => Attempt::Done(v),
        Err(_) => Attempt::Reconnect,
    }
}

} // verus!
