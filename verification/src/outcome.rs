//! How an invocation ends.

use vstd::prelude::*;

verus! {

/// The end of an invocation.
#[derive(Debug)]
pub enum Outcome {
    /// All went well.
    Success,
    /// It failed, and this is why.
    Failure(String),
    /// It failed, and what there is to say has been said already.
    SilentFailure,
}

impl Outcome {
    /// The outcome that a result stands for: an error with a message is a
    /// failure; one without is a silent failure.
    pub fn from_result(result: Result<(), Option<String>>) -> (outcome: Outcome)
        ensures
            outcome == match result {
                Ok(_) => Outcome::Success,
                Err(Some(message)) => Outcome::Failure(message),
                Err(None) => Outcome::SilentFailure,
            },
    {
        match result {
            Ok(_) => Outcome::Success,
            Err(Some(message)) => Outcome::Failure(message),
            Err(None) => Outcome::SilentFailure,
        }
    }

    /// The exit code of the process: zero after a success, one after any
    /// failure.
    pub fn exit_code(&self) -> (code: i32)
        ensures
            code == if *self is Success {
                0i32
            } else {
                1i32
            },
    {
        match self {
            Outcome::Success => 0,
            _ => 1,
        }
    }

    /// What goes to standard error: the message of a failure, and nothing
    /// otherwise.
    pub fn message(&self) -> (message: Option<&str>)
        ensures
            match *self {
                Outcome::Failure(text) => message matches Some(shown) && shown@ == text@,
                _ => message is None,
            },
    {
        match self {
            Outcome::Failure(text) => Some(text.as_str()),
            _ => None,
        }
    }
}

} // verus!
