//! How an operation on a device ends that is given only so much time.

use vstd::prelude::*;

verus! {

/// What came of waiting for an operation.
#[derive(Debug)]
pub enum Reply<T> {
    /// The operation has ended.
    Ended(Result<T, String>),
    /// The time was up.
    TimedOut,
    /// The operation went away without an answer.
    Died,
}

/// The outcome of the operation. One that did not end has failed.
pub fn outcome_of<T>(reply: Reply<T>) -> (outcome: Result<T, String>)
    ensures
        match reply {
            Reply::Ended(result) => outcome == result,
            Reply::TimedOut => outcome is Err && outcome->Err_0@ == "operation timed out"@,
            Reply::Died => outcome is Err && outcome->Err_0@
                == "io worker thread died unexpectedly"@,
        },
{
    match reply {
        Reply::Ended(result) => result,
        Reply::TimedOut => Err("operation timed out".to_owned()),
        Reply::Died => Err("io worker thread died unexpectedly".to_owned()),
    }
}

/// An operation that has ended has the outcome that it ended with, and one that has not ended has
/// failed: with one message if the time was up, with another if it went away.
pub proof fn law_only_ended_operations_succeed<T>(reply: Reply<T>, outcome: Result<T, String>)
    requires
        call_ensures(outcome_of::<T>, (reply,), outcome),
    ensures
        outcome is Ok ==> reply is Ended,
        reply is Ended ==> outcome == reply->Ended_0,
        reply is TimedOut ==> outcome is Err && outcome->Err_0@ == "operation timed out"@,
        reply is Died ==> outcome is Err && outcome->Err_0@
            == "io worker thread died unexpectedly"@,
{
}

} // verus!
