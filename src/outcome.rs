use vstd::prelude::*;

verus! {

/// The one domain error: a simulated task that did not succeed.
#[derive(Clone, Copy, Debug, PartialEq, Eq, Structural)]
pub struct TaskFailure;

impl TaskFailure {
    /// The human-readable reason carried by every failure.
    pub fn reason(&self) -> (r: &'static str)
        ensures
            r@ == "Task error."@,
    {
        "Task error."
    }
}

/// The result of one execution of a task.
#[derive(Clone, Copy, Debug, PartialEq, Eq, Structural)]
pub enum Outcome {
    Success,
    Failure(TaskFailure),
}

impl Outcome {
    /// The outcome of a task whose success draw came out as `succeeded`.
    pub fn from_draw(succeeded: bool) -> (r: Outcome)
        ensures
            r is Success <==> succeeded,
    {
        if succeeded {
            Outcome::Success
        } else {
            Outcome::Failure(TaskFailure)
        }
    }

    pub fn is_success(&self) -> (r: bool)
        ensures
            r <==> *self is Success,
    {
        match self {
            Outcome::Success => true,
            Outcome::Failure(_) => false,
        }
    }
}

/// Number of successes in a sequence of outcomes.
pub open spec fn successes(s: Seq<Outcome>) -> nat
    decreases s.len(),
{
    if s.len() == 0 {
        0
    } else {
        successes(s.drop_last()) + if s.last() is Success {
            1nat
        } else {
            0nat
        }
    }
}

/// Number of failures in a sequence of outcomes.
pub open spec fn failures(s: Seq<Outcome>) -> nat
    decreases s.len(),
{
    if s.len() == 0 {
        0
    } else {
        failures(s.drop_last()) + if s.last() is Failure {
            1nat
        } else {
            0nat
        }
    }
}

/// Every outcome is counted exactly once: as a success or as a failure.
pub proof fn lemma_every_outcome_counted(s: Seq<Outcome>)
    ensures
        successes(s) + failures(s) == s.len(),
    decreases s.len(),
{
    if s.len() > 0 {
        lemma_every_outcome_counted(s.drop_last());
    }
}

} // verus!
