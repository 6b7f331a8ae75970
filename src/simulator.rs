use vstd::prelude::*;
use rand::Rng;
use rand::rngs::ThreadRng;
use crate::outcome::Outcome;

verus! {

#[verifier::external_type_specification]
#[verifier::external_body]
pub struct ExThreadRng(ThreadRng);

/// Relies on rand's `Rng::gen_range` on `low..high`: a value in that
/// half-open range. It panics on an empty range, which `requires` excludes.
#[verifier::external_body]
fn draw_in_range(rng: &mut ThreadRng, low: u64, high: u64) -> (r: u64)
    requires
        low < high,
    ensures
        low <= r < high,
{
    rng.gen_range(low..high)
}

/// Relies on rand's `Rng::gen_ratio`: `true` with chance
/// `numerator / denominator`, always `false` for a zero numerator and always
/// `true` when numerator and denominator are equal. It panics on a zero
/// denominator or a numerator above the denominator, which `requires` excludes.
#[verifier::external_body]
fn draw_ratio(rng: &mut ThreadRng, numerator: u32, denominator: u32) -> (r: bool)
    requires
        0 < denominator,
        numerator <= denominator,
    ensures
        numerator == 0 ==> !r,
        numerator == denominator ==> r,
{
    rng.gen_ratio(numerator, denominator)
}

pub const DEFAULT_MIN_LATENCY_MS: u64 = 1;

pub const DEFAULT_MAX_LATENCY_MS: u64 = 500;

pub const DEFAULT_SUCCESS_NUMERATOR: u32 = 4;

pub const DEFAULT_SUCCESS_DENOMINATOR: u32 = 5;

/// One planned execution of the simulated task: how long it blocks and how
/// it ends.
#[derive(Clone, Copy, Debug, PartialEq, Eq, Structural)]
pub struct TaskRun {
    pub latency_ms: u64,
    pub outcome: Outcome,
}

/// Parameters of the simulated task: a latency drawn from
/// `min_latency_ms..max_latency_ms` and success with chance
/// `success_numerator / success_denominator`.
#[derive(Clone, Copy, Debug, PartialEq, Eq, Structural)]
pub struct TaskSimulator {
    pub min_latency_ms: u64,
    pub max_latency_ms: u64,
    pub success_numerator: u32,
    pub success_denominator: u32,
}

impl TaskSimulator {
    /// A non-empty latency range and a success chance between 0 and 1.
    pub open spec fn wf(&self) -> bool {
        &&& self.min_latency_ms < self.max_latency_ms
        &&& 0 < self.success_denominator
        &&& self.success_numerator <= self.success_denominator
    }

    /// Latency in `1..500` milliseconds, success with chance 4/5.
    pub fn new() -> (r: TaskSimulator)
        ensures
            r.wf(),
            r.min_latency_ms == DEFAULT_MIN_LATENCY_MS,
            r.max_latency_ms == DEFAULT_MAX_LATENCY_MS,
            r.success_numerator == DEFAULT_SUCCESS_NUMERATOR,
            r.success_denominator == DEFAULT_SUCCESS_DENOMINATOR,
    {
        TaskSimulator {
            min_latency_ms: DEFAULT_MIN_LATENCY_MS,
            max_latency_ms: DEFAULT_MAX_LATENCY_MS,
            success_numerator: DEFAULT_SUCCESS_NUMERATOR,
            success_denominator: DEFAULT_SUCCESS_DENOMINATOR,
        }
    }

    /// A simulator with the given parameters, or `None` when the latency
    /// range is empty or the success chance is not a ratio between 0 and 1.
    pub fn with_params(
        min_latency_ms: u64,
        max_latency_ms: u64,
        success_numerator: u32,
        success_denominator: u32,
    ) -> (r: Option<TaskSimulator>)
        ensures
            r is Some <==> (min_latency_ms < max_latency_ms && 0 < success_denominator
                && success_numerator <= success_denominator),
            r matches Some(t) ==> {
                &&& t.wf()
                &&& t.min_latency_ms == min_latency_ms
                &&& t.max_latency_ms == max_latency_ms
                &&& t.success_numerator == success_numerator
                &&& t.success_denominator == success_denominator
            },
    {
        if min_latency_ms < max_latency_ms && 0 < success_denominator && success_numerator
            <= success_denominator {
            Some(
                TaskSimulator { min_latency_ms, max_latency_ms, success_numerator, success_denominator },
            )
        } else {
            None
        }
    }

    /// Draws one execution: a latency in the configured range and an outcome
    /// that is certain failure for a zero chance and certain success for a
    /// chance of one.
    pub fn draw(&self, rng: &mut ThreadRng) -> (r: TaskRun)
        requires
            self.wf(),
        ensures
            self.min_latency_ms <= r.latency_ms < self.max_latency_ms,
            self.success_numerator == 0 ==> r.outcome is Failure,
            self.success_numerator == self.success_denominator ==> r.outcome is Success,
    {
        let latency_ms = draw_in_range(rng, self.min_latency_ms, self.max_latency_ms);
        let succeeded = draw_ratio(rng, self.success_numerator, self.success_denominator);
        TaskRun { latency_ms, outcome: Outcome::from_draw(succeeded) }
    }
}

} // verus!
