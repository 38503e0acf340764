//! Timed trials: one run of the workload at one size, with the wall-clock time
//! it took, and the fixed series of trials that makes a benchmark.

use crate::aggregate::{
    compute_average_income_of_all_employees, lemma_total_of_bounds, SalaryTotals,
};
use crate::char_pool::{char_pool, ALPHABET_SIZE};
use crate::employee::{DRAWS_PER_EMPLOYEE, SALARY};
use crate::source::{advanced_by, lemma_advanced_by_chain, Draw, RandomSource};
use crate::stream::lookup_all_employees;
use core::time::Duration;
use std::time::Instant;
use vstd::prelude::*;

verus! {

/// A reading of the monotonic clock. What it holds is the clock's business.
#[verifier::external_type_specification]
#[verifier::external_body]
pub struct ExInstant(std::time::Instant);

/// `std::time::Instant::now` reads the monotonic clock. Nothing is claimed of
/// the reading.
pub assume_specification[ std::time::Instant::now ]() -> (now: std::time::Instant)
;

/// `std::time::Instant::duration_since` gives the time from `earlier` to
/// `later`, or zero where `earlier` is the later of the two. Nothing is
/// claimed of the length of that time.
pub assume_specification[ std::time::Instant::duration_since ](
    later: &std::time::Instant,
    earlier: std::time::Instant,
) -> (elapsed: core::time::Duration)
;

/// The sizes a benchmark runs its trials at, in this order.
pub const WORKLOAD_SIZES: [usize; 4] = [1000, 10000, 100000, 1000000];

/// The number of employees a whole benchmark makes.
pub const WORKLOAD_TOTAL: usize = 1111000;

/// The number of employees that the first `trials` trials of a benchmark make.
pub open spec fn workload_of_first(trials: nat) -> nat
    decreases trials,
{
    if trials == 0 {
        0
    } else {
        workload_of_first((trials - 1) as nat) + WORKLOAD_SIZES@[trials - 1] as nat
    }
}

/// `WORKLOAD_TOTAL` is what the sizes of a benchmark's trials add up to.
pub proof fn lemma_workload_total()
    ensures
        workload_of_first(WORKLOAD_SIZES@.len()) == WORKLOAD_TOTAL,
{
    reveal_with_fuel(workload_of_first, 5);
}

/// The outcome of one trial.
#[derive(Debug)]
pub struct TrialResult {
    /// The number of employees the trial was asked to make.
    pub number_of_employees: usize,
    /// How many salaries the trial counted and what they add up to.
    pub totals: SalaryTotals,
    /// The wall-clock time that making and counting the employees took.
    pub elapsed: Duration,
}

impl TrialResult {
    /// The trial counted as many employees as it was asked for, each with the
    /// salary `SALARY`.
    pub open spec fn is_complete(self) -> bool {
        &&& self.totals.count == self.number_of_employees
        &&& self.totals.sum == SALARY * self.number_of_employees
    }
}

/// Runs one trial: makes `number_of_employees` employees from `rng` over
/// `char_pool` and reduces them to their totals, between two readings of the
/// clock. Only the making and the counting are timed.
pub fn run_trial<R: RandomSource>(rng: &mut R, number_of_employees: usize, char_pool: &[char]) -> (trial:
    TrialResult)
    requires
        number_of_employees > 0 ==> char_pool@.len() > 0,
        number_of_employees * SALARY <= u64::MAX,
    ensures
        trial.number_of_employees == number_of_employees,
        trial.is_complete(),
        number_of_employees >= 1 ==> trial.totals.mean_is(SALARY as int),
        number_of_employees == 0 ==> trial.totals.spec_whole_mean() is None,
        advanced_by(
            old(rng).draws(),
            final(rng).draws(),
            (number_of_employees * DRAWS_PER_EMPLOYEE) as nat,
            char_pool@.len(),
        ),
{
    let start_time = Instant::now();
    let employees = lookup_all_employees(number_of_employees, char_pool);
    proof {
        lemma_total_of_bounds(employees.spec_salaries(), SALARY as nat, SALARY as nat);
    }
    let totals = compute_average_income_of_all_employees(employees, rng);
    let end_time = Instant::now();
    let elapsed = end_time.duration_since(start_time);
    TrialResult { number_of_employees, totals, elapsed }
}

/// The generators that can be benchmarked.
#[derive(Clone, Copy, Debug, PartialEq, Eq, Structural)]
pub enum Backend {
    Small,
    Fast,
}

impl Backend {
    /// The line that announces a benchmark of this backend.
    pub open spec fn spec_banner(self) -> Seq<char> {
        match self {
            Backend::Small => "Benchmarking small random number generator"@,
            Backend::Fast => "Benchmarking fast random number generator"@,
        }
    }

    /// The line that announces a benchmark of this backend.
    pub fn banner(self) -> (text: &'static str)
        ensures
            text@ == self.spec_banner(),
    {
        match self {
            Backend::Small => "Benchmarking small random number generator",
            Backend::Fast => "Benchmarking fast random number generator",
        }
    }
}

/// What one benchmark found: which backend ran, and its trials in the order
/// they ran.
#[derive(Debug)]
pub struct BenchmarkReport {
    pub backend: Backend,
    pub trials: Vec<TrialResult>,
}

impl BenchmarkReport {
    /// There is one complete trial for each of `WORKLOAD_SIZES`, in that
    /// order.
    pub open spec fn covers_workload(self) -> bool {
        &&& self.trials@.len() == WORKLOAD_SIZES@.len()
        &&& forall|i: int|
            0 <= i < self.trials@.len() ==> {
                &&& (#[trigger] self.trials@[i]).number_of_employees == WORKLOAD_SIZES@[i]
                &&& self.trials@[i].is_complete()
            }
    }
}

/// A report that covers the workload has the mean `SALARY` in every one of
/// its trials, whichever backend it came from.
pub proof fn lemma_every_trial_mean_is_salary(report: BenchmarkReport)
    requires
        report.covers_workload(),
    ensures
        forall|i: int|
            0 <= i < report.trials@.len() ==> (#[trigger] report.trials@[i]).totals.mean_is(
                SALARY as int,
            ),
{
    assert forall|i: int| 0 <= i < report.trials@.len() implies (
    #[trigger] report.trials@[i]).totals.mean_is(SALARY as int) by {
        assert(WORKLOAD_SIZES@[i] >= 1);
    }
}

/// Runs the benchmark of one backend: a trial at each of `WORKLOAD_SIZES`, in
/// order, all drawing from `rng` one after the other over one alphabet.
pub fn run_benchmark<R: RandomSource>(backend: Backend, rng: &mut R) -> (report: BenchmarkReport)
    ensures
        report.backend == backend,
        report.covers_workload(),
        advanced_by(
            old(rng).draws(),
            final(rng).draws(),
            (WORKLOAD_TOTAL * DRAWS_PER_EMPLOYEE) as nat,
            ALPHABET_SIZE as nat,
        ),
{
    let ghost before: Seq<Draw> = rng.draws();
    let pool = char_pool();
    let mut trials: Vec<TrialResult> = Vec::new();
    let mut done: usize = 0;
    proof {
        assert(before.subrange(0, before.len() as int) =~= before);
    }
    while done < WORKLOAD_SIZES.len()
        invariant
            done <= WORKLOAD_SIZES@.len(),
            pool@.len() == ALPHABET_SIZE,
            trials@.len() == done,
            forall|i: int|
                0 <= i < done ==> {
                    &&& (#[trigger] trials@[i]).number_of_employees == WORKLOAD_SIZES@[i]
                    &&& trials@[i].is_complete()
                },
            advanced_by(
                before,
                rng.draws(),
                (workload_of_first(done as nat) * DRAWS_PER_EMPLOYEE) as nat,
                ALPHABET_SIZE as nat,
            ),
        decreases WORKLOAD_SIZES@.len() - done,
    {
        let ghost earlier: Seq<Draw> = rng.draws();
        let size = WORKLOAD_SIZES[done];
        let trial = run_trial(rng, size, pool.as_slice());
        proof {
            lemma_advanced_by_chain(
                before,
                earlier,
                rng.draws(),
                (workload_of_first(done as nat) * DRAWS_PER_EMPLOYEE) as nat,
                (size * DRAWS_PER_EMPLOYEE) as nat,
                ALPHABET_SIZE as nat,
            );
        }
        trials.push(trial);
        done = done + 1;
    }
    proof {
        lemma_workload_total();
    }
    BenchmarkReport { backend, trials }
}

} // verus!
